//! The row writer: accumulates the rows of one result, cell by cell, in the
//! format that the row description names.

use crate::datetime::{Date, Timestamp};
use crate::protocol::{
    cells_view, fields_view, DataRow, FieldDescription, FormatCode, RowDescription,
    RowDescriptionView,
};
use crate::text::{decimal_text, push_decimal};
use crate::wire::{i16_bytes, i32_bytes, i64_bytes, push_i16, push_i32, push_i64, push_u32, push_u64, u32_bytes, u64_bytes};
use vstd::prelude::*;
use vstd::slice::slice_to_vec;
use vstd::utf8::encode_utf8;

verus! {

/// A boolean cell: `t` or `f` as text, one byte 1 or 0 in binary.
pub open spec fn bool_cell(format: FormatCode, v: bool) -> Seq<u8> {
    match format {
        FormatCode::Text => if v {
            seq![0x74u8]
        } else {
            seq![0x66u8]
        },
        FormatCode::Binary => if v {
            seq![1u8]
        } else {
            seq![0u8]
        },
    }
}

/// A 16-bit integer cell: decimal as text, two bytes in binary.
pub open spec fn int2_cell(format: FormatCode, v: i16) -> Seq<u8> {
    match format {
        FormatCode::Text => decimal_text(v as int),
        FormatCode::Binary => i16_bytes(v),
    }
}

/// A 32-bit integer cell: decimal as text, four bytes in binary.
pub open spec fn int4_cell(format: FormatCode, v: i32) -> Seq<u8> {
    match format {
        FormatCode::Text => decimal_text(v as int),
        FormatCode::Binary => i32_bytes(v),
    }
}

/// A 64-bit integer cell: decimal as text, eight bytes in binary.
pub open spec fn int8_cell(format: FormatCode, v: i64) -> Seq<u8> {
    match format {
        FormatCode::Text => decimal_text(v as int),
        FormatCode::Binary => i64_bytes(v),
    }
}

/// A single-precision cell: the given lexical form as text, the four bytes
/// of the IEEE 754 pattern in binary.
pub open spec fn float4_cell(format: FormatCode, bits: u32, lexical: Seq<char>) -> Seq<u8> {
    match format {
        FormatCode::Text => encode_utf8(lexical),
        FormatCode::Binary => u32_bytes(bits),
    }
}

/// A double-precision cell: the given lexical form as text, the eight bytes
/// of the IEEE 754 pattern in binary.
pub open spec fn float8_cell(format: FormatCode, bits: u64, lexical: Seq<char>) -> Seq<u8> {
    match format {
        FormatCode::Text => encode_utf8(lexical),
        FormatCode::Binary => u64_bytes(bits),
    }
}

/// A text cell: the UTF-8 bytes of the string, in either format.
pub open spec fn string_cell(s: Seq<char>) -> Seq<u8> {
    encode_utf8(s)
}

/// A date cell: `YYYY-MM-DD` as text, the days since 2000-01-01 in binary.
pub open spec fn date_cell(format: FormatCode, d: Date) -> Seq<u8> {
    match format {
        FormatCode::Text => d.text(),
        FormatCode::Binary => i32_bytes(d.pg_days),
    }
}

/// A timestamp cell: `YYYY-MM-DD HH:MM:SS[.ffffff]` as text, the
/// microseconds since 2000-01-01 00:00:00 in binary.
pub open spec fn timestamp_cell(format: FormatCode, t: Timestamp) -> Seq<u8> {
    match format {
        FormatCode::Text => t.text(),
        FormatCode::Binary => i64_bytes(t.pg_micros),
    }
}

/// The cells of one row while it is being written.
#[derive(Debug, PartialEq, Eq)]
pub struct DataRowWriter {
    format_code: FormatCode,
    cells: Vec<Option<Vec<u8>>>,
}

/// The mathematical content of a [`DataRowWriter`].
pub ghost struct DataRowWriterView {
    pub format_code: FormatCode,
    pub cells: Seq<Option<Seq<u8>>>,
}

impl DataRowWriterView {
    /// The row with one more cell.
    pub open spec fn with(self, cell: Option<Seq<u8>>) -> DataRowWriterView {
        DataRowWriterView { format_code: self.format_code, cells: self.cells.push(cell) }
    }
}

impl View for DataRowWriter {
    type V = DataRowWriterView;

    closed spec fn view(&self) -> DataRowWriterView {
        DataRowWriterView { format_code: self.format_code, cells: cells_view(self.cells@) }
    }
}

impl DataRowWriter {
    fn push(&mut self, cell: Option<Vec<u8>>)
        ensures
            final(self)@ == old(self)@.with(
                match cell {
                    Some(bytes) => Some(bytes@),
                    None => None,
                },
            ),
    {
        self.cells.push(cell);
        assert(cells_view(self.cells@) =~= cells_view(old(self).cells@).push(
            match cell {
                Some(bytes) => Some(bytes@),
                None => None,
            },
        ));
    }

    /// The number of cells written so far.
    pub fn num_cols(&self) -> (n: usize)
        ensures
            n == self@.cells.len(),
    {
        self.cells.len()
    }

    /// Writes NULL.
    pub fn write_null(&mut self)
        ensures
            final(self)@ == old(self)@.with(None),
    {
        self.push(None);
    }

    /// Writes a boolean.
    pub fn write_bool(&mut self, v: bool)
        ensures
            final(self)@ == old(self)@.with(Some(bool_cell(old(self)@.format_code, v))),
    {
        let mut bytes: Vec<u8> = Vec::new();
        match self.format_code {
            FormatCode::Text => bytes.push(if v {
                0x74u8
            } else {
                0x66u8
            }),
            FormatCode::Binary => bytes.push(if v {
                1u8
            } else {
                0u8
            }),
        }
        self.push(Some(bytes));
    }

    /// Writes a 16-bit integer.
    pub fn write_int2(&mut self, v: i16)
        ensures
            final(self)@ == old(self)@.with(Some(int2_cell(old(self)@.format_code, v))),
    {
        let mut bytes: Vec<u8> = Vec::new();
        match self.format_code {
            FormatCode::Text => push_decimal(&mut bytes, v as i64),
            FormatCode::Binary => push_i16(&mut bytes, v),
        }
        self.push(Some(bytes));
    }

    /// Writes a 32-bit integer.
    pub fn write_int4(&mut self, v: i32)
        ensures
            final(self)@ == old(self)@.with(Some(int4_cell(old(self)@.format_code, v))),
    {
        let mut bytes: Vec<u8> = Vec::new();
        match self.format_code {
            FormatCode::Text => push_decimal(&mut bytes, v as i64),
            FormatCode::Binary => push_i32(&mut bytes, v),
        }
        self.push(Some(bytes));
    }

    /// Writes a 64-bit integer.
    pub fn write_int8(&mut self, v: i64)
        ensures
            final(self)@ == old(self)@.with(Some(int8_cell(old(self)@.format_code, v))),
    {
        let mut bytes: Vec<u8> = Vec::new();
        match self.format_code {
            FormatCode::Text => push_decimal(&mut bytes, v),
            FormatCode::Binary => push_i64(&mut bytes, v),
        }
        self.push(Some(bytes));
    }

    /// Writes a single-precision number, given as its IEEE 754 pattern and
    /// its lexical form.
    pub fn write_float4(&mut self, bits: u32, lexical: &str)
        ensures
            final(self)@ == old(self)@.with(
                Some(float4_cell(old(self)@.format_code, bits, lexical@)),
            ),
    {
        let bytes: Vec<u8> = match self.format_code {
            FormatCode::Text => slice_to_vec(lexical.as_bytes()),
            FormatCode::Binary => {
                let mut b: Vec<u8> = Vec::new();
                push_u32(&mut b, bits);
                b
            },
        };
        self.push(Some(bytes));
    }

    /// Writes a double-precision number, given as its IEEE 754 pattern and
    /// its lexical form.
    pub fn write_float8(&mut self, bits: u64, lexical: &str)
        ensures
            final(self)@ == old(self)@.with(
                Some(float8_cell(old(self)@.format_code, bits, lexical@)),
            ),
    {
        let bytes: Vec<u8> = match self.format_code {
            FormatCode::Text => slice_to_vec(lexical.as_bytes()),
            FormatCode::Binary => {
                let mut b: Vec<u8> = Vec::new();
                push_u64(&mut b, bits);
                b
            },
        };
        self.push(Some(bytes));
    }

    /// Writes a string.
    pub fn write_string(&mut self, s: &str)
        ensures
            final(self)@ == old(self)@.with(Some(string_cell(s@))),
    {
        self.push(Some(slice_to_vec(s.as_bytes())));
    }

    /// Writes a date.
    pub fn write_date(&mut self, d: Date)
        ensures
            final(self)@ == old(self)@.with(Some(date_cell(old(self)@.format_code, d))),
    {
        let mut bytes: Vec<u8> = Vec::new();
        match self.format_code {
            FormatCode::Text => d.push_text(&mut bytes),
            FormatCode::Binary => push_i32(&mut bytes, d.pg_days),
        }
        self.push(Some(bytes));
    }

    /// Writes a timestamp.
    pub fn write_timestamp(&mut self, t: Timestamp)
        ensures
            final(self)@ == old(self)@.with(Some(timestamp_cell(old(self)@.format_code, t))),
    {
        let mut bytes: Vec<u8> = Vec::new();
        match self.format_code {
            FormatCode::Text => t.push_text(&mut bytes),
            FormatCode::Binary => push_i64(&mut bytes, t.pg_micros),
        }
        self.push(Some(bytes));
    }
}

/// The rows of one result and the description that they follow.
#[derive(Debug, PartialEq, Eq)]
pub struct DataWriter {
    row_desc: RowDescription,
    rows: Vec<DataRow>,
}

/// The mathematical content of a [`DataWriter`].
pub ghost struct DataWriterView {
    pub row_desc: RowDescriptionView,
    pub rows: Seq<Seq<Option<Seq<u8>>>>,
}

/// The cells held by a sequence of rows, one for one.
pub open spec fn rows_view(rows: Seq<DataRow>) -> Seq<Seq<Option<Seq<u8>>>> {
    Seq::new(rows.len(), |i: int| rows[i]@)
}

impl DataWriterView {
    /// Every row has one cell for each described field. A writer is made
    /// so, and stays so where rows are added as `finish_row` asks.
    pub open spec fn wf(self) -> bool {
        forall|i: int| 0 <= i < self.rows.len() ==> (#[trigger] self.rows[i]).len() == self.row_desc.fields.len()
    }
}

impl View for DataWriter {
    type V = DataWriterView;

    closed spec fn view(&self) -> DataWriterView {
        DataWriterView { row_desc: self.row_desc@, rows: rows_view(self.rows@) }
    }
}

impl DataWriter {
    /// A writer with no rows.
    pub fn new(row_desc: RowDescription) -> (w: DataWriter)
        ensures
            w@ == (DataWriterView { row_desc: row_desc@, rows: Seq::empty() }),
            w@.wf(),
    {
        let w = DataWriter { row_desc, rows: Vec::new() };
        assert(rows_view(w.rows@) =~= Seq::empty());
        w
    }

    /// Starts a row in the writer's format. The row joins the writer when
    /// it is handed to [`DataWriter::finish_row`].
    pub fn create_row(&self) -> (row: DataRowWriter)
        ensures
            row@ == (DataRowWriterView {
                format_code: self@.row_desc.format_code,
                cells: Seq::empty(),
            }),
    {
        let row = DataRowWriter { format_code: self.row_desc.format_code, cells: Vec::new() };
        assert(cells_view(row.cells@) =~= Seq::empty());
        row
    }

    /// Adds a finished row, which must hold one cell for each described
    /// field.
    pub fn finish_row(&mut self, row: DataRowWriter)
        requires
            old(self)@.wf(),
            row@.cells.len() == old(self)@.row_desc.fields.len(),
        ensures
            final(self)@ == (DataWriterView {
                row_desc: old(self)@.row_desc,
                rows: old(self)@.rows.push(row@.cells),
            }),
            final(self)@.wf(),
    {
        let ghost before = self@;
        self.rows.push(DataRow { cells: row.cells });
        assert(rows_view(self.rows@) =~= before.rows.push(row@.cells));
    }

    /// The number of rows written.
    pub fn num_rows(&self) -> (n: usize)
        ensures
            n == self@.rows.len(),
    {
        self.rows.len()
    }

    /// The description that the rows follow.
    pub fn row_desc(&self) -> (d: &RowDescription)
        ensures
            d@ == self@.row_desc,
    {
        &self.row_desc
    }

    /// Replaces the described fields. For a source that learns its columns
    /// only when it runs: it describes them before it writes the first row.
    pub fn set_fields(&mut self, fields: Vec<FieldDescription>)
        requires
            old(self)@.rows.len() == 0,
        ensures
            final(self)@ == (DataWriterView {
                row_desc: RowDescriptionView {
                    fields: fields_view(fields@),
                    format_code: old(self)@.row_desc.format_code,
                },
                rows: old(self)@.rows,
            }),
            final(self)@.wf(),
    {
        self.row_desc.fields = fields;
    }

    /// Hands out the description and the rows.
    pub fn into_parts(self) -> (parts: (RowDescription, Vec<DataRow>))
        ensures
            parts.0@ == self@.row_desc,
            rows_view(parts.1@) == self@.rows,
    {
        (self.row_desc, self.rows)
    }
}

} // verus!
