//! From columns to rows: the types of a columnar source mapped to
//! PostgreSQL types, and its batches written out row by row.

use crate::datetime::{Date, TimeUnit, Timestamp};
use crate::protocol::{
    fields_view, DataTypeOid, ErrorResponse, ErrorResponseView, FieldDescription,
    FieldDescriptionView, FormatCode, Severity, SqlState,
};
use crate::protocol_ext::{
    bool_cell, date_cell, float4_cell, float8_cell, int2_cell, int4_cell, int8_cell, string_cell,
    timestamp_cell, DataRowWriter, DataWriter, };
use crate::text::ten_to;
use vstd::prelude::*;
use vstd::string::StringExecFns;

verus! {

/// The type of a column of the source.
#[derive(Debug, PartialEq, Eq)]
pub enum DataType {
    Boolean,
    Int8,
    Int16,
    Int32,
    Int64,
    UInt8,
    UInt16,
    UInt32,
    UInt64,
    Float16,
    Float32,
    Float64,
    Decimal128 { precision: u8, scale: i8 },
    Utf8,
    /// Days since 1970-01-01.
    Date32,
    /// Milliseconds since 1970-01-01.
    Date64,
    /// A count of `unit`s since 1970-01-01 00:00:00. Where the type names a
    /// time zone, `zoned` holds the name under which the source prints the
    /// type.
    Timestamp { unit: TimeUnit, zoned: Option<String> },
    /// Any other type, by the name under which the source prints it.
    Other { name: String },
}

/// A single-precision number: its IEEE 754 pattern and its lexical form.
#[derive(Debug, PartialEq, Eq)]
pub struct Float4 {
    pub bits: u32,
    pub lexical: String,
}

/// A double-precision number: its IEEE 754 pattern and its lexical form.
#[derive(Debug, PartialEq, Eq)]
pub struct Float8 {
    pub bits: u64,
    pub lexical: String,
}

/// One column of a batch: its type and, row by row, its values; `None` is
/// NULL.
#[derive(Debug, PartialEq, Eq)]
pub enum Column {
    Boolean(Vec<Option<bool>>),
    Int8(Vec<Option<i8>>),
    Int16(Vec<Option<i16>>),
    Int32(Vec<Option<i32>>),
    Int64(Vec<Option<i64>>),
    UInt8(Vec<Option<u8>>),
    UInt16(Vec<Option<u16>>),
    UInt32(Vec<Option<u32>>),
    UInt64(Vec<Option<u64>>),
    Float16(Vec<Option<Float4>>),
    Float32(Vec<Option<Float4>>),
    Float64(Vec<Option<Float8>>),
    /// Decimals, each already brought to double precision.
    Decimal128 { precision: u8, scale: i8, numbers: Vec<Option<Float8>> },
    Utf8(Vec<Option<String>>),
    Date32(Vec<Option<i32>>),
    Date64(Vec<Option<i64>>),
    /// Timestamps; `zoned` is as in [`DataType::Timestamp`].
    Timestamp { unit: TimeUnit, zoned: Option<String>, values: Vec<Option<i64>> },
    /// A column of a type that cannot be written; `true` marks a NULL.
    Other { name: String, nulls: Vec<bool> },
}

/// A batch of rows, held column by column.
#[derive(Debug, PartialEq, Eq)]
pub struct RecordBatch {
    pub num_rows: usize,
    pub columns: Vec<Column>,
}

/// A named column of a schema.
#[derive(Debug, PartialEq, Eq)]
pub struct Field {
    pub name: String,
    pub data_type: DataType,
}

/// The columns of a source, in order.
#[derive(Debug, PartialEq, Eq)]
pub struct Schema {
    pub fields: Vec<Field>,
}

/// The error for a type that has no PostgreSQL counterpart here.
pub open spec fn not_implemented(name: Seq<char>) -> ErrorResponseView {
    ErrorResponseView {
        severity: Severity::Error,
        sql_state: SqlState::FeatureNotSupported,
        message: "arrow to pg conversion not implemented for "@ + name,
    }
}

/// The error for a day count that falls on no date.
pub open spec fn bad_date() -> ErrorResponseView {
    ErrorResponseView {
        severity: Severity::Error,
        sql_state: SqlState::InvalidDatetimeFormat,
        message: "unsupported date type"@,
    }
}

/// The error for a count of time that falls on no timestamp.
pub open spec fn bad_timestamp() -> ErrorResponseView {
    ErrorResponseView {
        severity: Severity::Error,
        sql_state: SqlState::InvalidDatetimeFormat,
        message: "unsupported timestamp type"@,
    }
}

/// The error for an unsigned 64-bit value above the largest signed one.
pub open spec fn out_of_range() -> ErrorResponseView {
    ErrorResponseView {
        severity: Severity::Error,
        sql_state: SqlState::DataException,
        message: "unsigned value out of range for int8"@,
    }
}

impl DataType {
    /// The PostgreSQL type that values of this type are written as, or the
    /// error for a type that has none. Signed integers keep their width, an
    /// unsigned integer takes the next wider signed type (the widest stays),
    /// half precision is written as single, decimals as double.
    pub open spec fn spec_oid(&self) -> Result<DataTypeOid, ErrorResponseView> {
        match self {
            DataType::Boolean => Ok(DataTypeOid::Bool),
            DataType::Int8 => Ok(DataTypeOid::Int2),
            DataType::Int16 => Ok(DataTypeOid::Int2),
            DataType::Int32 => Ok(DataTypeOid::Int4),
            DataType::Int64 => Ok(DataTypeOid::Int8),
            DataType::UInt8 => Ok(DataTypeOid::Int2),
            DataType::UInt16 => Ok(DataTypeOid::Int4),
            DataType::UInt32 => Ok(DataTypeOid::Int8),
            DataType::UInt64 => Ok(DataTypeOid::Int8),
            DataType::Float16 => Ok(DataTypeOid::Float4),
            DataType::Float32 => Ok(DataTypeOid::Float4),
            DataType::Float64 => Ok(DataTypeOid::Float8),
            DataType::Decimal128 { .. } => Ok(DataTypeOid::Float8),
            DataType::Utf8 => Ok(DataTypeOid::Text),
            DataType::Date32 => Ok(DataTypeOid::Date),
            DataType::Date64 => Ok(DataTypeOid::Date),
            DataType::Timestamp { zoned: None, .. } => Ok(DataTypeOid::Timestamp),
            DataType::Timestamp { zoned: Some(name), .. } => Err(not_implemented(name@)),
            DataType::Other { name } => Err(not_implemented(name@)),
        }
    }
}

/// The error for a type that has no PostgreSQL counterpart here.
fn not_implemented_error(name: &str) -> (e: ErrorResponse)
    ensures
        e@ == not_implemented(name@),
{
    let message = String::from_str("arrow to pg conversion not implemented for ").concat(name);
    ErrorResponse {
        severity: Severity::Error,
        sql_state: SqlState::FeatureNotSupported,
        message,
    }
}

/// The PostgreSQL type that values of type `ty` are written as.
pub fn data_type_to_oid(ty: &DataType) -> (r: Result<DataTypeOid, ErrorResponse>)
    ensures
        match ty.spec_oid() {
            Ok(oid) => r == Ok::<DataTypeOid, ErrorResponse>(oid),
            Err(e) => r matches Err(got) && got@ == e,
        },
{
    match ty {
        DataType::Boolean => Ok(DataTypeOid::Bool),
        DataType::Int8 => Ok(DataTypeOid::Int2),
        DataType::Int16 => Ok(DataTypeOid::Int2),
        DataType::Int32 => Ok(DataTypeOid::Int4),
        DataType::Int64 => Ok(DataTypeOid::Int8),
        DataType::UInt8 => Ok(DataTypeOid::Int2),
        DataType::UInt16 => Ok(DataTypeOid::Int4),
        DataType::UInt32 => Ok(DataTypeOid::Int8),
        DataType::UInt64 => Ok(DataTypeOid::Int8),
        DataType::Float16 => Ok(DataTypeOid::Float4),
        DataType::Float32 => Ok(DataTypeOid::Float4),
        DataType::Float64 => Ok(DataTypeOid::Float8),
        DataType::Decimal128 { .. } => Ok(DataTypeOid::Float8),
        DataType::Utf8 => Ok(DataTypeOid::Text),
        DataType::Date32 => Ok(DataTypeOid::Date),
        DataType::Date64 => Ok(DataTypeOid::Date),
        DataType::Timestamp { zoned: None, .. } => Ok(DataTypeOid::Timestamp),
        DataType::Timestamp { zoned: Some(name), .. } => Err(not_implemented_error(name.as_str())),
        DataType::Other { name } => Err(not_implemented_error(name.as_str())),
    }
}

impl Schema {
    /// Whether the first `n` fields all have a PostgreSQL type.
    pub open spec fn describable(&self, n: int) -> bool {
        forall|i: int| 0 <= i < n ==> (#[trigger] self.fields@[i]).data_type.spec_oid() is Ok
    }

    /// The description of field `i`, which has a PostgreSQL type.
    pub open spec fn description(&self, i: int) -> FieldDescriptionView {
        FieldDescriptionView {
            name: self.fields@[i].name@,
            data_type: self.fields@[i].data_type.spec_oid()->Ok_0,
        }
    }

    /// The descriptions of all fields.
    pub open spec fn descriptions(&self) -> Seq<FieldDescriptionView> {
        Seq::new(self.fields@.len(), |i: int| self.description(i))
    }
}

/// The fields of a schema as a client is told of them: each with its name
/// and PostgreSQL type; for the first field that has none, its error.
pub fn schema_to_field_desc(schema: &Schema) -> (r: Result<Vec<FieldDescription>, ErrorResponse>)
    ensures
        match r {
            Ok(fields) => schema.describable(schema.fields@.len() as int) && fields_view(fields@)
                == schema.descriptions(),
            Err(e) => exists|i: int|
                0 <= i < schema.fields@.len() && schema.describable(i) && (
                #[trigger] schema.fields@[i]).data_type.spec_oid() == Err::<
                    DataTypeOid,
                    ErrorResponseView,
                >(e@),
        },
{
    let mut out: Vec<FieldDescription> = Vec::new();
    let mut i: usize = 0;
    while i < schema.fields.len()
        invariant
            i <= schema.fields@.len(),
            schema.describable(i as int),
            out@.len() == i,
            forall|k: int| 0 <= k < i ==> (#[trigger] out@[k])@ == schema.description(k),
        decreases schema.fields@.len() - i,
    {
        let f = &schema.fields[i];
        match data_type_to_oid(&f.data_type) {
            Ok(data_type) => {
                out.push(FieldDescription { name: f.name.clone(), data_type });
            },
            Err(e) => {
                return Err(e);
            },
        }
        i += 1;
    }
    Ok(out)
}

/// What a value of a column comes to: the cell `v` gives where there is a
/// value, the NULL cell where there is none.
pub open spec fn cell_of<T>(
    value: Option<T>,
    cell: spec_fn(T) -> Result<Seq<u8>, ErrorResponseView>,
) -> Result<Option<Seq<u8>>, ErrorResponseView> {
    match value {
        None => Ok(None),
        Some(v) => match cell(v) {
            Ok(bytes) => Ok(Some(bytes)),
            Err(e) => Err(e),
        },
    }
}

/// The cell of a date, or the error for a day that falls on no date.
pub open spec fn date_result(format: FormatCode, date: Option<Date>) -> Result<
    Seq<u8>,
    ErrorResponseView,
> {
    match date {
        Some(d) => Ok(date_cell(format, d)),
        None => Err(bad_date()),
    }
}

/// The cell of a timestamp, or the error for a count that falls on none.
pub open spec fn timestamp_result(format: FormatCode, t: Option<Timestamp>) -> Result<
    Seq<u8>,
    ErrorResponseView,
> {
    match t {
        Some(t) => Ok(timestamp_cell(format, t)),
        None => Err(bad_timestamp()),
    }
}

impl Column {
    /// The number of rows of the column.
    pub open spec fn spec_len(&self) -> nat {
        match self {
            Column::Boolean(v) => v@.len(),
            Column::Int8(v) => v@.len(),
            Column::Int16(v) => v@.len(),
            Column::Int32(v) => v@.len(),
            Column::Int64(v) => v@.len(),
            Column::UInt8(v) => v@.len(),
            Column::UInt16(v) => v@.len(),
            Column::UInt32(v) => v@.len(),
            Column::UInt64(v) => v@.len(),
            Column::Float16(v) => v@.len(),
            Column::Float32(v) => v@.len(),
            Column::Float64(v) => v@.len(),
            Column::Decimal128 { numbers, .. } => numbers@.len(),
            Column::Utf8(v) => v@.len(),
            Column::Date32(v) => v@.len(),
            Column::Date64(v) => v@.len(),
            Column::Timestamp { values, .. } => values@.len(),
            Column::Other { nulls, .. } => nulls@.len(),
        }
    }

    /// The cell that row `i` of the column is written as in `format`, or
    /// the error for a value that cannot be written.
    ///
    /// NULL is written as NULL whatever the type. Signed integers keep
    /// their width; an unsigned integer is written in the next wider signed
    /// type, and a 64-bit one above the largest signed value is an error.
    /// A day or time count is written as the date or timestamp it falls
    /// on, and is an error where it falls on none. A value of a type that
    /// has no PostgreSQL counterpart is an error.
    pub open spec fn cell(&self, i: int, format: FormatCode) -> Result<
        Option<Seq<u8>>,
        ErrorResponseView,
    > {
        match self {
            Column::Boolean(v) => cell_of(v@[i], |x: bool| Ok(bool_cell(format, x))),
            Column::Int8(v) => cell_of(v@[i], |x: i8| Ok(int2_cell(format, x as i16))),
            Column::Int16(v) => cell_of(v@[i], |x: i16| Ok(int2_cell(format, x))),
            Column::Int32(v) => cell_of(v@[i], |x: i32| Ok(int4_cell(format, x))),
            Column::Int64(v) => cell_of(v@[i], |x: i64| Ok(int8_cell(format, x))),
            Column::UInt8(v) => cell_of(v@[i], |x: u8| Ok(int2_cell(format, x as i16))),
            Column::UInt16(v) => cell_of(v@[i], |x: u16| Ok(int4_cell(format, x as i32))),
            Column::UInt32(v) => cell_of(v@[i], |x: u32| Ok(int8_cell(format, x as i64))),
            Column::UInt64(v) => cell_of(
                v@[i],
                |x: u64|
                    if x <= i64::MAX {
                        Ok(int8_cell(format, x as i64))
                    } else {
                        Err(out_of_range())
                    },
            ),
            Column::Float16(v) => cell_of(
                v@[i],
                |x: Float4| Ok(float4_cell(format, x.bits, x.lexical@)),
            ),
            Column::Float32(v) => cell_of(
                v@[i],
                |x: Float4| Ok(float4_cell(format, x.bits, x.lexical@)),
            ),
            Column::Float64(v) => cell_of(
                v@[i],
                |x: Float8| Ok(float8_cell(format, x.bits, x.lexical@)),
            ),
            Column::Decimal128 { numbers, .. } => cell_of(
                numbers@[i],
                |x: Float8| Ok(float8_cell(format, x.bits, x.lexical@)),
            ),
            Column::Utf8(v) => cell_of(v@[i], |x: String| Ok(string_cell(x@))),
            Column::Date32(v) => cell_of(
                v@[i],
                |x: i32| date_result(format, Date::spec_from_epoch_days(x)),
            ),
            Column::Date64(v) => cell_of(
                v@[i],
                |x: i64| date_result(format, Date::spec_from_epoch_millis(x)),
            ),
            Column::Timestamp { unit, zoned, values } => cell_of(
                values@[i],
                |x: i64|
                    match zoned {
                        None => timestamp_result(format, Timestamp::spec_from_epoch(x, *unit)),
                        Some(name) => Err(not_implemented(name@)),
                    },
            ),
            Column::Other { name, nulls } => if nulls@[i] {
                Ok(None)
            } else {
                Err(not_implemented(name@))
            },
        }
    }

    /// The number of rows of the column.
    pub fn len(&self) -> (n: usize)
        ensures
            n == self.spec_len(),
    {
        match self {
            Column::Boolean(v) => v.len(),
            Column::Int8(v) => v.len(),
            Column::Int16(v) => v.len(),
            Column::Int32(v) => v.len(),
            Column::Int64(v) => v.len(),
            Column::UInt8(v) => v.len(),
            Column::UInt16(v) => v.len(),
            Column::UInt32(v) => v.len(),
            Column::UInt64(v) => v.len(),
            Column::Float16(v) => v.len(),
            Column::Float32(v) => v.len(),
            Column::Float64(v) => v.len(),
            Column::Decimal128 { numbers, .. } => numbers.len(),
            Column::Utf8(v) => v.len(),
            Column::Date32(v) => v.len(),
            Column::Date64(v) => v.len(),
            Column::Timestamp { values, .. } => values.len(),
            Column::Other { nulls, .. } => nulls.len(),
        }
    }

    /// Writes row `i` of the column to `row`. Nothing is written where the
    /// value cannot be.
    pub fn write_cell(&self, i: usize, row: &mut DataRowWriter) -> (r: Result<(), ErrorResponse>)
        requires
            i < self.spec_len(),
        ensures
            match self.cell(i as int, old(row)@.format_code) {
                Ok(cell) => r is Ok && final(row)@ == old(row)@.with(cell),
                Err(e) => r matches Err(got) && got@ == e && final(row)@ == old(row)@,
            },
    {
        match self {
            Column::Boolean(v) => match &v[i] {
                None => row.write_null(),
                Some(x) => row.write_bool(*x),
            },
            Column::Int8(v) => match &v[i] {
                None => row.write_null(),
                Some(x) => row.write_int2(*x as i16),
            },
            Column::Int16(v) => match &v[i] {
                None => row.write_null(),
                Some(x) => row.write_int2(*x),
            },
            Column::Int32(v) => match &v[i] {
                None => row.write_null(),
                Some(x) => row.write_int4(*x),
            },
            Column::Int64(v) => match &v[i] {
                None => row.write_null(),
                Some(x) => row.write_int8(*x),
            },
            Column::UInt8(v) => match &v[i] {
                None => row.write_null(),
                Some(x) => row.write_int2(*x as i16),
            },
            Column::UInt16(v) => match &v[i] {
                None => row.write_null(),
                Some(x) => row.write_int4(*x as i32),
            },
            Column::UInt32(v) => match &v[i] {
                None => row.write_null(),
                Some(x) => row.write_int8(*x as i64),
            },
            Column::UInt64(v) => match &v[i] {
                None => row.write_null(),
                Some(x) => {
                    if *x > 0x7fff_ffff_ffff_ffff {
                        return Err(
                            ErrorResponse::error(
                                SqlState::DataException,
                                "unsigned value out of range for int8",
                            ),
                        );
                    }
                    row.write_int8(*x as i64)
                },
            },
            Column::Float16(v) => match &v[i] {
                None => row.write_null(),
                Some(x) => row.write_float4(x.bits, x.lexical.as_str()),
            },
            Column::Float32(v) => match &v[i] {
                None => row.write_null(),
                Some(x) => row.write_float4(x.bits, x.lexical.as_str()),
            },
            Column::Float64(v) => match &v[i] {
                None => row.write_null(),
                Some(x) => row.write_float8(x.bits, x.lexical.as_str()),
            },
            Column::Decimal128 { numbers, .. } => match &numbers[i] {
                None => row.write_null(),
                Some(x) => row.write_float8(x.bits, x.lexical.as_str()),
            },
            Column::Utf8(v) => match &v[i] {
                None => row.write_null(),
                Some(x) => row.write_string(x.as_str()),
            },
            Column::Date32(v) => match &v[i] {
                None => row.write_null(),
                Some(x) => match Date::from_epoch_days(*x) {
                    Some(d) => row.write_date(d),
                    None => {
                        return Err(
                            ErrorResponse::error(
                                SqlState::InvalidDatetimeFormat,
                                "unsupported date type",
                            ),
                        );
                    },
                },
            },
            Column::Date64(v) => match &v[i] {
                None => row.write_null(),
                Some(x) => match Date::from_epoch_millis(*x) {
                    Some(d) => row.write_date(d),
                    None => {
                        return Err(
                            ErrorResponse::error(
                                SqlState::InvalidDatetimeFormat,
                                "unsupported date type",
                            ),
                        );
                    },
                },
            },
            Column::Timestamp { unit, zoned, values } => match &values[i] {
                None => row.write_null(),
                Some(x) => match zoned {
                    Some(name) => {
                        return Err(not_implemented_error(name.as_str()));
                    },
                    None => match Timestamp::from_epoch(*x, *unit) {
                        Some(t) => row.write_timestamp(t),
                        None => {
                            return Err(
                                ErrorResponse::error(
                                    SqlState::InvalidDatetimeFormat,
                                    "unsupported timestamp type",
                                ),
                            );
                        },
                    },
                },
            },
            Column::Other { name, nulls } => {
                if nulls[i] {
                    row.write_null()
                } else {
                    return Err(not_implemented_error(name.as_str()));
                }
            },
        }
        Ok(())
    }
}

impl RecordBatch {
    /// Every column has a value, or NULL, for every row.
    pub open spec fn wf(&self) -> bool {
        forall|c: int|
            0 <= c < self.columns@.len() ==> (#[trigger] self.columns@[c]).spec_len()
                == self.num_rows
    }

    /// Whether every column has a value, or NULL, for every row.
    pub fn is_well_formed(&self) -> (b: bool)
        ensures
            b == self.wf(),
    {
        let mut c: usize = 0;
        while c < self.columns.len()
            invariant
                c <= self.columns@.len(),
                forall|k: int|
                    0 <= k < c ==> (#[trigger] self.columns@[k]).spec_len() == self.num_rows,
            decreases self.columns@.len() - c,
        {
            if self.columns[c].len() != self.num_rows {
                return false;
            }
            c += 1;
        }
        true
    }

    /// Whether the first `n` cells of row `r` can be written.
    pub open spec fn cells_writable(&self, r: int, n: int, format: FormatCode) -> bool {
        forall|c: int| 0 <= c < n ==> (#[trigger] self.columns@[c]).cell(r, format) is Ok
    }

    /// The first `n` cells of row `r`, all of which can be written.
    pub open spec fn cells(&self, r: int, n: int, format: FormatCode) -> Seq<Option<Seq<u8>>> {
        Seq::new(n as nat, |c: int| self.columns@[c].cell(r, format)->Ok_0)
    }

    /// Whether the first `n` rows can be written.
    pub open spec fn rows_writable(&self, n: int, format: FormatCode) -> bool {
        forall|r: int|
            0 <= r < n ==> #[trigger] self.cells_writable(r, self.columns@.len() as int, format)
    }

    /// The first `n` rows, all of which can be written.
    pub open spec fn rows(&self, n: int, format: FormatCode) -> Seq<Seq<Option<Seq<u8>>>> {
        Seq::new(n as nat, |r: int| self.cells(r, self.columns@.len() as int, format))
    }

    /// Whether the cell in row `r` and column `c` is the first, going row
    /// by row, that cannot be written, and `e` is why.
    pub open spec fn first_failure(&self, r: int, c: int, format: FormatCode, e: ErrorResponseView) -> bool {
        &&& 0 <= r < self.num_rows
        &&& 0 <= c < self.columns@.len()
        &&& self.rows_writable(r, format)
        &&& self.cells_writable(r, c, format)
        &&& self.columns@[c].cell(r, format) == Err::<Option<Seq<u8>>, ErrorResponseView>(e)
    }
}

/// Writes the rows of a batch into a writer, in the writer's format.
///
/// The writer gains every row of the batch, in order. Where a value cannot
/// be written, it gains the rows before that value's row and the error of
/// the first such value is returned.
pub fn record_batch_to_rows(arrow_batch: &RecordBatch, pg_batch: &mut DataWriter) -> (r: Result<
    (),
    ErrorResponse,
>)
    requires
        arrow_batch.wf(),
        old(pg_batch)@.wf(),
        arrow_batch.columns@.len() == old(pg_batch)@.row_desc.fields.len(),
    ensures
        final(pg_batch)@.wf(),
        final(pg_batch)@.row_desc == old(pg_batch)@.row_desc,
        r is Ok <==> arrow_batch.rows_writable(
            arrow_batch.num_rows as int,
            old(pg_batch)@.row_desc.format_code,
        ),
        match r {
            Ok(_) => {
                &&& arrow_batch.rows_writable(
                    arrow_batch.num_rows as int,
                    old(pg_batch)@.row_desc.format_code,
                )
                &&& final(pg_batch)@.rows == old(pg_batch)@.rows + arrow_batch.rows(
                    arrow_batch.num_rows as int,
                    old(pg_batch)@.row_desc.format_code,
                )
            },
            Err(e) => exists|row: int, col: int|
                {
                    &&& #[trigger] arrow_batch.first_failure(
                        row,
                        col,
                        old(pg_batch)@.row_desc.format_code,
                        e@,
                    )
                    &&& final(pg_batch)@.rows == old(pg_batch)@.rows + arrow_batch.rows(
                        row,
                        old(pg_batch)@.row_desc.format_code,
                    )
                },
        },
{
    let ghost format = pg_batch@.row_desc.format_code;
    let ghost before = pg_batch@.rows;
    let num_cols = arrow_batch.columns.len();
    let mut row_idx: usize = 0;
    while row_idx < arrow_batch.num_rows
        invariant
            row_idx <= arrow_batch.num_rows,
            num_cols == arrow_batch.columns@.len(),
            num_cols == pg_batch@.row_desc.fields.len(),
            before == old(pg_batch)@.rows,
            arrow_batch.wf(),
            pg_batch@.wf(),
            pg_batch@.row_desc == old(pg_batch)@.row_desc,
            format == pg_batch@.row_desc.format_code,
            arrow_batch.rows_writable(row_idx as int, format),
            pg_batch@.rows == before + arrow_batch.rows(row_idx as int, format),
        decreases arrow_batch.num_rows - row_idx,
    {
        let mut row = pg_batch.create_row();
        let mut col_idx: usize = 0;
        while col_idx < num_cols
            invariant
                col_idx <= num_cols,
                row_idx < arrow_batch.num_rows,
                num_cols == arrow_batch.columns@.len(),
                num_cols == pg_batch@.row_desc.fields.len(),
                before == old(pg_batch)@.rows,
                arrow_batch.wf(),
                pg_batch@.wf(),
                pg_batch@.row_desc == old(pg_batch)@.row_desc,
                format == pg_batch@.row_desc.format_code,
                arrow_batch.rows_writable(row_idx as int, format),
                pg_batch@.rows == before + arrow_batch.rows(row_idx as int, format),
                row@.format_code == format,
                arrow_batch.cells_writable(row_idx as int, col_idx as int, format),
                row@.cells == arrow_batch.cells(row_idx as int, col_idx as int, format),
            decreases num_cols - col_idx,
        {
            let col = &arrow_batch.columns[col_idx];
            match col.write_cell(row_idx, &mut row) {
                Err(e) => {
                    assert(arrow_batch.first_failure(row_idx as int, col_idx as int, format, e@));
                    assert(!arrow_batch.cells_writable(row_idx as int, num_cols as int, format));
                    return Err(e);
                },
                Ok(_) => {
                },
            }
            col_idx += 1;
        }
        pg_batch.finish_row(row);
        row_idx += 1;
    }
    Ok(())
}

/// A decimal split at its point: `whole` units and `rest` of a unit, where
/// a unit is ten to the power of the scale.
#[derive(Clone, Copy, Debug, PartialEq, Eq, Structural)]
pub struct DecimalParts {
    pub whole: i128,
    pub rest: i128,
    pub unit: i128,
}

/// The error for a decimal whose scale no decimal of 128 bits can have.
pub open spec fn bad_scale() -> ErrorResponseView {
    ErrorResponseView {
        severity: Severity::Error,
        sql_state: SqlState::DataException,
        message: "decimal scale out of range"@,
    }
}

/// The quotient of a division that rounds toward zero.
pub open spec fn truncated_quotient(value: int, unit: int) -> int {
    if value >= 0 {
        value / unit
    } else {
        -((-value) / unit)
    }
}

/// The parts of the decimal with digits `value` and `scale` digits behind
/// its point: the whole part is the quotient by ten to the power of the
/// scale, rounded toward zero, and the rest is what the whole part leaves.
/// A scale below 0 or above 38, which is more digits than a decimal of 128
/// bits has, is a data exception.
pub open spec fn decimal128_parts_spec(value: i128, scale: i8) -> Result<
    DecimalParts,
    ErrorResponseView,
> {
    if scale < 0 || scale > 38 {
        Err(bad_scale())
    } else {
        let unit = ten_to(scale as nat) as int;
        let whole = truncated_quotient(value as int, unit);
        Ok(
            DecimalParts {
                whole: whole as i128,
                rest: (value - whole * unit) as i128,
                unit: unit as i128,
            },
        )
    }
}

/// Ten to a power grows with the power.
proof fn lemma_ten_to_grows(a: nat, b: nat)
    requires
        a <= b,
    ensures
        1 <= ten_to(a) <= ten_to(b),
    decreases b,
{
    if a < b {
        lemma_ten_to_grows(a, (b - 1) as nat);
    } else if a > 0 {
        lemma_ten_to_grows((a - 1) as nat, (b - 1) as nat);
    }
}

/// Ten to the power of `scale`, for a scale of at most 38.
fn power_of_ten(scale: u8) -> (unit: u128)
    requires
        scale <= 38,
    ensures
        unit == ten_to(scale as nat),
        1 <= unit <= 100_000_000_000_000_000_000_000_000_000_000_000_000,
{
    proof {
        assert(ten_to(38) == 100_000_000_000_000_000_000_000_000_000_000_000_000) by {
            reveal_with_fuel(ten_to, 39);
        }
        lemma_ten_to_grows(scale as nat, 38);
    }
    let mut unit: u128 = 1;
    let mut i: u8 = 0;
    while i < scale
        invariant
            i <= scale <= 38,
            unit == ten_to(i as nat),
            ten_to(38) == 100_000_000_000_000_000_000_000_000_000_000_000_000,
        decreases scale - i,
    {
        proof {
            lemma_ten_to_grows((i + 1) as nat, 38);
        }
        unit = unit * 10;
        i += 1;
    }
    unit
}

/// A number is its quotient times the divisor and its remainder, which is
/// less than the divisor; the quotient is no greater than the number.
proof fn lemma_split(v: int, unit: int)
    requires
        v >= 0,
        unit >= 1,
    ensures
        v == (v / unit) * unit + v % unit,
        -(v) == (-(v / unit)) * unit - v % unit,
        0 <= v % unit < unit,
        0 <= v / unit <= v,
{
    vstd::arithmetic::div_mod::lemma_fundamental_div_mod(v, unit);
    let q = v / unit;
    let m = v % unit;
    assert(q * unit == unit * q) by (nonlinear_arith);
    assert((-q) * unit == -(unit * q)) by (nonlinear_arith);
    assert(0 <= q <= v) by (nonlinear_arith)
        requires
            v == unit * q + m,
            unit >= 1,
            0 <= m < unit,
            v >= 0,
    ;
}

/// Splits a decimal at its point.
pub fn decimal128_parts(value: i128, scale: i8) -> (r: Result<DecimalParts, ErrorResponse>)
    ensures
        match decimal128_parts_spec(value, scale) {
            Ok(parts) => r == Ok::<DecimalParts, ErrorResponse>(parts),
            Err(e) => r matches Err(got) && got@ == e,
        },
        r matches Ok(p) ==> value == p.whole * p.unit + p.rest && -p.unit < p.rest < p.unit && (
        value >= 0 ==> p.rest >= 0) && (value <= 0 ==> p.rest <= 0),
{
    if scale < 0 || scale > 38 {
        return Err(ErrorResponse::error(SqlState::DataException, "decimal scale out of range"));
    }
    let unit = power_of_ten(scale as u8);
    if value >= 0 {
        let v = value as u128;
        let q: u128 = v / unit;
        let m: u128 = v % unit;
        proof {
            lemma_split(v as int, unit as int);
        }
        Ok(DecimalParts { whole: q as i128, rest: m as i128, unit: unit as i128 })
    } else {
        let v: u128 = ((-(value + 1)) as u128) + 1;
        let q: u128 = v / unit;
        let m: u128 = v % unit;
        proof {
            lemma_split(v as int, unit as int);
        }
        let whole: i128 = if q > 0x7fff_ffff_ffff_ffff_ffff_ffff_ffff_ffff {
            i128::MIN
        } else {
            -(q as i128)
        };
        Ok(DecimalParts { whole, rest: -(m as i128), unit: unit as i128 })
    }
}

} // verus!
