//! Reading back what was written: a message that the server can send is
//! read by a client as the same message.

use crate::backend::{
    backend_message_spec, backend_spec, cell_bytes, cells_bytes, cells_ok, data_row_body,
    described, error_body, field_bytes, field_item, field_list, fields_bytes, fields_ok,
    one_format, row_description_body, tagged_cstr, BackendMessageView,
};
use crate::protocol::{
    DataTypeOid, ErrorResponseView, FieldDescriptionView, FormatCode, ProtocolError,
    RowDescriptionView, Severity, SqlState,
};
use crate::wire::{
    count_item, cstr_bytes, cstr_ok, i16_bytes, i32_bytes, lemma_cstr_item, lemma_i16_item, lemma_i32_item, lemma_occurs_index, lemma_occurs_split,
    lemma_widths,
    occurs, value_item, value_list,
};
use vstd::prelude::*;

verus! {

/// The severity that a severity's word names is that severity.
pub proof fn lemma_severity_text(s: Severity)
    ensures
        Severity::spec_from_text(s.spec_text()) == Some(s),
        cstr_ok(s.spec_text()),
{
    assert(Severity::Error.spec_text()[0] != Severity::Fatal.spec_text()[0]);
}

/// The class that a class's code names is that class.
pub proof fn lemma_sql_state_code(s: SqlState)
    ensures
        SqlState::spec_from_code(s.spec_code()) == Some(s),
        cstr_ok(s.spec_code()),
{
    let a = SqlState::ConnectionException.spec_code();
    let b = SqlState::FeatureNotSupported.spec_code();
    let c = SqlState::DataException.spec_code();
    let d = SqlState::InvalidDatetimeFormat.spec_code();
    let e = SqlState::InvalidSqlStatementName.spec_code();
    let f = SqlState::InvalidCursorName.spec_code();
    let g = SqlState::SyntaxError.spec_code();
    let h = SqlState::ProtocolViolation.spec_code();
    assert(a[1] == '8' && b[1] == 'A' && c[1] == '2' && d[1] == '2' && e[1] == '6' && f[1] == '4'
        && g[1] == '2' && h[1] == '8');
    assert(a[2] == '0' && h[2] == 'P');
    assert(c[4] == '0' && d[4] == '7' && g[4] == '1');
    assert(c[0] == '2' && d[0] == '2' && g[0] == '4');
}

/// The type that a type's identifier names is that type, and likewise for
/// a format and its code.
pub proof fn lemma_codes(t: DataTypeOid, f: FormatCode)
    ensures
        DataTypeOid::spec_from_oid(t.spec_oid()) == Some(t),
        FormatCode::spec_from_code(f.spec_code()) == Some(f),
{
}

/// A count that was written is read back.
proof fn lemma_count_item(s: Seq<u8>, at: int, n: nat)
    requires
        n <= 0x7fff,
        occurs(s, at, i16_bytes(n as i16)),
    ensures
        count_item(s, at) == Ok::<(nat, int), ProtocolError>((n, at + 2)),
{
    lemma_widths();
    lemma_i16_item(s, at, n as i16);
}

/// A cell that was written is read back.
proof fn lemma_value_item(s: Seq<u8>, at: int, cell: Option<Seq<u8>>)
    requires
        cell matches Some(bytes) ==> bytes.len() <= 0x7fff_ffff,
        occurs(s, at, cell_bytes(cell)),
    ensures
        value_item(s, at) == Ok::<(Option<Seq<u8>>, int), ProtocolError>(
            (cell, at + cell_bytes(cell).len()),
        ),
{
    lemma_widths();
    match cell {
        None => {
            lemma_i32_item(s, at, -1i32);
        },
        Some(bytes) => {
            lemma_occurs_split(s, at, i32_bytes(bytes.len() as i32), bytes);
            lemma_i32_item(s, at, bytes.len() as i32);
        },
    }
}

/// The cells of a row that were written are read back.
proof fn lemma_value_list(s: Seq<u8>, at: int, cells: Seq<Option<Seq<u8>>>)
    requires
        cells_ok(cells),
        occurs(s, at, cells_bytes(cells)),
    ensures
        value_list(s, at, cells.len()) == Ok::<(Seq<Option<Seq<u8>>>, int), ProtocolError>(
            (cells, at + cells_bytes(cells).len()),
        ),
    decreases cells.len(),
{
    lemma_widths();
    if cells.len() > 0 {
        let init = cells.drop_last();
        let last = cells.last();
        lemma_occurs_split(s, at, cells_bytes(init), cell_bytes(last));
        assert(cells_ok(init)) by {
            assert forall|i: int| 0 <= i < init.len() implies (#[trigger] init[i] matches Some(
                bytes,
            ) ==> bytes.len() <= 0x7fff_ffff) by {
                assert(init[i] == cells[i]);
            }
        }
        lemma_value_list(s, at, init);
        assert(cells[cells.len() - 1] == last);
        lemma_value_item(s, at + cells_bytes(init).len(), last);
        assert(init.push(last) =~= cells);
        assert((cells.len() - 1) as nat == init.len());
        assert(cells_bytes(cells) == cells_bytes(init) + cell_bytes(last));
        assert(value_list(s, at, init.len()) == Ok::<(Seq<Option<Seq<u8>>>, int), ProtocolError>(
            (init, at + cells_bytes(init).len()),
        ));
    } else {
        assert(cells =~= Seq::empty());
    }
}

/// A field that was written is read back, with the format it was written
/// in.
proof fn lemma_field_item(s: Seq<u8>, at: int, f: FieldDescriptionView, format: FormatCode)
    requires
        cstr_ok(f.name),
        occurs(s, at, field_bytes(f, format)),
    ensures
        field_item(s, at) == Ok::<((FieldDescriptionView, FormatCode), int), ProtocolError>(
            ((f, format), at + field_bytes(f, format).len()),
        ),
{
    lemma_widths();
    let a = cstr_bytes(f.name);
    let b = i32_bytes(0);
    let c = i16_bytes(0);
    let d = i32_bytes(f.data_type.spec_oid());
    let e = i16_bytes(f.data_type.spec_size());
    let g = i32_bytes(-1i32);
    let h = i16_bytes(format.spec_code());
    lemma_occurs_split(s, at, a + b + c + d + e + g, h);
    lemma_occurs_split(s, at, a + b + c + d + e, g);
    lemma_occurs_split(s, at, a + b + c + d, e);
    lemma_occurs_split(s, at, a + b + c, d);
    lemma_occurs_split(s, at, a + b, c);
    lemma_occurs_split(s, at, a, b);
    lemma_cstr_item(s, at, f.name);
    let p = at + a.len();
    lemma_i32_item(s, p + 6, f.data_type.spec_oid());
    lemma_i16_item(s, p + 16, format.spec_code());
    lemma_codes(f.data_type, format);
}

/// Each field with the one format.
pub open spec fn in_format(fields: Seq<FieldDescriptionView>, format: FormatCode) -> Seq<
    (FieldDescriptionView, FormatCode),
> {
    Seq::new(fields.len(), |i: int| (fields[i], format))
}

/// The fields of a description that were written are read back.
proof fn lemma_field_list(
    s: Seq<u8>,
    at: int,
    fields: Seq<FieldDescriptionView>,
    format: FormatCode,
)
    requires
        fields_ok(fields),
        occurs(s, at, fields_bytes(fields, format)),
    ensures
        field_list(s, at, fields.len()) == Ok::<
            (Seq<(FieldDescriptionView, FormatCode)>, int),
            ProtocolError,
        >((in_format(fields, format), at + fields_bytes(fields, format).len())),
    decreases fields.len(),
{
    lemma_widths();
    if fields.len() > 0 {
        let init = fields.drop_last();
        let last = fields.last();
        lemma_occurs_split(s, at, fields_bytes(init, format), field_bytes(last, format));
        assert(fields_ok(init)) by {
            assert forall|i: int| 0 <= i < init.len() implies cstr_ok(
                #[trigger] init[i].name,
            ) by {
                assert(init[i] == fields[i]);
            }
        }
        lemma_field_list(s, at, init, format);
        assert(fields[fields.len() - 1] == last);
        lemma_field_item(s, at + fields_bytes(init, format).len(), last, format);
        assert(in_format(init, format).push((last, format)) =~= in_format(fields, format));
        assert((fields.len() - 1) as nat == init.len());
    } else {
        assert(in_format(fields, format) =~= Seq::empty());
    }
}

/// A row description that was written is read back, unless it has no
/// field and is not in text format: a description without fields says
/// nothing of its format, and is read as one in text format.
proof fn lemma_row_description(d: RowDescriptionView)
    requires
        BackendMessageView::RowDescription(d).parts_ok(),
        d.fields.len() > 0 || d.format_code == FormatCode::Text,
    ensures
        row_description_body(BackendMessageView::RowDescription(d).body()) == Ok::<
            BackendMessageView,
            ProtocolError,
        >(BackendMessageView::RowDescription(d)),
{
    lemma_widths();
    let body = BackendMessageView::RowDescription(d).body();
    let count = i16_bytes(d.fields.len() as i16);
    let list = fields_bytes(d.fields, d.format_code);
    assert(body.subrange(0, body.len() as int) =~= body);
    lemma_occurs_split(body, 0, count, list);
    lemma_count_item(body, 0, d.fields.len());
    lemma_field_list(body, 2, d.fields, d.format_code);
    let items = in_format(d.fields, d.format_code);
    assert(one_format(items));
    assert(described(items).fields =~= d.fields);
}

/// A data row that was written is read back.
proof fn lemma_data_row(cells: Seq<Option<Seq<u8>>>)
    requires
        BackendMessageView::DataRow(cells).parts_ok(),
    ensures
        data_row_body(BackendMessageView::DataRow(cells).body()) == Ok::<
            BackendMessageView,
            ProtocolError,
        >(BackendMessageView::DataRow(cells)),
{
    lemma_widths();
    let body = BackendMessageView::DataRow(cells).body();
    assert(body.subrange(0, body.len() as int) =~= body);
    lemma_occurs_split(body, 0, i16_bytes(cells.len() as i16), cells_bytes(cells));
    lemma_count_item(body, 0, cells.len());
    lemma_value_list(body, 2, cells);
}

/// A string behind its letter that was written is read back.
proof fn lemma_tagged(s: Seq<u8>, at: int, kind: u8, x: Seq<char>)
    requires
        cstr_ok(x),
        occurs(s, at, seq![kind] + cstr_bytes(x)),
    ensures
        tagged_cstr(s, at, kind) == Ok::<(Seq<char>, int), ProtocolError>(
            (x, at + 1 + cstr_bytes(x).len()),
        ),
{
    lemma_occurs_split(s, at, seq![kind], cstr_bytes(x));
    lemma_occurs_index(s, at, seq![kind], 0);
    lemma_cstr_item(s, at + 1, x);
}

/// An error that was written is read back.
proof fn lemma_error(e: ErrorResponseView)
    requires
        cstr_ok(e.message),
    ensures
        error_body(BackendMessageView::ErrorResponse(e).body()) == Ok::<
            BackendMessageView,
            ProtocolError,
        >(BackendMessageView::ErrorResponse(e)),
{
    let body = BackendMessageView::ErrorResponse(e).body();
    let s1 = seq![0x53u8];
    let a = cstr_bytes(e.severity.spec_text());
    let s2 = seq![0x43u8];
    let b = cstr_bytes(e.sql_state.spec_code());
    let s3 = seq![0x4du8];
    let c = cstr_bytes(e.message);
    let z = seq![0u8];
    lemma_severity_text(e.severity);
    lemma_sql_state_code(e.sql_state);
    assert(body.subrange(0, body.len() as int) =~= body);
    lemma_occurs_split(body, 0, s1 + a + s2 + b + s3 + c, z);
    lemma_occurs_split(body, 0, s1 + a + s2 + b + s3, c);
    lemma_occurs_split(body, 0, s1 + a + s2 + b, s3);
    lemma_occurs_split(body, 0, s1 + a + s2, b);
    lemma_occurs_split(body, 0, s1 + a, s2);
    lemma_occurs_split(body, 0, s1, a);
    let p1: int = 1 + a.len() as int;
    let p2: int = p1 + 1 + b.len() as int;
    let p3: int = p2 + 1 + c.len() as int;
    assert(occurs(body, 0, s1 + a)) by {
        assert(body.subrange(0, (s1 + a).len() as int) =~= s1 + a);
    }
    lemma_tagged(body, 0, 0x53, e.severity.spec_text());
    assert(occurs(body, p1, s2 + b)) by {
        assert(body.subrange(p1, p1 + (s2 + b).len()) =~= s2 + b) by {
            assert forall|i: int| 0 <= i < (s2 + b).len() implies body[p1 + i] == (s2 + b)[i] by {
                if i == 0 {
                    lemma_occurs_index(body, p1, s2, 0);
                } else {
                    lemma_occurs_index(body, p1 + 1, b, i - 1);
                }
            }
        }
    }
    lemma_tagged(body, p1, 0x43, e.sql_state.spec_code());
    assert(occurs(body, p2, s3 + c)) by {
        assert(body.subrange(p2, p2 + (s3 + c).len()) =~= s3 + c) by {
            assert forall|i: int| 0 <= i < (s3 + c).len() implies body[p2 + i] == (s3 + c)[i] by {
                if i == 0 {
                    lemma_occurs_index(body, p2, s3, 0);
                } else {
                    lemma_occurs_index(body, p2 + 1, c, i - 1);
                }
            }
        }
    }
    lemma_tagged(body, p2, 0x4d, e.message);
    lemma_occurs_index(body, p3, z, 0);
}

/// The whole of a sequence stands in it from the start.
proof fn lemma_occurs_whole(s: Seq<u8>)
    ensures
        occurs(s, 0, s),
{
    assert(s.subrange(0, s.len() as int) =~= s);
}

proof fn lemma_authentication_ok()
    ensures
        backend_message_spec(
            BackendMessageView::AuthenticationOk.tag(),
            BackendMessageView::AuthenticationOk.body(),
        ) == Ok::<BackendMessageView, ProtocolError>(BackendMessageView::AuthenticationOk),
{
    lemma_widths();
    let body = BackendMessageView::AuthenticationOk.body();
    lemma_occurs_whole(body);
    lemma_i32_item(body, 0, 0i32);
}

proof fn lemma_parameter_status(name: Seq<char>, value: Seq<char>)
    requires
        cstr_ok(name),
        cstr_ok(value),
    ensures
        backend_message_spec(
            BackendMessageView::ParameterStatus { name, value }.tag(),
            BackendMessageView::ParameterStatus { name, value }.body(),
        ) == Ok::<BackendMessageView, ProtocolError>(
            BackendMessageView::ParameterStatus { name, value },
        ),
{
    let body = BackendMessageView::ParameterStatus { name, value }.body();
    lemma_occurs_whole(body);
    lemma_occurs_split(body, 0, cstr_bytes(name), cstr_bytes(value));
    lemma_cstr_item(body, 0, name);
    lemma_cstr_item(body, cstr_bytes(name).len() as int, value);
}

proof fn lemma_backend_key_data(process_id: i32, secret_key: i32)
    ensures
        backend_message_spec(
            BackendMessageView::BackendKeyData { process_id, secret_key }.tag(),
            BackendMessageView::BackendKeyData { process_id, secret_key }.body(),
        ) == Ok::<BackendMessageView, ProtocolError>(
            BackendMessageView::BackendKeyData { process_id, secret_key },
        ),
{
    lemma_widths();
    let body = BackendMessageView::BackendKeyData { process_id, secret_key }.body();
    lemma_occurs_whole(body);
    lemma_occurs_split(body, 0, i32_bytes(process_id), i32_bytes(secret_key));
    lemma_i32_item(body, 0, process_id);
    lemma_i32_item(body, 4, secret_key);
}

proof fn lemma_parameter_description()
    ensures
        backend_message_spec(
            BackendMessageView::ParameterDescription.tag(),
            BackendMessageView::ParameterDescription.body(),
        ) == Ok::<BackendMessageView, ProtocolError>(BackendMessageView::ParameterDescription),
{
    lemma_widths();
    let body = BackendMessageView::ParameterDescription.body();
    lemma_occurs_whole(body);
    lemma_count_item(body, 0, 0);
}

proof fn lemma_command_complete(command_tag: Seq<char>)
    requires
        cstr_ok(command_tag),
    ensures
        backend_message_spec(
            BackendMessageView::CommandComplete { command_tag }.tag(),
            BackendMessageView::CommandComplete { command_tag }.body(),
        ) == Ok::<BackendMessageView, ProtocolError>(
            BackendMessageView::CommandComplete { command_tag },
        ),
{
    let body = BackendMessageView::CommandComplete { command_tag }.body();
    lemma_occurs_whole(body);
    lemma_cstr_item(body, 0, command_tag);
}

proof fn lemma_without_body(m: BackendMessageView)
    requires
        m is ReadyForQuery || m is ParseComplete || m is BindComplete || m is NoData || m
            is EmptyQueryResponse,
    ensures
        backend_message_spec(m.tag(), m.body()) == Ok::<BackendMessageView, ProtocolError>(m),
{
}

/// The body of a message that can be sent is read back as the message. A
/// row description without fields says nothing of its format and is read
/// as one in text format, so one in binary format is left out.
pub proof fn lemma_body_round_trip(m: BackendMessageView)
    requires
        m.parts_ok(),
        m matches BackendMessageView::RowDescription(d) ==> d.fields.len() > 0 || d.format_code
            == FormatCode::Text,
    ensures
        backend_message_spec(m.tag(), m.body()) == Ok::<BackendMessageView, ProtocolError>(m),
{
    match m {
        BackendMessageView::AuthenticationOk => {
            lemma_authentication_ok();
        },
        BackendMessageView::ParameterStatus { name, value } => {
            lemma_parameter_status(name, value);
        },
        BackendMessageView::BackendKeyData { process_id, secret_key } => {
            lemma_backend_key_data(process_id, secret_key);
        },
        BackendMessageView::ParameterDescription => {
            lemma_parameter_description();
        },
        BackendMessageView::RowDescription(d) => {
            lemma_row_description(d);
        },
        BackendMessageView::DataRow(cells) => {
            lemma_data_row(cells);
        },
        BackendMessageView::CommandComplete { command_tag } => {
            lemma_command_complete(command_tag);
        },
        BackendMessageView::ErrorResponse(e) => {
            lemma_error(e);
        },
        _ => {
            lemma_without_body(m);
        },
    }
}

/// Round-trip framing: whatever message the server can send, a client
/// that reads the bytes of it reads the same message.
///
/// One kind of message is left out. A row description carries its format
/// once for each field, so one without fields carries none and is read as
/// one in text format: the law does not speak of a row description that
/// has no field and is in binary format.
pub proof fn lemma_round_trip(m: BackendMessageView)
    requires
        m.encodable(),
        m matches BackendMessageView::RowDescription(d) ==> d.fields.len() > 0 || d.format_code
            == FormatCode::Text,
    ensures
        backend_spec(m.wire()) == Ok::<BackendMessageView, ProtocolError>(m),
{
    lemma_widths();
    let bytes = m.wire();
    let body = m.body();
    let len = (body.len() + 4) as i32;
    let head = seq![m.tag()] + i32_bytes(len);
    assert(bytes.subrange(0, bytes.len() as int) =~= bytes);
    lemma_occurs_split(bytes, 0, head, body);
    lemma_occurs_split(bytes, 0, seq![m.tag()], i32_bytes(len));
    lemma_occurs_index(bytes, 0, seq![m.tag()], 0);
    lemma_i32_item(bytes, 1, len);
    assert(bytes.subrange(5, bytes.len() as int) =~= body);
    lemma_body_round_trip(m);
}

/// A row of `n` cells, each of them NULL.
pub open spec fn nulls(n: nat) -> Seq<Option<Seq<u8>>> {
    Seq::new(n, |i: int| None::<Seq<u8>>)
}

/// The cells of a row of NULLs are the length -1, once for each column.
pub proof fn lemma_null_cells(n: nat)
    ensures
        cells_ok(nulls(n)),
        cells_bytes(nulls(n)).len() == 4 * n,
        forall|i: int|
            0 <= i < n ==> #[trigger] cells_bytes(nulls(n)).subrange(4 * i, 4 * i + 4)
                == i32_bytes(-1i32),
    decreases n,
{
    lemma_widths();
    if n > 0 {
        let row = nulls(n);
        let init = nulls((n - 1) as nat);
        lemma_null_cells((n - 1) as nat);
        assert(row.drop_last() =~= init);
        assert(row.last() == None::<Seq<u8>>);
        let all = cells_bytes(row);
        assert(all == cells_bytes(init) + i32_bytes(-1i32));
        assert forall|i: int| 0 <= i < n implies #[trigger] all.subrange(4 * i, 4 * i + 4)
            == i32_bytes(-1i32) by {
            if i < n - 1 {
                assert(all.subrange(4 * i, 4 * i + 4) =~= cells_bytes(init).subrange(
                    4 * i,
                    4 * i + 4,
                ));
            } else {
                assert(all.subrange(4 * i, 4 * i + 4) =~= i32_bytes(-1i32));
            }
        }
    }
}

/// NULL round trip: a row that consists of NULLs alone is sent with the
/// length -1 and no bytes for every column, and a client that reads it
/// reads the same NULLs.
pub proof fn lemma_null_row(n: nat)
    requires
        n <= 0x7fff,
    ensures
        BackendMessageView::DataRow(nulls(n)).encodable(),
        BackendMessageView::DataRow(nulls(n)).body() == i16_bytes(n as i16) + cells_bytes(
            nulls(n),
        ),
        cells_bytes(nulls(n)).len() == 4 * n,
        forall|i: int|
            0 <= i < n ==> #[trigger] cells_bytes(nulls(n)).subrange(4 * i, 4 * i + 4)
                == i32_bytes(-1i32),
        backend_spec(BackendMessageView::DataRow(nulls(n)).wire()) == Ok::<
            BackendMessageView,
            ProtocolError,
        >(BackendMessageView::DataRow(nulls(n))),
{
    lemma_widths();
    lemma_null_cells(n);
    lemma_round_trip(BackendMessageView::DataRow(nulls(n)));
}

} // verus!
