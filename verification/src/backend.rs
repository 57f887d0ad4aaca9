//! The messages that the server sends, and their layout on the wire.
//!
//! A message is one tag byte, a four-byte length that counts itself and the
//! body, and the body.

use crate::protocol::{
    cells_view, fields_view, DataRow, DataTypeOid, ErrorResponse, ErrorResponseView,
    FieldDescription, FieldDescriptionView, FormatCode, ProtocolError, RowDescription,
    RowDescriptionView, Severity, SqlState,
};
use crate::wire::{
    at_end, count_item, cstr_at, cstr_bytes, cstr_ok, i16_at, i16_bytes, i32_at, i32_bytes,
    i32_item, lemma_cstr_at_advances, push_cstr, push_i16, push_i32, read_cstr, read_i16,
    read_i32, str_is_cstr_ok, take_count, take_i32, take_value_list, value_list, };
use vstd::slice::slice_subrange;
use vstd::prelude::*;

verus! {

/// A message from the server to the client.
#[derive(Debug, PartialEq, Eq)]
pub enum BackendMessage {
    AuthenticationOk,
    ParameterStatus { name: String, value: String },
    BackendKeyData { process_id: i32, secret_key: i32 },
    ReadyForQuery,
    ParseComplete,
    BindComplete,
    NoData,
    ParameterDescription,
    RowDescription(RowDescription),
    DataRow(DataRow),
    CommandComplete { command_tag: String },
    EmptyQueryResponse,
    ErrorResponse(ErrorResponse),
}

/// The mathematical content of a [`BackendMessage`].
pub ghost enum BackendMessageView {
    AuthenticationOk,
    ParameterStatus { name: Seq<char>, value: Seq<char> },
    BackendKeyData { process_id: i32, secret_key: i32 },
    ReadyForQuery,
    ParseComplete,
    BindComplete,
    NoData,
    ParameterDescription,
    RowDescription(RowDescriptionView),
    DataRow(Seq<Option<Seq<u8>>>),
    CommandComplete { command_tag: Seq<char> },
    EmptyQueryResponse,
    ErrorResponse(ErrorResponseView),
}

impl View for BackendMessage {
    type V = BackendMessageView;

    open spec fn view(&self) -> BackendMessageView {
        match self {
            BackendMessage::AuthenticationOk => BackendMessageView::AuthenticationOk,
            BackendMessage::ParameterStatus { name, value } => BackendMessageView::ParameterStatus {
                name: name@,
                value: value@,
            },
            BackendMessage::BackendKeyData {
                process_id,
                secret_key,
            } => BackendMessageView::BackendKeyData {
                process_id: *process_id,
                secret_key: *secret_key,
            },
            BackendMessage::ReadyForQuery => BackendMessageView::ReadyForQuery,
            BackendMessage::ParseComplete => BackendMessageView::ParseComplete,
            BackendMessage::BindComplete => BackendMessageView::BindComplete,
            BackendMessage::NoData => BackendMessageView::NoData,
            BackendMessage::ParameterDescription => BackendMessageView::ParameterDescription,
            BackendMessage::RowDescription(d) => BackendMessageView::RowDescription(d@),
            BackendMessage::DataRow(r) => BackendMessageView::DataRow(r@),
            BackendMessage::CommandComplete {
                command_tag,
            } => BackendMessageView::CommandComplete { command_tag: command_tag@ },
            BackendMessage::EmptyQueryResponse => BackendMessageView::EmptyQueryResponse,
            BackendMessage::ErrorResponse(e) => BackendMessageView::ErrorResponse(e@),
        }
    }
}

/// The largest body that a length field can announce.
pub open spec fn max_body_len() -> int {
    0x7fff_ffff - 4
}

/// The largest count that a message can announce.
pub open spec fn max_count() -> int {
    0x7fff
}

/// One field inside a row description: its name, no table and no column
/// number, the type with its size, no type modifier, and the format.
pub open spec fn field_bytes(f: FieldDescriptionView, format: FormatCode) -> Seq<u8> {
    cstr_bytes(f.name) + i32_bytes(0) + i16_bytes(0) + i32_bytes(f.data_type.spec_oid())
        + i16_bytes(f.data_type.spec_size()) + i32_bytes(-1i32) + i16_bytes(format.spec_code())
}

/// The fields of a row description, one after the other.
pub open spec fn fields_bytes(fields: Seq<FieldDescriptionView>, format: FormatCode) -> Seq<u8>
    decreases fields.len(),
{
    if fields.len() == 0 {
        Seq::<u8>::empty()
    } else {
        fields_bytes(fields.drop_last(), format) + field_bytes(fields.last(), format)
    }
}

/// Whether every field has a name that can be sent.
pub open spec fn fields_ok(fields: Seq<FieldDescriptionView>) -> bool {
    forall|i: int| 0 <= i < fields.len() ==> cstr_ok(#[trigger] fields[i].name)
}

/// One cell of a data row: its length and bytes, or the length -1 and no
/// bytes for NULL.
pub open spec fn cell_bytes(cell: Option<Seq<u8>>) -> Seq<u8> {
    match cell {
        None => i32_bytes(-1i32),
        Some(bytes) => i32_bytes(bytes.len() as i32) + bytes,
    }
}

/// The cells of a data row, one after the other.
pub open spec fn cells_bytes(cells: Seq<Option<Seq<u8>>>) -> Seq<u8>
    decreases cells.len(),
{
    if cells.len() == 0 {
        Seq::<u8>::empty()
    } else {
        cells_bytes(cells.drop_last()) + cell_bytes(cells.last())
    }
}

/// Whether the length of every cell fits its length field.
pub open spec fn cells_ok(cells: Seq<Option<Seq<u8>>>) -> bool {
    forall|i: int|
        0 <= i < cells.len() ==> (#[trigger] cells[i] matches Some(bytes) ==> bytes.len()
            <= 0x7fff_ffff)
}

impl BackendMessageView {
    /// The byte that announces the kind of the message.
    pub open spec fn tag(self) -> u8 {
        match self {
            BackendMessageView::AuthenticationOk => 0x52,
            BackendMessageView::ParameterStatus { .. } => 0x53,
            BackendMessageView::BackendKeyData { .. } => 0x4b,
            BackendMessageView::ReadyForQuery => 0x5a,
            BackendMessageView::ParseComplete => 0x31,
            BackendMessageView::BindComplete => 0x32,
            BackendMessageView::NoData => 0x6e,
            BackendMessageView::ParameterDescription => 0x74,
            BackendMessageView::RowDescription(_) => 0x54,
            BackendMessageView::DataRow(_) => 0x44,
            BackendMessageView::CommandComplete { .. } => 0x43,
            BackendMessageView::EmptyQueryResponse => 0x49,
            BackendMessageView::ErrorResponse(_) => 0x45,
        }
    }

    /// What follows the length field.
    pub open spec fn body(self) -> Seq<u8> {
        match self {
            BackendMessageView::AuthenticationOk => i32_bytes(0),
            BackendMessageView::ParameterStatus { name, value } => cstr_bytes(name) + cstr_bytes(
                value,
            ),
            BackendMessageView::BackendKeyData { process_id, secret_key } => i32_bytes(process_id)
                + i32_bytes(secret_key),
            BackendMessageView::ReadyForQuery => seq![0x49u8],
            BackendMessageView::ParseComplete => Seq::<u8>::empty(),
            BackendMessageView::BindComplete => Seq::<u8>::empty(),
            BackendMessageView::NoData => Seq::<u8>::empty(),
            BackendMessageView::ParameterDescription => i16_bytes(0),
            BackendMessageView::RowDescription(d) => i16_bytes(d.fields.len() as i16)
                + fields_bytes(d.fields, d.format_code),
            BackendMessageView::DataRow(cells) => i16_bytes(cells.len() as i16) + cells_bytes(
                cells,
            ),
            BackendMessageView::CommandComplete { command_tag } => cstr_bytes(command_tag),
            BackendMessageView::EmptyQueryResponse => Seq::<u8>::empty(),
            BackendMessageView::ErrorResponse(e) => seq![0x53u8] + cstr_bytes(
                e.severity.spec_text(),
            ) + seq![0x43u8] + cstr_bytes(e.sql_state.spec_code()) + seq![0x4du8] + cstr_bytes(
                e.message,
            ) + seq![0u8],
        }
    }

    /// Whether the parts of the message fit the fields that carry them: no
    /// string holds a NUL, no count exceeds sixteen bits, no cell exceeds
    /// its length field.
    pub open spec fn parts_ok(self) -> bool {
        match self {
            BackendMessageView::ParameterStatus { name, value } => cstr_ok(name) && cstr_ok(value),
            BackendMessageView::RowDescription(d) => d.fields.len() <= max_count() && fields_ok(
                d.fields,
            ),
            BackendMessageView::DataRow(cells) => cells.len() <= max_count() && cells_ok(cells),
            BackendMessageView::CommandComplete { command_tag } => cstr_ok(command_tag),
            BackendMessageView::ErrorResponse(e) => cstr_ok(e.message),
            _ => true,
        }
    }

    /// Whether the message can be sent: its parts fit, and so does its
    /// length.
    pub open spec fn encodable(self) -> bool {
        self.parts_ok() && self.body().len() <= max_body_len()
    }

    /// The message on the wire.
    pub open spec fn wire(self) -> Seq<u8> {
        seq![self.tag()] + i32_bytes((self.body().len() + 4) as i32) + self.body()
    }
}

/// Appends the fields of a row description to `out`; `false` where a name
/// cannot be sent.
fn push_fields(out: &mut Vec<u8>, fields: &Vec<FieldDescription>, format: FormatCode) -> (ok: bool)
    ensures
        final(out)@ == old(out)@ + fields_bytes(fields_view(fields@), format),
        ok == fields_ok(fields_view(fields@)),
{
    let ghost all = fields_view(fields@);
    let mut ok = true;
    let mut i: usize = 0;
    while i < fields.len()
        invariant
            i <= fields@.len(),
            all == fields_view(fields@),
            out@ == old(out)@ + fields_bytes(all.take(i as int), format),
            ok == fields_ok(all.take(i as int)),
        decreases fields@.len() - i,
    {
        let f = &fields[i];
        let ghost before = out@;
        if !str_is_cstr_ok(f.name.as_str()) {
            ok = false;
        }
        push_cstr(out, f.name.as_str());
        push_i32(out, 0);
        push_i16(out, 0);
        push_i32(out, f.data_type.oid());
        push_i16(out, f.data_type.size());
        push_i32(out, -1);
        push_i16(out, format.code());
        proof {
            let next = all.take(i as int + 1);
            assert(next.drop_last() =~= all.take(i as int));
            assert(next.last() == f@);
            assert(out@ =~= before + field_bytes(f@, format));
            assert(out@ =~= old(out)@ + fields_bytes(next, format));
            assert(fields_ok(next) == (fields_ok(all.take(i as int)) && cstr_ok(f@.name))) by {
                if fields_ok(next) {
                    assert(cstr_ok(next[i as int].name));
                    assert forall|k: int| 0 <= k < i implies cstr_ok(
                        #[trigger] all.take(i as int)[k].name,
                    ) by {
                        assert(all.take(i as int)[k] == next[k]);
                    }
                }
                if fields_ok(all.take(i as int)) && cstr_ok(f@.name) {
                    assert forall|k: int| 0 <= k < i + 1 implies cstr_ok(
                        #[trigger] next[k].name,
                    ) by {
                        if k < i {
                            assert(all.take(i as int)[k] == next[k]);
                        }
                    }
                }
            }
        }
        i += 1;
    }
    assert(all.take(i as int) =~= all);
    ok
}

/// Appends the cells of a data row to `out`; `false` where a cell is longer
/// than its length field can say.
fn push_cells(out: &mut Vec<u8>, cells: &Vec<Option<Vec<u8>>>) -> (ok: bool)
    ensures
        ok ==> final(out)@ == old(out)@ + cells_bytes(cells_view(cells@)),
        ok == cells_ok(cells_view(cells@)),
{
    let ghost all = cells_view(cells@);
    let mut i: usize = 0;
    while i < cells.len()
        invariant
            i <= cells@.len(),
            all == cells_view(cells@),
            out@ == old(out)@ + cells_bytes(all.take(i as int)),
            cells_ok(all.take(i as int)),
        decreases cells@.len() - i,
    {
        let ghost next = all.take(i as int + 1);
        proof {
            assert(next.drop_last() =~= all.take(i as int));
            assert(next.last() == all[i as int]);
        }
        match &cells[i] {
            None => {
                push_i32(out, -1);
            },
            Some(bytes) => {
                if bytes.len() > 0x7fff_ffff {
                    return false;
                }
                push_i32(out, bytes.len() as i32);
                out.extend_from_slice(bytes.as_slice());
            },
        }
        i += 1;
    }
    assert(all.take(i as int) =~= all);
    true
}

impl BackendMessage {
    /// Appends the body of the message to `out`; `false` where a part of
    /// the message does not fit the field that carries it.
    fn push_body(&self, out: &mut Vec<u8>) -> (ok: bool)
        ensures
            ok ==> final(out)@ == old(out)@ + self@.body(),
            ok == self@.parts_ok(),
    {
        match self {
            BackendMessage::AuthenticationOk => {
                push_i32(out, 0);
                true
            },
            BackendMessage::ParameterStatus { name, value } => {
                let ok = str_is_cstr_ok(name.as_str()) && str_is_cstr_ok(value.as_str());
                push_cstr(out, name.as_str());
                push_cstr(out, value.as_str());
                ok
            },
            BackendMessage::BackendKeyData { process_id, secret_key } => {
                push_i32(out, *process_id);
                push_i32(out, *secret_key);
                true
            },
            BackendMessage::ReadyForQuery => {
                out.push(0x49u8);
                true
            },
            BackendMessage::ParseComplete => {
                true
            },
            BackendMessage::BindComplete => {
                true
            },
            BackendMessage::NoData => {
                true
            },
            BackendMessage::EmptyQueryResponse => {
                true
            },
            BackendMessage::ParameterDescription => {
                push_i16(out, 0);
                true
            },
            BackendMessage::RowDescription(d) => {
                if d.fields.len() > 0x7fff {
                    return false;
                }
                push_i16(out, d.fields.len() as i16);
                let ok = push_fields(out, &d.fields, d.format_code);
                ok
            },
            BackendMessage::DataRow(r) => {
                if r.cells.len() > 0x7fff {
                    return false;
                }
                push_i16(out, r.cells.len() as i16);
                let ok = push_cells(out, &r.cells);
                ok
            },
            BackendMessage::CommandComplete { command_tag } => {
                let ok = str_is_cstr_ok(command_tag.as_str());
                push_cstr(out, command_tag.as_str());
                ok
            },
            BackendMessage::ErrorResponse(e) => {
                let ok = str_is_cstr_ok(e.message.as_str());
                out.push(0x53u8);
                push_cstr(out, e.severity.text());
                out.push(0x43u8);
                push_cstr(out, e.sql_state.code());
                out.push(0x4du8);
                push_cstr(out, e.message.as_str());
                out.push(0u8);
                ok
            },
        }
    }

    /// The byte that announces the kind of the message.
    pub fn tag(&self) -> (t: u8)
        ensures
            t == self@.tag(),
    {
        match self {
            BackendMessage::AuthenticationOk => 0x52,
            BackendMessage::ParameterStatus { .. } => 0x53,
            BackendMessage::BackendKeyData { .. } => 0x4b,
            BackendMessage::ReadyForQuery => 0x5a,
            BackendMessage::ParseComplete => 0x31,
            BackendMessage::BindComplete => 0x32,
            BackendMessage::NoData => 0x6e,
            BackendMessage::ParameterDescription => 0x74,
            BackendMessage::RowDescription(_) => 0x54,
            BackendMessage::DataRow(_) => 0x44,
            BackendMessage::CommandComplete { .. } => 0x43,
            BackendMessage::EmptyQueryResponse => 0x49,
            BackendMessage::ErrorResponse(_) => 0x45,
        }
    }

    /// The message on the wire, or `None` where it cannot be sent.
    pub fn encode(&self) -> (r: Option<Vec<u8>>)
        ensures
            r is Some <==> self@.encodable(),
            r matches Some(bytes) ==> bytes@ == self@.wire(),
    {
        let mut body: Vec<u8> = Vec::new();
        let ok = self.push_body(&mut body);
        if !ok || body.len() > 0x7fff_ffff - 4 {
            return None;
        }
        let mut out: Vec<u8> = Vec::new();
        out.push(self.tag());
        push_i32(&mut out, (body.len() + 4) as i32);
        out.extend_from_slice(body.as_slice());
        Some(out)
    }
}

/// One field of a row description and its format, read at `at`: the name,
/// then eighteen bytes of which the type and the format are kept. A type
/// or a format that is not known is a `BadTag`.
pub open spec fn field_item(b: Seq<u8>, at: int) -> Result<
    ((FieldDescriptionView, FormatCode), int),
    ProtocolError,
> {
    match cstr_at(b, at) {
        Err(e) => Err(e),
        Ok((name, p)) => if p + 18 > b.len() {
            Err(ProtocolError::ShortRead)
        } else {
            match (
                DataTypeOid::spec_from_oid(i32_at(b, p + 6)),
                FormatCode::spec_from_code(i16_at(b, p + 16)),
            ) {
                (Some(data_type), Some(format)) => Ok(
                    ((FieldDescriptionView { name, data_type }, format), p + 18),
                ),
                _ => Err(ProtocolError::BadTag),
            }
        },
    }
}

/// `n` fields with their formats, one after the other from `at`.
pub open spec fn field_list(b: Seq<u8>, at: int, n: nat) -> Result<
    (Seq<(FieldDescriptionView, FormatCode)>, int),
    ProtocolError,
>
    decreases n,
{
    if n == 0 {
        Ok((Seq::empty(), at))
    } else {
        match field_list(b, at, (n - 1) as nat) {
            Err(e) => Err(e),
            Ok((items, next)) => match field_item(b, next) {
                Err(e) => Err(e),
                Ok((item, end)) => Ok((items.push(item), end)),
            },
        }
    }
}

/// A list that fails at some length fails the same way at every greater
/// length.
pub proof fn lemma_field_list_fails(b: Seq<u8>, at: int, k: nat, n: nat)
    requires
        field_list(b, at, k) is Err,
        k <= n,
    ensures
        field_list(b, at, n) == field_list(b, at, k),
    decreases n,
{
    if k < n {
        lemma_field_list_fails(b, at, k, (n - 1) as nat);
    }
}

/// Whether all fields came in one format.
pub open spec fn one_format(items: Seq<(FieldDescriptionView, FormatCode)>) -> bool {
    forall|i: int| 0 <= i < items.len() ==> (#[trigger] items[i]).1 == items[0].1
}

/// The description that fields in one format make: text where there is no
/// field to tell.
pub open spec fn described(items: Seq<(FieldDescriptionView, FormatCode)>) -> RowDescriptionView {
    RowDescriptionView {
        fields: Seq::new(items.len(), |i: int| items[i].0),
        format_code: if items.len() == 0 {
            FormatCode::Text
        } else {
            items[0].1
        },
    }
}

/// The body of a row description. Fields in more than one format are a
/// `BadTag`.
pub open spec fn row_description_body(b: Seq<u8>) -> Result<BackendMessageView, ProtocolError> {
    match count_item(b, 0) {
        Err(e) => Err(e),
        Ok((n, p1)) => match field_list(b, p1, n) {
            Err(e) => Err(e),
            Ok((items, p2)) => if p2 != b.len() {
                Err(ProtocolError::LengthMismatch)
            } else if !one_format(items) {
                Err(ProtocolError::BadTag)
            } else {
                Ok(BackendMessageView::RowDescription(described(items)))
            },
        },
    }
}

/// The body of a data row.
pub open spec fn data_row_body(b: Seq<u8>) -> Result<BackendMessageView, ProtocolError> {
    match count_item(b, 0) {
        Err(e) => Err(e),
        Ok((n, p1)) => match value_list(b, p1, n) {
            Err(e) => Err(e),
            Ok((cells, p2)) => at_end(b, p2, BackendMessageView::DataRow(cells)),
        },
    }
}

/// A string with the byte `kind` in front of it.
pub open spec fn tagged_cstr(b: Seq<u8>, at: int, kind: u8) -> Result<
    (Seq<char>, int),
    ProtocolError,
> {
    if at < 0 || at >= b.len() {
        Err(ProtocolError::ShortRead)
    } else if b[at] != kind {
        Err(ProtocolError::BadTag)
    } else {
        cstr_at(b, at + 1)
    }
}

/// The body of an error: severity, class and message, each behind its
/// letter, then a zero byte. A severity or a class that is not known is a
/// `BadTag`.
pub open spec fn error_body(b: Seq<u8>) -> Result<BackendMessageView, ProtocolError> {
    match tagged_cstr(b, 0, 0x53) {
        Err(e) => Err(e),
        Ok((severity, p1)) => match tagged_cstr(b, p1, 0x43) {
            Err(e) => Err(e),
            Ok((code, p2)) => match tagged_cstr(b, p2, 0x4d) {
                Err(e) => Err(e),
                Ok((message, p3)) => if p3 >= b.len() {
                    Err(ProtocolError::ShortRead)
                } else if b[p3] != 0 {
                    Err(ProtocolError::BadTag)
                } else if p3 + 1 != b.len() {
                    Err(ProtocolError::LengthMismatch)
                } else {
                    match (Severity::spec_from_text(severity), SqlState::spec_from_code(code)) {
                        (Some(severity), Some(sql_state)) => Ok(
                            BackendMessageView::ErrorResponse(
                                ErrorResponseView { severity, sql_state, message },
                            ),
                        ),
                        _ => Err(ProtocolError::BadTag),
                    }
                },
            },
        },
    }
}

/// The message with tag `tag` and body `b`, as a client reads it.
pub open spec fn backend_message_spec(tag: u8, b: Seq<u8>) -> Result<
    BackendMessageView,
    ProtocolError,
> {
    if tag == 0x52 {
        match i32_item(b, 0) {
            Err(e) => Err(e),
            Ok((code, p1)) => if code != 0 {
                Err(ProtocolError::BadTag)
            } else {
                at_end(b, p1, BackendMessageView::AuthenticationOk)
            },
        }
    } else if tag == 0x53 {
        match cstr_at(b, 0) {
            Err(e) => Err(e),
            Ok((name, p1)) => match cstr_at(b, p1) {
                Err(e) => Err(e),
                Ok((value, p2)) => at_end(
                    b,
                    p2,
                    BackendMessageView::ParameterStatus { name, value },
                ),
            },
        }
    } else if tag == 0x4b {
        match i32_item(b, 0) {
            Err(e) => Err(e),
            Ok((process_id, p1)) => match i32_item(b, p1) {
                Err(e) => Err(e),
                Ok((secret_key, p2)) => at_end(
                    b,
                    p2,
                    BackendMessageView::BackendKeyData { process_id, secret_key },
                ),
            },
        }
    } else if tag == 0x5a {
        if b.len() == 0 {
            Err(ProtocolError::ShortRead)
        } else if b[0] != 0x49 {
            Err(ProtocolError::BadTag)
        } else {
            at_end(b, 1, BackendMessageView::ReadyForQuery)
        }
    } else if tag == 0x31 {
        at_end(b, 0, BackendMessageView::ParseComplete)
    } else if tag == 0x32 {
        at_end(b, 0, BackendMessageView::BindComplete)
    } else if tag == 0x6e {
        at_end(b, 0, BackendMessageView::NoData)
    } else if tag == 0x74 {
        match count_item(b, 0) {
            Err(e) => Err(e),
            Ok((n, p1)) => if n != 0 {
                Err(ProtocolError::BadTag)
            } else {
                at_end(b, p1, BackendMessageView::ParameterDescription)
            },
        }
    } else if tag == 0x54 {
        row_description_body(b)
    } else if tag == 0x44 {
        data_row_body(b)
    } else if tag == 0x43 {
        match cstr_at(b, 0) {
            Err(e) => Err(e),
            Ok((command_tag, p1)) => at_end(
                b,
                p1,
                BackendMessageView::CommandComplete { command_tag },
            ),
        }
    } else if tag == 0x49 {
        at_end(b, 0, BackendMessageView::EmptyQueryResponse)
    } else if tag == 0x45 {
        error_body(b)
    } else {
        Err(ProtocolError::BadTag)
    }
}

/// The one message that `bytes` are: a tag, a length that counts itself
/// and the body, and the body. Fewer bytes than announced are a
/// `ShortRead`, more a `LengthMismatch`.
pub open spec fn backend_spec(bytes: Seq<u8>) -> Result<BackendMessageView, ProtocolError> {
    if bytes.len() < 5 {
        Err(ProtocolError::ShortRead)
    } else {
        let len = i32_at(bytes, 1) as int;
        if len < 4 {
            Err(ProtocolError::LengthMismatch)
        } else if bytes.len() < 1 + len {
            Err(ProtocolError::ShortRead)
        } else if bytes.len() > 1 + len {
            Err(ProtocolError::LengthMismatch)
        } else {
            backend_message_spec(bytes[0], bytes.subrange(5, bytes.len() as int))
        }
    }
}

/// Whether `r` is the message, or the error, that `expected` names.
pub open spec fn read_as(
    r: Result<BackendMessage, ProtocolError>,
    expected: Result<BackendMessageView, ProtocolError>,
) -> bool {
    match expected {
        Ok(v) => r matches Ok(m) && m@ == v,
        Err(e) => r matches Err(got) && got == e,
    }
}

/// The message read, where the reading ended where the body does.
fn finish(b: &[u8], pos: usize, m: BackendMessage) -> (r: Result<BackendMessage, ProtocolError>)
    ensures
        read_as(r, at_end(b@, pos as int, m@)),
{
    if pos == b.len() {
        Ok(m)
    } else {
        Err(ProtocolError::LengthMismatch)
    }
}

/// Reads one field of a row description at `at`.
fn take_field(b: &[u8], at: usize) -> (r: Result<
    ((FieldDescription, FormatCode), usize),
    ProtocolError,
>)
    requires
        at <= b@.len(),
    ensures
        match field_item(b@, at as int) {
            Ok(((field, format), next)) => r matches Ok(((got, f), n)) && got@ == field && f
                == format && n == next && next <= b@.len(),
            Err(e) => r matches Err(got) && got == e,
        },
{
    let (name, p) = match read_cstr(b, at) {
        Err(e) => {
            return Err(e);
        },
        Ok(x) => x,
    };
    proof {
        lemma_cstr_at_advances(b@, at as int);
    }
    if b.len() - p < 18 {
        return Err(ProtocolError::ShortRead);
    }
    let oid = read_i32(b, p + 6);
    let code = read_i16(b, p + 16);
    match (DataTypeOid::from_oid(oid), FormatCode::from_code(code)) {
        (Some(data_type), Some(format)) => Ok(
            ((FieldDescription { name, data_type }, format), p + 18),
        ),
        _ => Err(ProtocolError::BadTag),
    }
}

/// The fields with their formats held by a sequence, one for one.
pub open spec fn items_view(items: Seq<(FieldDescription, FormatCode)>) -> Seq<
    (FieldDescriptionView, FormatCode),
> {
    Seq::new(items.len(), |i: int| (items[i].0@, items[i].1))
}

/// Reads `n` fields of a row description from `at`.
fn take_fields(b: &[u8], at: usize, n: usize) -> (r: Result<
    (Vec<(FieldDescription, FormatCode)>, usize),
    ProtocolError,
>)
    requires
        at <= b@.len(),
    ensures
        match field_list(b@, at as int, n as nat) {
            Ok((items, next)) => r matches Ok((got, m)) && items_view(got@) == items && m == next
                && next <= b@.len(),
            Err(e) => r matches Err(got) && got == e,
        },
{
    let mut items: Vec<(FieldDescription, FormatCode)> = Vec::new();
    let mut pos: usize = at;
    let mut i: usize = 0;
    assert(items_view(items@) =~= Seq::empty());
    while i < n
        invariant
            i <= n,
            pos <= b@.len(),
            field_list(b@, at as int, i as nat) == Ok::<
                (Seq<(FieldDescriptionView, FormatCode)>, int),
                ProtocolError,
            >((items_view(items@), pos as int)),
        decreases n - i,
    {
        let ghost so_far = items_view(items@);
        match take_field(b, pos) {
            Err(e) => {
                proof {
                    lemma_field_list_fails(b@, at as int, (i + 1) as nat, n as nat);
                }
                return Err(e);
            },
            Ok((item, next)) => {
                let ghost read = (item.0@, item.1);
                items.push(item);
                assert(items_view(items@) =~= so_far.push(read));
                pos = next;
            },
        }
        i += 1;
    }
    Ok((items, pos))
}

/// The description that fields make, where they came in one format.
fn describe(items: Vec<(FieldDescription, FormatCode)>) -> (r: Option<RowDescription>)
    ensures
        r is Some <==> one_format(items_view(items@)),
        r matches Some(d) ==> d@ == described(items_view(items@)),
{
    let ghost all = items_view(items@);
    let format_code = if items.len() == 0 {
        FormatCode::Text
    } else {
        items[0].1
    };
    let mut fields: Vec<FieldDescription> = Vec::new();
    let mut i: usize = 0;
    while i < items.len()
        invariant
            i <= items@.len(),
            all == items_view(items@),
            items@.len() > 0 ==> format_code == items@[0].1,
            fields@.len() == i,
            forall|k: int| 0 <= k < i ==> (#[trigger] fields@[k])@ == all[k].0,
            forall|k: int| 0 <= k < i ==> (#[trigger] all[k]).1 == all[0].1,
        decreases items@.len() - i,
    {
        match items[i].1 {
            FormatCode::Text => match format_code {
                FormatCode::Text => {},
                FormatCode::Binary => {
                    assert(all[i as int].1 != all[0].1);
                    return None;
                },
            },
            FormatCode::Binary => match format_code {
                FormatCode::Binary => {},
                FormatCode::Text => {
                    assert(all[i as int].1 != all[0].1);
                    return None;
                },
            },
        }
        fields.push(items[i].0.clone());
        i += 1;
    }
    let d = RowDescription { fields, format_code };
    assert(d@.fields =~= described(all).fields);
    Some(d)
}

/// Reads a string with the byte `kind` in front of it.
fn take_tagged(b: &[u8], at: usize, kind: u8) -> (r: Result<(String, usize), ProtocolError>)
    requires
        at <= b@.len(),
    ensures
        match tagged_cstr(b@, at as int, kind) {
            Ok((chars, next)) => r matches Ok((s, n)) && s@ == chars && n == next && next
                <= b@.len(),
            Err(e) => r matches Err(got) && got == e,
        },
{
    if at >= b.len() {
        return Err(ProtocolError::ShortRead);
    }
    if b[at] != kind {
        return Err(ProtocolError::BadTag);
    }
    let r = read_cstr(b, at + 1);
    proof {
        if cstr_at(b@, at + 1) is Ok {
            lemma_cstr_at_advances(b@, at + 1);
        }
    }
    r
}

/// Reads the body of an error.
fn decode_error(b: &[u8]) -> (r: Result<BackendMessage, ProtocolError>)
    ensures
        read_as(r, error_body(b@)),
{
    let (severity, p1) = match take_tagged(b, 0, 0x53) {
        Err(e) => {
            return Err(e);
        },
        Ok(x) => x,
    };
    let (code, p2) = match take_tagged(b, p1, 0x43) {
        Err(e) => {
            return Err(e);
        },
        Ok(x) => x,
    };
    let (message, p3) = match take_tagged(b, p2, 0x4d) {
        Err(e) => {
            return Err(e);
        },
        Ok(x) => x,
    };
    if p3 >= b.len() {
        return Err(ProtocolError::ShortRead);
    }
    if b[p3] != 0 {
        return Err(ProtocolError::BadTag);
    }
    if p3 + 1 != b.len() {
        return Err(ProtocolError::LengthMismatch);
    }
    match (Severity::from_text(severity.as_str()), SqlState::from_code(code.as_str())) {
        (Some(severity), Some(sql_state)) => Ok(
            BackendMessage::ErrorResponse(ErrorResponse { severity, sql_state, message }),
        ),
        _ => Err(ProtocolError::BadTag),
    }
}

/// Reads the body of a row description.
fn decode_row_description(b: &[u8]) -> (r: Result<BackendMessage, ProtocolError>)
    ensures
        read_as(r, row_description_body(b@)),
{
    let (n, p1) = match take_count(b, 0) {
        Err(e) => {
            return Err(e);
        },
        Ok(x) => x,
    };
    let (items, p2) = match take_fields(b, p1, n) {
        Err(e) => {
            return Err(e);
        },
        Ok(x) => x,
    };
    if p2 != b.len() {
        return Err(ProtocolError::LengthMismatch);
    }
    match describe(items) {
        Some(d) => Ok(BackendMessage::RowDescription(d)),
        None => Err(ProtocolError::BadTag),
    }
}

/// Reads the body of a data row.
fn decode_data_row(b: &[u8]) -> (r: Result<BackendMessage, ProtocolError>)
    ensures
        read_as(r, data_row_body(b@)),
{
    let (n, p1) = match take_count(b, 0) {
        Err(e) => {
            return Err(e);
        },
        Ok(x) => x,
    };
    let (cells, p2) = match take_value_list(b, p1, n) {
        Err(e) => {
            return Err(e);
        },
        Ok(x) => x,
    };
    finish(b, p2, BackendMessage::DataRow(DataRow { cells }))
}

/// Reads the message with tag `tag` from its body, as a client does.
pub fn decode_backend_message(tag: u8, b: &[u8]) -> (r: Result<BackendMessage, ProtocolError>)
    ensures
        read_as(r, backend_message_spec(tag, b@)),
{
    if tag == 0x52 {
        let (code, p1) = match take_i32(b, 0) {
            Err(e) => {
                return Err(e);
            },
            Ok(x) => x,
        };
        if code != 0 {
            return Err(ProtocolError::BadTag);
        }
        finish(b, p1, BackendMessage::AuthenticationOk)
    } else if tag == 0x53 {
        let (name, p1) = match read_cstr(b, 0) {
            Err(e) => {
                return Err(e);
            },
            Ok(x) => x,
        };
        proof {
            lemma_cstr_at_advances(b@, 0);
        }
        let (value, p2) = match read_cstr(b, p1) {
            Err(e) => {
                return Err(e);
            },
            Ok(x) => x,
        };
        finish(b, p2, BackendMessage::ParameterStatus { name, value })
    } else if tag == 0x4b {
        let (process_id, p1) = match take_i32(b, 0) {
            Err(e) => {
                return Err(e);
            },
            Ok(x) => x,
        };
        let (secret_key, p2) = match take_i32(b, p1) {
            Err(e) => {
                return Err(e);
            },
            Ok(x) => x,
        };
        finish(b, p2, BackendMessage::BackendKeyData { process_id, secret_key })
    } else if tag == 0x5a {
        if b.len() == 0 {
            return Err(ProtocolError::ShortRead);
        }
        if b[0] != 0x49 {
            return Err(ProtocolError::BadTag);
        }
        finish(b, 1, BackendMessage::ReadyForQuery)
    } else if tag == 0x31 {
        finish(b, 0, BackendMessage::ParseComplete)
    } else if tag == 0x32 {
        finish(b, 0, BackendMessage::BindComplete)
    } else if tag == 0x6e {
        finish(b, 0, BackendMessage::NoData)
    } else if tag == 0x74 {
        let (n, p1) = match take_count(b, 0) {
            Err(e) => {
                return Err(e);
            },
            Ok(x) => x,
        };
        if n != 0 {
            return Err(ProtocolError::BadTag);
        }
        finish(b, p1, BackendMessage::ParameterDescription)
    } else if tag == 0x54 {
        decode_row_description(b)
    } else if tag == 0x44 {
        decode_data_row(b)
    } else if tag == 0x43 {
        let (command_tag, p1) = match read_cstr(b, 0) {
            Err(e) => {
                return Err(e);
            },
            Ok(x) => x,
        };
        finish(b, p1, BackendMessage::CommandComplete { command_tag })
    } else if tag == 0x49 {
        finish(b, 0, BackendMessage::EmptyQueryResponse)
    } else if tag == 0x45 {
        decode_error(b)
    } else {
        Err(ProtocolError::BadTag)
    }
}

impl BackendMessage {
    /// Reads the one message that `bytes` are, as a client does.
    pub fn decode(bytes: &[u8]) -> (r: Result<BackendMessage, ProtocolError>)
        ensures
            read_as(r, backend_spec(bytes@)),
    {
        if bytes.len() < 5 {
            return Err(ProtocolError::ShortRead);
        }
        let len = read_i32(bytes, 1);
        if len < 4 {
            return Err(ProtocolError::LengthMismatch);
        }
        let total = (len as usize) + 1;
        if bytes.len() < total {
            return Err(ProtocolError::ShortRead);
        }
        if bytes.len() > total {
            return Err(ProtocolError::LengthMismatch);
        }
        decode_backend_message(bytes[0], slice_subrange(bytes, 5, total))
    }
}

} // verus!
