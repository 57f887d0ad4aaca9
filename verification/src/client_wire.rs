//! The messages of a client on the wire, and that the server reads each of
//! them as what it is.

use crate::backend::{cell_bytes, cells_bytes, cells_ok};
use crate::codec::{frame_spec, FrameView};
use crate::frontend::{
    bind_body, cancel_request_code, counted_formats, counted_i32s, counted_values, describe_body,
    execute_body, format_item, format_list, message_spec, parse_body, protocol_3_0, query_body,
    settings_at, ssl_request_code, startup_spec, ClientMessageView, DescribeView,
};
use crate::protocol::{FormatCode, ProtocolError};
use crate::wire::{
    count_item, cstr_bytes, cstr_ok, i16_bytes, i32_bytes, i32_list,
    lemma_cstr_item, lemma_i16_item, lemma_i32_item, lemma_occurs_index, lemma_occurs_split,
    lemma_widths, occurs, value_item, value_list,
};
use vstd::prelude::*;
use vstd::utf8::encode_utf8;

verus! {

/// Format codes, one after the other.
pub open spec fn formats_bytes(formats: Seq<FormatCode>) -> Seq<u8>
    decreases formats.len(),
{
    if formats.len() == 0 {
        Seq::<u8>::empty()
    } else {
        formats_bytes(formats.drop_last()) + i16_bytes(formats.last().spec_code())
    }
}

/// 32-bit values, one after the other.
pub open spec fn i32s_bytes(values: Seq<i32>) -> Seq<u8>
    decreases values.len(),
{
    if values.len() == 0 {
        Seq::<u8>::empty()
    } else {
        i32s_bytes(values.drop_last()) + i32_bytes(values.last())
    }
}

/// The settings of a startup packet: each name with its value, then a
/// zero byte.
pub open spec fn settings_bytes(pairs: Seq<(Seq<char>, Seq<char>)>) -> Seq<u8>
    decreases pairs.len(),
{
    if pairs.len() == 0 {
        seq![0u8]
    } else {
        cstr_bytes(pairs[0].0) + cstr_bytes(pairs[0].1) + settings_bytes(pairs.drop_first())
    }
}

/// Whether settings can be sent: no name is empty, which would end the
/// list, and no name or value holds a NUL.
pub open spec fn settings_ok(pairs: Seq<(Seq<char>, Seq<char>)>) -> bool {
    forall|i: int|
        0 <= i < pairs.len() ==> (#[trigger] pairs[i]).0.len() > 0 && cstr_ok(pairs[i].0)
            && cstr_ok(pairs[i].1)
}

impl ClientMessageView {
    /// Whether the message belongs to the startup phase.
    pub open spec fn is_startup_packet(self) -> bool {
        self is Startup || self is SSLRequest || self is CancelRequest
    }

    /// The byte that announces the kind of a message of the message phase.
    pub open spec fn tag(self) -> u8 {
        match self {
            ClientMessageView::Parse { .. } => 0x50,
            ClientMessageView::Bind { .. } => 0x42,
            ClientMessageView::Describe(_) => 0x44,
            ClientMessageView::Execute { .. } => 0x45,
            ClientMessageView::Sync => 0x53,
            ClientMessageView::Query(_) => 0x51,
            ClientMessageView::Terminate => 0x58,
            _ => 0,
        }
    }

    /// What follows the length field.
    pub open spec fn body(self) -> Seq<u8> {
        match self {
            ClientMessageView::SSLRequest => i32_bytes(ssl_request_code()),
            ClientMessageView::Startup { parameters } => i32_bytes(protocol_3_0())
                + settings_bytes(parameters),
            ClientMessageView::CancelRequest { process_id, secret_key } => i32_bytes(
                cancel_request_code(),
            ) + i32_bytes(process_id) + i32_bytes(secret_key),
            ClientMessageView::Parse {
                prepared_statement_name,
                query,
                parameter_types,
            } => cstr_bytes(prepared_statement_name) + cstr_bytes(query) + i16_bytes(
                parameter_types.len() as i16,
            ) + i32s_bytes(parameter_types),
            ClientMessageView::Describe(target) => match target {
                DescribeView::PreparedStatement(name) => seq![0x53u8] + cstr_bytes(name),
                DescribeView::Portal(name) => seq![0x50u8] + cstr_bytes(name),
            },
            ClientMessageView::Bind {
                portal,
                prepared_statement_name,
                parameter_formats,
                parameter_values,
                result_formats,
            } => cstr_bytes(portal) + cstr_bytes(prepared_statement_name) + i16_bytes(
                parameter_formats.len() as i16,
            ) + formats_bytes(parameter_formats) + i16_bytes(parameter_values.len() as i16)
                + cells_bytes(parameter_values) + i16_bytes(result_formats.len() as i16)
                + formats_bytes(result_formats),
            ClientMessageView::Sync => Seq::<u8>::empty(),
            ClientMessageView::Execute { portal, max_rows } => cstr_bytes(portal) + i32_bytes(
                max_rows,
            ),
            ClientMessageView::Query(sql) => cstr_bytes(sql),
            ClientMessageView::Terminate => Seq::<u8>::empty(),
        }
    }

    /// Whether the parts of the message fit the fields that carry them.
    pub open spec fn parts_ok(self) -> bool {
        match self {
            ClientMessageView::Startup { parameters } => settings_ok(parameters),
            ClientMessageView::Parse {
                prepared_statement_name,
                query,
                parameter_types,
            } => cstr_ok(prepared_statement_name) && cstr_ok(query) && parameter_types.len()
                <= 0x7fff,
            ClientMessageView::Describe(target) => match target {
                DescribeView::PreparedStatement(name) => cstr_ok(name),
                DescribeView::Portal(name) => cstr_ok(name),
            },
            ClientMessageView::Bind {
                portal,
                prepared_statement_name,
                parameter_formats,
                parameter_values,
                result_formats,
            } => cstr_ok(portal) && cstr_ok(prepared_statement_name) && parameter_formats.len()
                <= 0x7fff && parameter_values.len() <= 0x7fff && cells_ok(parameter_values)
                && result_formats.len() <= 0x7fff,
            ClientMessageView::Execute { portal, .. } => cstr_ok(portal),
            ClientMessageView::Query(sql) => cstr_ok(sql),
            _ => true,
        }
    }

    /// The message on the wire: in the message phase a tag, then in either
    /// phase the length, which counts itself, and the body.
    pub open spec fn wire(self) -> Seq<u8> {
        if self.is_startup_packet() {
            i32_bytes((self.body().len() + 4) as i32) + self.body()
        } else {
            seq![self.tag()] + i32_bytes((self.body().len() + 4) as i32) + self.body()
        }
    }

    /// Whether the message can be sent: its parts fit, and so does its
    /// length.
    pub open spec fn encodable(self) -> bool {
        self.parts_ok() && self.body().len() + 4 <= 0x7fff_ffff
    }
}

proof fn lemma_occurs_whole(s: Seq<u8>)
    ensures
        occurs(s, 0, s),
{
    assert(s.subrange(0, s.len() as int) =~= s);
}

proof fn lemma_count(s: Seq<u8>, at: int, n: nat)
    requires
        n <= 0x7fff,
        occurs(s, at, i16_bytes(n as i16)),
    ensures
        count_item(s, at) == Ok::<(nat, int), ProtocolError>((n, at + 2)),
{
    lemma_i16_item(s, at, n as i16);
}

proof fn lemma_i32s(s: Seq<u8>, at: int, values: Seq<i32>)
    requires
        occurs(s, at, i32s_bytes(values)),
    ensures
        i32s_bytes(values).len() == 4 * values.len(),
        i32_list(s, at, values.len()) == Ok::<(Seq<i32>, int), ProtocolError>(
            (values, at + 4 * values.len()),
        ),
    decreases values.len(),
{
    lemma_widths();
    if values.len() > 0 {
        let init = values.drop_last();
        let last = values.last();
        lemma_occurs_split(s, at, i32s_bytes(init), i32_bytes(last));
        lemma_i32s(s, at, init);
        lemma_i32_item(s, at + 4 * init.len(), last);
        assert(init.push(last) =~= values);
        assert((values.len() - 1) as nat == init.len());
    } else {
        assert(values =~= Seq::empty());
    }
}

proof fn lemma_formats(s: Seq<u8>, at: int, formats: Seq<FormatCode>)
    requires
        occurs(s, at, formats_bytes(formats)),
    ensures
        formats_bytes(formats).len() == 2 * formats.len(),
        format_list(s, at, formats.len()) == Ok::<(Seq<FormatCode>, int), ProtocolError>(
            (formats, at + 2 * formats.len()),
        ),
    decreases formats.len(),
{
    lemma_widths();
    if formats.len() > 0 {
        let init = formats.drop_last();
        let last = formats.last();
        lemma_occurs_split(s, at, formats_bytes(init), i16_bytes(last.spec_code()));
        lemma_formats(s, at, init);
        lemma_i16_item(s, at + 2 * init.len(), last.spec_code());
        assert(FormatCode::spec_from_code(last.spec_code()) == Some(last));
        assert(format_item(s, at + 2 * init.len()) == Ok::<(FormatCode, int), ProtocolError>(
            (last, at + 2 * init.len() + 2),
        ));
        assert(init.push(last) =~= formats);
        assert((formats.len() - 1) as nat == init.len());
    } else {
        assert(formats =~= Seq::empty());
    }
}

proof fn lemma_value(s: Seq<u8>, at: int, cell: Option<Seq<u8>>)
    requires
        cell matches Some(bytes) ==> bytes.len() <= 0x7fff_ffff,
        occurs(s, at, cell_bytes(cell)),
    ensures
        value_item(s, at) == Ok::<(Option<Seq<u8>>, int), ProtocolError>(
            (cell, at + cell_bytes(cell).len()),
        ),
{
    lemma_widths();
    match cell {
        None => {
            lemma_i32_item(s, at, -1i32);
        },
        Some(bytes) => {
            lemma_occurs_split(s, at, i32_bytes(bytes.len() as i32), bytes);
            lemma_i32_item(s, at, bytes.len() as i32);
        },
    }
}

proof fn lemma_values(s: Seq<u8>, at: int, cells: Seq<Option<Seq<u8>>>)
    requires
        cells_ok(cells),
        occurs(s, at, cells_bytes(cells)),
    ensures
        value_list(s, at, cells.len()) == Ok::<(Seq<Option<Seq<u8>>>, int), ProtocolError>(
            (cells, at + cells_bytes(cells).len()),
        ),
    decreases cells.len(),
{
    if cells.len() > 0 {
        let init = cells.drop_last();
        let last = cells.last();
        lemma_occurs_split(s, at, cells_bytes(init), cell_bytes(last));
        assert(cells_ok(init)) by {
            assert forall|i: int| 0 <= i < init.len() implies (#[trigger] init[i] matches Some(
                bytes,
            ) ==> bytes.len() <= 0x7fff_ffff) by {
                assert(init[i] == cells[i]);
            }
        }
        lemma_values(s, at, init);
        assert(cells[cells.len() - 1] == last);
        lemma_value(s, at + cells_bytes(init).len(), last);
        assert(init.push(last) =~= cells);
        assert((cells.len() - 1) as nat == init.len());
    } else {
        assert(cells =~= Seq::empty());
    }
}

proof fn lemma_settings(s: Seq<u8>, at: int, pairs: Seq<(Seq<char>, Seq<char>)>)
    requires
        settings_ok(pairs),
        occurs(s, at, settings_bytes(pairs)),
    ensures
        settings_at(s, at) == Ok::<(Seq<(Seq<char>, Seq<char>)>, int), ProtocolError>(
            (pairs, at + settings_bytes(pairs).len()),
        ),
    decreases pairs.len(),
{
    if pairs.len() == 0 {
        let none = Seq::<char>::empty();
        assert(encode_utf8(none) =~= Seq::<u8>::empty());
        assert(cstr_bytes(none) =~= seq![0u8]);
        lemma_cstr_item(s, at, none);
        assert(pairs =~= Seq::empty());
    } else {
        let name = pairs[0].0;
        let value = pairs[0].1;
        let rest = pairs.drop_first();
        lemma_occurs_split(s, at, cstr_bytes(name) + cstr_bytes(value), settings_bytes(rest));
        lemma_occurs_split(s, at, cstr_bytes(name), cstr_bytes(value));
        lemma_cstr_item(s, at, name);
        let p1 = at + cstr_bytes(name).len();
        lemma_cstr_item(s, p1, value);
        let p2 = p1 + cstr_bytes(value).len();
        assert(settings_ok(rest)) by {
            assert forall|i: int| 0 <= i < rest.len() implies (#[trigger] rest[i]).0.len() > 0
                && cstr_ok(rest[i].0) && cstr_ok(rest[i].1) by {
                assert(rest[i] == pairs[i + 1]);
            }
        }
        lemma_settings(s, p2, rest);
        assert(seq![(name, value)] + rest =~= pairs);
    }
}

proof fn lemma_parse(m: ClientMessageView)
    requires
        m is Parse,
        m.parts_ok(),
    ensures
        parse_body(m.body()) == Ok::<ClientMessageView, ProtocolError>(m),
{
    lemma_widths();
    if let ClientMessageView::Parse { prepared_statement_name, query, parameter_types } = m {
        let b = m.body();
        let a = cstr_bytes(prepared_statement_name);
        let q = cstr_bytes(query);
        let n = i16_bytes(parameter_types.len() as i16);
        let t = i32s_bytes(parameter_types);
        lemma_occurs_whole(b);
        lemma_occurs_split(b, 0, a + q + n, t);
        lemma_occurs_split(b, 0, a + q, n);
        lemma_occurs_split(b, 0, a, q);
        lemma_cstr_item(b, 0, prepared_statement_name);
        lemma_cstr_item(b, a.len() as int, query);
        let p2 = (a.len() + q.len()) as int;
        lemma_count(b, p2, parameter_types.len());
        lemma_i32s(b, p2 + 2, parameter_types);
        assert(counted_i32s(b, p2) == Ok::<(Seq<i32>, int), ProtocolError>(
            (parameter_types, b.len() as int),
        ));
    }
}

proof fn lemma_counted_formats(s: Seq<u8>, at: int, formats: Seq<FormatCode>)
    requires
        formats.len() <= 0x7fff,
        occurs(s, at, i16_bytes(formats.len() as i16) + formats_bytes(formats)),
    ensures
        counted_formats(s, at) == Ok::<(Seq<FormatCode>, int), ProtocolError>(
            (formats, at + 2 + 2 * formats.len()),
        ),
        (i16_bytes(formats.len() as i16) + formats_bytes(formats)).len() == 2 + 2 * formats.len(),
{
    lemma_widths();
    lemma_occurs_split(s, at, i16_bytes(formats.len() as i16), formats_bytes(formats));
    lemma_count(s, at, formats.len());
    lemma_formats(s, at + 2, formats);
}

proof fn lemma_counted_values(s: Seq<u8>, at: int, cells: Seq<Option<Seq<u8>>>)
    requires
        cells.len() <= 0x7fff,
        cells_ok(cells),
        occurs(s, at, i16_bytes(cells.len() as i16) + cells_bytes(cells)),
    ensures
        counted_values(s, at) == Ok::<(Seq<Option<Seq<u8>>>, int), ProtocolError>(
            (cells, at + 2 + cells_bytes(cells).len()),
        ),
{
    lemma_widths();
    lemma_occurs_split(s, at, i16_bytes(cells.len() as i16), cells_bytes(cells));
    lemma_count(s, at, cells.len());
    lemma_values(s, at + 2, cells);
}

/// Where a run of bytes and another stand one after the other in their
/// places, the two of them together stand in the place of the first.
proof fn lemma_occurs_join(s: Seq<u8>, at: int, a: Seq<u8>, b: Seq<u8>)
    requires
        occurs(s, at, a),
        occurs(s, at + a.len(), b),
    ensures
        occurs(s, at, a + b),
{
    assert(s.subrange(at, at + (a + b).len()) =~= a + b) by {
        assert forall|i: int| 0 <= i < (a + b).len() implies s[at + i] == (a + b)[i] by {
            if i < a.len() {
                lemma_occurs_index(s, at, a, i);
            } else {
                lemma_occurs_index(s, at + a.len(), b, i - a.len());
            }
        }
    }
}

proof fn lemma_bind(m: ClientMessageView)
    requires
        m is Bind,
        m.parts_ok(),
    ensures
        bind_body(m.body()) == Ok::<ClientMessageView, ProtocolError>(m),
{
    lemma_widths();
    if let ClientMessageView::Bind {
        portal,
        prepared_statement_name,
        parameter_formats,
        parameter_values,
        result_formats,
    } = m {
        let b = m.body();
        let a1 = cstr_bytes(portal);
        let a2 = cstr_bytes(prepared_statement_name);
        let n1 = i16_bytes(parameter_formats.len() as i16);
        let f1 = formats_bytes(parameter_formats);
        let n2 = i16_bytes(parameter_values.len() as i16);
        let v = cells_bytes(parameter_values);
        let n3 = i16_bytes(result_formats.len() as i16);
        let f2 = formats_bytes(result_formats);
        lemma_occurs_whole(b);
        lemma_occurs_split(b, 0, a1 + a2 + n1 + f1 + n2 + v + n3, f2);
        lemma_occurs_split(b, 0, a1 + a2 + n1 + f1 + n2 + v, n3);
        lemma_occurs_split(b, 0, a1 + a2 + n1 + f1 + n2, v);
        lemma_occurs_split(b, 0, a1 + a2 + n1 + f1, n2);
        lemma_occurs_split(b, 0, a1 + a2 + n1, f1);
        lemma_occurs_split(b, 0, a1 + a2, n1);
        lemma_occurs_split(b, 0, a1, a2);
        lemma_cstr_item(b, 0, portal);
        let p1 = a1.len() as int;
        lemma_cstr_item(b, p1, prepared_statement_name);
        let p2 = p1 + a2.len();
        lemma_occurs_join(b, p2, n1, f1);
        lemma_counted_formats(b, p2, parameter_formats);
        let p3 = p2 + 2 + 2 * parameter_formats.len();
        lemma_occurs_join(b, p3, n2, v);
        lemma_counted_values(b, p3, parameter_values);
        let p4 = p3 + 2 + v.len();
        lemma_occurs_join(b, p4, n3, f2);
        lemma_counted_formats(b, p4, result_formats);
    }
}

proof fn lemma_describe(target: DescribeView)
    requires
        ClientMessageView::Describe(target).parts_ok(),
    ensures
        describe_body(ClientMessageView::Describe(target).body()) == Ok::<
            ClientMessageView,
            ProtocolError,
        >(ClientMessageView::Describe(target)),
{
    let b = ClientMessageView::Describe(target).body();
    lemma_occurs_whole(b);
    match target {
        DescribeView::PreparedStatement(name) => {
            lemma_occurs_split(b, 0, seq![0x53u8], cstr_bytes(name));
            lemma_occurs_index(b, 0, seq![0x53u8], 0);
            lemma_cstr_item(b, 1, name);
        },
        DescribeView::Portal(name) => {
            lemma_occurs_split(b, 0, seq![0x50u8], cstr_bytes(name));
            lemma_occurs_index(b, 0, seq![0x50u8], 0);
            lemma_cstr_item(b, 1, name);
        },
    }
}

proof fn lemma_execute(m: ClientMessageView)
    requires
        m is Execute,
        m.parts_ok(),
    ensures
        execute_body(m.body()) == Ok::<ClientMessageView, ProtocolError>(m),
{
    lemma_widths();
    if let ClientMessageView::Execute { portal, max_rows } = m {
        let b = m.body();
        lemma_occurs_whole(b);
        lemma_occurs_split(b, 0, cstr_bytes(portal), i32_bytes(max_rows));
        lemma_cstr_item(b, 0, portal);
        lemma_i32_item(b, cstr_bytes(portal).len() as int, max_rows);
    }
}

proof fn lemma_query(sql: Seq<char>)
    requires
        cstr_ok(sql),
    ensures
        query_body(ClientMessageView::Query(sql).body()) == Ok::<
            ClientMessageView,
            ProtocolError,
        >(ClientMessageView::Query(sql)),
{
    let b = ClientMessageView::Query(sql).body();
    lemma_occurs_whole(b);
    lemma_cstr_item(b, 0, sql);
}

/// Whatever message of the message phase a client can send, the server
/// reads its tag and body as that message.
pub proof fn lemma_message_read(m: ClientMessageView)
    requires
        !m.is_startup_packet(),
        m.parts_ok(),
    ensures
        message_spec(m.tag(), m.body()) == Ok::<ClientMessageView, ProtocolError>(m),
{
    match m {
        ClientMessageView::Parse { .. } => {
            lemma_parse(m);
        },
        ClientMessageView::Bind { .. } => {
            lemma_bind(m);
        },
        ClientMessageView::Describe(target) => {
            lemma_describe(target);
        },
        ClientMessageView::Execute { .. } => {
            lemma_execute(m);
        },
        ClientMessageView::Query(sql) => {
            lemma_query(sql);
        },
        _ => {},
    }
}

/// Whatever packet of the startup phase a client can send, the server
/// reads what follows its length as that packet.
pub proof fn lemma_startup_read(m: ClientMessageView)
    requires
        m.is_startup_packet(),
        m.parts_ok(),
    ensures
        startup_spec(m.body()) == Ok::<ClientMessageView, ProtocolError>(m),
{
    lemma_widths();
    let b = m.body();
    lemma_occurs_whole(b);
    match m {
        ClientMessageView::SSLRequest => {
            lemma_i32_item(b, 0, ssl_request_code());
        },
        ClientMessageView::Startup { parameters } => {
            lemma_occurs_split(b, 0, i32_bytes(protocol_3_0()), settings_bytes(parameters));
            lemma_i32_item(b, 0, protocol_3_0());
            lemma_settings(b, 4, parameters);
        },
        ClientMessageView::CancelRequest { process_id, secret_key } => {
            lemma_occurs_split(
                b,
                0,
                i32_bytes(cancel_request_code()) + i32_bytes(process_id),
                i32_bytes(secret_key),
            );
            lemma_occurs_split(b, 0, i32_bytes(cancel_request_code()), i32_bytes(process_id));
            lemma_i32_item(b, 0, cancel_request_code());
            lemma_i32_item(b, 4, process_id);
            lemma_i32_item(b, 8, secret_key);
        },
        _ => {},
    }
}

/// Whatever a client can send, a codec in the phase of the message reads
/// the bytes of it, with whatever follows them, as that message and takes
/// exactly those bytes.
pub proof fn lemma_frame_read(m: ClientMessageView, rest: Seq<u8>)
    requires
        m.encodable(),
    ensures
        frame_spec(m.is_startup_packet(), m.wire() + rest) == Ok::<FrameView, ProtocolError>(
            FrameView::Complete(m, m.wire().len() as int),
        ),
{
    lemma_widths();
    let body = m.body();
    let len = (body.len() + 4) as i32;
    let buf = m.wire() + rest;
    lemma_occurs_whole(buf);
    lemma_occurs_split(buf, 0, m.wire(), rest);
    if m.is_startup_packet() {
        lemma_occurs_split(buf, 0, i32_bytes(len), body);
        lemma_i32_item(buf, 0, len);
        assert(buf.subrange(4, len as int) =~= body);
        lemma_startup_read(m);
        assert(body.len() >= 4);
    } else {
        lemma_occurs_split(buf, 0, seq![m.tag()] + i32_bytes(len), body);
        lemma_occurs_split(buf, 0, seq![m.tag()], i32_bytes(len));
        lemma_occurs_index(buf, 0, seq![m.tag()], 0);
        lemma_i32_item(buf, 1, len);
        assert(buf.subrange(5, 1 + len) =~= body);
        lemma_message_read(m);
    }
}

} // verus!
