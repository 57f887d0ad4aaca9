//! The messages that a client sends.

use crate::protocol::{cells_view, FormatCode, ProtocolError};
use crate::wire::{
    at_end, count_item, cstr_at, i16_item, i32_item, i32_list, lemma_cstr_at_advances,
    read_cstr, take_count, take_i16, take_i32,
    take_i32_list, take_value_list, value_list, };
use vstd::prelude::*;

verus! {

/// The first packet of a session: protocol 3.0 and the client's settings.
#[derive(Debug, PartialEq, Eq)]
pub struct Startup {
    pub parameters: Vec<(String, String)>,
}

/// The settings held by a sequence of pairs, one for one.
pub open spec fn parameters_view(p: Seq<(String, String)>) -> Seq<(Seq<char>, Seq<char>)> {
    Seq::new(p.len(), |i: int| (p[i].0@, p[i].1@))
}

/// Asks the server to prepare a statement under a name.
#[derive(Debug, PartialEq, Eq)]
pub struct Parse {
    pub prepared_statement_name: String,
    pub query: String,
    pub parameter_types: Vec<i32>,
}

/// Asks the server to bind a prepared statement to a portal.
#[derive(Debug, PartialEq, Eq)]
pub struct Bind {
    pub portal: String,
    pub prepared_statement_name: String,
    pub parameter_formats: Vec<FormatCode>,
    pub parameters: Vec<Option<Vec<u8>>>,
    pub result_formats: Vec<FormatCode>,
}

/// Asks the server to describe a statement or a portal.
#[derive(Debug, PartialEq, Eq)]
pub enum Describe {
    Portal(String),
    PreparedStatement(String),
}

/// Asks the server to run a portal.
#[derive(Debug, PartialEq, Eq)]
pub struct Execute {
    pub portal: String,
    pub max_rows: i32,
}

/// A message from the client to the server.
#[derive(Debug, PartialEq, Eq)]
pub enum ClientMessage {
    SSLRequest,
    Startup(Startup),
    CancelRequest { process_id: i32, secret_key: i32 },
    Parse(Parse),
    Describe(Describe),
    Bind(Bind),
    Sync,
    Execute(Execute),
    Query(String),
    Terminate,
}

/// The mathematical content of a [`Describe`].
pub ghost enum DescribeView {
    Portal(Seq<char>),
    PreparedStatement(Seq<char>),
}

/// The mathematical content of a [`ClientMessage`].
pub ghost enum ClientMessageView {
    SSLRequest,
    Startup { parameters: Seq<(Seq<char>, Seq<char>)> },
    CancelRequest { process_id: i32, secret_key: i32 },
    Parse { prepared_statement_name: Seq<char>, query: Seq<char>, parameter_types: Seq<i32> },
    Describe(DescribeView),
    Bind {
        portal: Seq<char>,
        prepared_statement_name: Seq<char>,
        parameter_formats: Seq<FormatCode>,
        parameter_values: Seq<Option<Seq<u8>>>,
        result_formats: Seq<FormatCode>,
    },
    Sync,
    Execute { portal: Seq<char>, max_rows: i32 },
    Query(Seq<char>),
    Terminate,
}

impl View for Describe {
    type V = DescribeView;

    open spec fn view(&self) -> DescribeView {
        match self {
            Describe::Portal(name) => DescribeView::Portal(name@),
            Describe::PreparedStatement(name) => DescribeView::PreparedStatement(name@),
        }
    }
}

impl View for ClientMessage {
    type V = ClientMessageView;

    open spec fn view(&self) -> ClientMessageView {
        match self {
            ClientMessage::SSLRequest => ClientMessageView::SSLRequest,
            ClientMessage::Startup(s) => ClientMessageView::Startup {
                parameters: parameters_view(s.parameters@),
            },
            ClientMessage::CancelRequest {
                process_id,
                secret_key,
            } => ClientMessageView::CancelRequest {
                process_id: *process_id,
                secret_key: *secret_key,
            },
            ClientMessage::Parse(p) => ClientMessageView::Parse {
                prepared_statement_name: p.prepared_statement_name@,
                query: p.query@,
                parameter_types: p.parameter_types@,
            },
            ClientMessage::Describe(d) => ClientMessageView::Describe(d@),
            ClientMessage::Bind(b) => ClientMessageView::Bind {
                portal: b.portal@,
                prepared_statement_name: b.prepared_statement_name@,
                parameter_formats: b.parameter_formats@,
                parameter_values: cells_view(b.parameters@),
                result_formats: b.result_formats@,
            },
            ClientMessage::Sync => ClientMessageView::Sync,
            ClientMessage::Execute(e) => ClientMessageView::Execute {
                portal: e.portal@,
                max_rows: e.max_rows,
            },
            ClientMessage::Query(q) => ClientMessageView::Query(q@),
            ClientMessage::Terminate => ClientMessageView::Terminate,
        }
    }
}

/// A format code: 0 for text, 1 for binary, anything else a `BadTag`.
pub open spec fn format_item(b: Seq<u8>, at: int) -> Result<(FormatCode, int), ProtocolError> {
    match i16_item(b, at) {
        Err(e) => Err(e),
        Ok((code, next)) => match FormatCode::spec_from_code(code) {
            Some(format) => Ok((format, next)),
            None => Err(ProtocolError::BadTag),
        },
    }
}

/// `n` format codes, one after the other from `at`.
pub open spec fn format_list(b: Seq<u8>, at: int, n: nat) -> Result<
    (Seq<FormatCode>, int),
    ProtocolError,
>
    decreases n,
{
    if n == 0 {
        Ok((Seq::empty(), at))
    } else {
        match format_list(b, at, (n - 1) as nat) {
            Err(e) => Err(e),
            Ok((items, next)) => match format_item(b, next) {
                Err(e) => Err(e),
                Ok((item, end)) => Ok((items.push(item), end)),
            },
        }
    }
}

/// A list that fails at some length fails the same way at every greater
/// length.
pub proof fn lemma_format_list_fails(b: Seq<u8>, at: int, k: nat, n: nat)
    requires
        format_list(b, at, k) is Err,
        k <= n,
    ensures
        format_list(b, at, n) == format_list(b, at, k),
    decreases n,
{
    if k < n {
        lemma_format_list_fails(b, at, k, (n - 1) as nat);
    }
}

/// A counted list of format codes.
pub open spec fn counted_formats(b: Seq<u8>, at: int) -> Result<
    (Seq<FormatCode>, int),
    ProtocolError,
> {
    match count_item(b, at) {
        Err(e) => Err(e),
        Ok((n, next)) => format_list(b, next, n),
    }
}

/// A counted list of values with their lengths.
pub open spec fn counted_values(b: Seq<u8>, at: int) -> Result<
    (Seq<Option<Seq<u8>>>, int),
    ProtocolError,
> {
    match count_item(b, at) {
        Err(e) => Err(e),
        Ok((n, next)) => value_list(b, next, n),
    }
}

/// A counted list of 32-bit values.
pub open spec fn counted_i32s(b: Seq<u8>, at: int) -> Result<(Seq<i32>, int), ProtocolError> {
    match count_item(b, at) {
        Err(e) => Err(e),
        Ok((n, next)) => i32_list(b, next, n),
    }
}

/// The body of `Parse`: the statement's name, the query, and the counted
/// types of its parameters.
pub open spec fn parse_body(b: Seq<u8>) -> Result<ClientMessageView, ProtocolError> {
    match cstr_at(b, 0) {
        Err(e) => Err(e),
        Ok((prepared_statement_name, p1)) => match cstr_at(b, p1) {
            Err(e) => Err(e),
            Ok((query, p2)) => match counted_i32s(b, p2) {
                Err(e) => Err(e),
                Ok((parameter_types, p3)) => at_end(
                    b,
                    p3,
                    ClientMessageView::Parse { prepared_statement_name, query, parameter_types },
                ),
            },
        },
    }
}

/// The body of `Bind`: the portal's name, the statement's name, the
/// counted formats of the parameters, the counted parameters, and the
/// counted formats of the result.
pub open spec fn bind_body(b: Seq<u8>) -> Result<ClientMessageView, ProtocolError> {
    match cstr_at(b, 0) {
        Err(e) => Err(e),
        Ok((portal, p1)) => match cstr_at(b, p1) {
            Err(e) => Err(e),
            Ok((prepared_statement_name, p2)) => match counted_formats(b, p2) {
                Err(e) => Err(e),
                Ok((parameter_formats, p3)) => match counted_values(b, p3) {
                    Err(e) => Err(e),
                    Ok((parameter_values, p4)) => match counted_formats(b, p4) {
                        Err(e) => Err(e),
                        Ok((result_formats, p5)) => at_end(
                            b,
                            p5,
                            ClientMessageView::Bind {
                                portal,
                                prepared_statement_name,
                                parameter_formats,
                                parameter_values,
                                result_formats,
                            },
                        ),
                    },
                },
            },
        },
    }
}

/// The body of `Describe`: `S` for a statement or `P` for a portal, then
/// the name.
pub open spec fn describe_body(b: Seq<u8>) -> Result<ClientMessageView, ProtocolError> {
    if b.len() == 0 {
        Err(ProtocolError::ShortRead)
    } else if b[0] != 0x53 && b[0] != 0x50 {
        Err(ProtocolError::BadTag)
    } else {
        match cstr_at(b, 1) {
            Err(e) => Err(e),
            Ok((name, p1)) => at_end(
                b,
                p1,
                ClientMessageView::Describe(
                    if b[0] == 0x53 {
                        DescribeView::PreparedStatement(name)
                    } else {
                        DescribeView::Portal(name)
                    },
                ),
            ),
        }
    }
}

/// The body of `Execute`: the portal's name and the most rows wanted.
pub open spec fn execute_body(b: Seq<u8>) -> Result<ClientMessageView, ProtocolError> {
    match cstr_at(b, 0) {
        Err(e) => Err(e),
        Ok((portal, p1)) => match i32_item(b, p1) {
            Err(e) => Err(e),
            Ok((max_rows, p2)) => at_end(b, p2, ClientMessageView::Execute { portal, max_rows }),
        },
    }
}

/// The body of `Query`: the text.
pub open spec fn query_body(b: Seq<u8>) -> Result<ClientMessageView, ProtocolError> {
    match cstr_at(b, 0) {
        Err(e) => Err(e),
        Ok((sql, p1)) => at_end(b, p1, ClientMessageView::Query(sql)),
    }
}

/// The message with tag `tag` and body `b`. `P`, `B`, `D`, `E`, `S`, `Q`
/// and `X` are known; any other tag is a `BadTag`.
pub open spec fn message_spec(tag: u8, b: Seq<u8>) -> Result<ClientMessageView, ProtocolError> {
    if tag == 0x50 {
        parse_body(b)
    } else if tag == 0x42 {
        bind_body(b)
    } else if tag == 0x44 {
        describe_body(b)
    } else if tag == 0x45 {
        execute_body(b)
    } else if tag == 0x53 {
        at_end(b, 0, ClientMessageView::Sync)
    } else if tag == 0x51 {
        query_body(b)
    } else if tag == 0x58 {
        at_end(b, 0, ClientMessageView::Terminate)
    } else {
        Err(ProtocolError::BadTag)
    }
}

/// The settings of a startup packet from `at`: pairs of name and value up
/// to a name that is empty.
pub open spec fn settings_at(b: Seq<u8>, at: int) -> Result<
    (Seq<(Seq<char>, Seq<char>)>, int),
    ProtocolError,
>
    decreases b.len() - at,
{
    match cstr_at(b, at) {
        Err(e) => Err(e),
        Ok((name, p1)) => if name.len() == 0 {
            Ok((Seq::empty(), p1))
        } else {
            match cstr_at(b, p1) {
                Err(e) => Err(e),
                Ok((value, p2)) => {
                    proof {
                        lemma_cstr_at_advances(b, at);
                        lemma_cstr_at_advances(b, p1);
                    }
                    match settings_at(b, p2) {
                        Err(e) => Err(e),
                        Ok((rest, end)) => Ok((seq![(name, value)] + rest, end)),
                    }
                },
            }
        },
    }
}

/// The number that stands for protocol 3.0.
pub open spec fn protocol_3_0() -> i32 {
    196608
}

/// The number that stands for a request for SSL.
pub open spec fn ssl_request_code() -> i32 {
    80877103
}

/// The number that stands for a request to cancel.
pub open spec fn cancel_request_code() -> i32 {
    80877102
}

/// A packet of the startup phase, without its length: a number that says
/// what it is, then the settings of a session, nothing, or the process and
/// key of the query to cancel. Any other number is a `BadMagic`.
pub open spec fn startup_spec(b: Seq<u8>) -> Result<ClientMessageView, ProtocolError> {
    match i32_item(b, 0) {
        Err(e) => Err(e),
        Ok((code, p1)) => if code == protocol_3_0() {
            match settings_at(b, p1) {
                Err(e) => Err(e),
                Ok((parameters, p2)) => at_end(b, p2, ClientMessageView::Startup { parameters }),
            }
        } else if code == ssl_request_code() {
            at_end(b, p1, ClientMessageView::SSLRequest)
        } else if code == cancel_request_code() {
            match i32_item(b, p1) {
                Err(e) => Err(e),
                Ok((process_id, p2)) => match i32_item(b, p2) {
                    Err(e) => Err(e),
                    Ok((secret_key, p3)) => at_end(
                        b,
                        p3,
                        ClientMessageView::CancelRequest { process_id, secret_key },
                    ),
                },
            }
        } else {
            Err(ProtocolError::BadMagic)
        },
    }
}

/// Whether `r` is the message, or the error, that `expected` names.
pub open spec fn decoded(
    r: Result<ClientMessage, ProtocolError>,
    expected: Result<ClientMessageView, ProtocolError>,
) -> bool {
    match expected {
        Ok(v) => r matches Ok(m) && m@ == v,
        Err(e) => r matches Err(got) && got == e,
    }
}

/// Reads a format code at `at`.
fn take_format(b: &[u8], at: usize) -> (r: Result<(FormatCode, usize), ProtocolError>)
    requires
        at <= b@.len(),
    ensures
        match format_item(b@, at as int) {
            Ok((v, next)) => r matches Ok((got, n)) && got == v && n == next && next <= b@.len(),
            Err(e) => r matches Err(got) && got == e,
        },
{
    match take_i16(b, at) {
        Err(e) => Err(e),
        Ok((code, next)) => match FormatCode::from_code(code) {
            Some(format) => Ok((format, next)),
            None => Err(ProtocolError::BadTag),
        },
    }
}

/// Reads a counted list of format codes at `at`.
fn take_formats(b: &[u8], at: usize) -> (r: Result<(Vec<FormatCode>, usize), ProtocolError>)
    requires
        at <= b@.len(),
    ensures
        match counted_formats(b@, at as int) {
            Ok((items, next)) => r matches Ok((got, m)) && got@ == items && m == next && next
                <= b@.len(),
            Err(e) => r matches Err(got) && got == e,
        },
{
    let (n, start) = match take_count(b, at) {
        Err(e) => {
            return Err(e);
        },
        Ok(x) => x,
    };
    let mut items: Vec<FormatCode> = Vec::new();
    let mut pos: usize = start;
    let mut i: usize = 0;
    while i < n
        invariant
            i <= n,
            pos <= b@.len(),
            count_item(b@, at as int) == Ok::<(nat, int), ProtocolError>(
                (n as nat, start as int),
            ),
            format_list(b@, start as int, i as nat) == Ok::<(Seq<FormatCode>, int), ProtocolError>(
                (items@, pos as int),
            ),
        decreases n - i,
    {
        match take_format(b, pos) {
            Err(e) => {
                proof {
                    lemma_format_list_fails(b@, start as int, (i + 1) as nat, n as nat);
                }
                return Err(e);
            },
            Ok((item, next)) => {
                items.push(item);
                pos = next;
            },
        }
        i += 1;
    }
    Ok((items, pos))
}

/// The value read, where the reading ended where the message does.
fn finish(b: &[u8], pos: usize, m: ClientMessage) -> (r: Result<ClientMessage, ProtocolError>)
    ensures
        decoded(r, at_end(b@, pos as int, m@)),
{
    if pos == b.len() {
        Ok(m)
    } else {
        Err(ProtocolError::LengthMismatch)
    }
}

/// Reads the body of `Parse`.
fn decode_parse(b: &[u8]) -> (r: Result<ClientMessage, ProtocolError>)
    ensures
        decoded(r, parse_body(b@)),
{
    let (prepared_statement_name, p1) = match read_cstr(b, 0) {
        Err(e) => {
            return Err(e);
        },
        Ok(x) => x,
    };
    proof {
        lemma_cstr_at_advances(b@, 0);
    }
    let (query, p2) = match read_cstr(b, p1) {
        Err(e) => {
            return Err(e);
        },
        Ok(x) => x,
    };
    proof {
        lemma_cstr_at_advances(b@, p1 as int);
    }
    let (n, p3) = match take_count(b, p2) {
        Err(e) => {
            return Err(e);
        },
        Ok(x) => x,
    };
    let (parameter_types, p4) = match take_i32_list(b, p3, n) {
        Err(e) => {
            return Err(e);
        },
        Ok(x) => x,
    };
    finish(b, p4, ClientMessage::Parse(Parse { prepared_statement_name, query, parameter_types }))
}

/// Reads the body of `Bind`.
fn decode_bind(b: &[u8]) -> (r: Result<ClientMessage, ProtocolError>)
    ensures
        decoded(r, bind_body(b@)),
{
    let (portal, p1) = match read_cstr(b, 0) {
        Err(e) => {
            return Err(e);
        },
        Ok(x) => x,
    };
    proof {
        lemma_cstr_at_advances(b@, 0);
    }
    let (prepared_statement_name, p2) = match read_cstr(b, p1) {
        Err(e) => {
            return Err(e);
        },
        Ok(x) => x,
    };
    proof {
        lemma_cstr_at_advances(b@, p1 as int);
    }
    let (parameter_formats, p3) = match take_formats(b, p2) {
        Err(e) => {
            return Err(e);
        },
        Ok(x) => x,
    };
    let (n, p4) = match take_count(b, p3) {
        Err(e) => {
            return Err(e);
        },
        Ok(x) => x,
    };
    let (parameters, p5) = match take_value_list(b, p4, n) {
        Err(e) => {
            return Err(e);
        },
        Ok(x) => x,
    };
    let (result_formats, p6) = match take_formats(b, p5) {
        Err(e) => {
            return Err(e);
        },
        Ok(x) => x,
    };
    finish(
        b,
        p6,
        ClientMessage::Bind(
            Bind { portal, prepared_statement_name, parameter_formats, parameters, result_formats },
        ),
    )
}

/// Reads the body of `Describe`.
fn decode_describe(b: &[u8]) -> (r: Result<ClientMessage, ProtocolError>)
    ensures
        decoded(r, describe_body(b@)),
{
    if b.len() == 0 {
        return Err(ProtocolError::ShortRead);
    }
    let kind = b[0];
    if kind != 0x53 && kind != 0x50 {
        return Err(ProtocolError::BadTag);
    }
    let (name, p1) = match read_cstr(b, 1) {
        Err(e) => {
            return Err(e);
        },
        Ok(x) => x,
    };
    let target = if kind == 0x53 {
        Describe::PreparedStatement(name)
    } else {
        Describe::Portal(name)
    };
    finish(b, p1, ClientMessage::Describe(target))
}

/// Reads the body of `Execute`.
fn decode_execute(b: &[u8]) -> (r: Result<ClientMessage, ProtocolError>)
    ensures
        decoded(r, execute_body(b@)),
{
    let (portal, p1) = match read_cstr(b, 0) {
        Err(e) => {
            return Err(e);
        },
        Ok(x) => x,
    };
    proof {
        lemma_cstr_at_advances(b@, 0);
    }
    let (max_rows, p2) = match take_i32(b, p1) {
        Err(e) => {
            return Err(e);
        },
        Ok(x) => x,
    };
    finish(b, p2, ClientMessage::Execute(Execute { portal, max_rows }))
}

/// Reads the body of `Query`.
fn decode_query(b: &[u8]) -> (r: Result<ClientMessage, ProtocolError>)
    ensures
        decoded(r, query_body(b@)),
{
    let (sql, p1) = match read_cstr(b, 0) {
        Err(e) => {
            return Err(e);
        },
        Ok(x) => x,
    };
    finish(b, p1, ClientMessage::Query(sql))
}

/// Reads the message with tag `tag` from its body.
pub fn decode_message(tag: u8, body: &[u8]) -> (r: Result<ClientMessage, ProtocolError>)
    ensures
        decoded(r, message_spec(tag, body@)),
{
    if tag == 0x50 {
        decode_parse(body)
    } else if tag == 0x42 {
        decode_bind(body)
    } else if tag == 0x44 {
        decode_describe(body)
    } else if tag == 0x45 {
        decode_execute(body)
    } else if tag == 0x53 {
        finish(body, 0, ClientMessage::Sync)
    } else if tag == 0x51 {
        decode_query(body)
    } else if tag == 0x58 {
        finish(body, 0, ClientMessage::Terminate)
    } else {
        Err(ProtocolError::BadTag)
    }
}

/// What was read before, then what is read from here on.
pub open spec fn after(
    before: Seq<(Seq<char>, Seq<char>)>,
    rest: Result<(Seq<(Seq<char>, Seq<char>)>, int), ProtocolError>,
) -> Result<(Seq<(Seq<char>, Seq<char>)>, int), ProtocolError> {
    match rest {
        Ok((pairs, end)) => Ok((before + pairs, end)),
        Err(e) => Err(e),
    }
}

/// Reads the settings of a startup packet from `at`.
fn take_settings(b: &[u8], at: usize) -> (r: Result<(Vec<(String, String)>, usize), ProtocolError>)
    requires
        at <= b@.len(),
    ensures
        match settings_at(b@, at as int) {
            Ok((pairs, next)) => r matches Ok((got, m)) && parameters_view(got@) == pairs && m
                == next && next <= b@.len(),
            Err(e) => r matches Err(got) && got == e,
        },
{
    let mut pairs: Vec<(String, String)> = Vec::new();
    let mut pos: usize = at;
    assert(after(Seq::empty(), settings_at(b@, at as int)) == settings_at(b@, at as int)) by {
        match settings_at(b@, at as int) {
            Ok((p, e)) => assert(Seq::<(Seq<char>, Seq<char>)>::empty() + p =~= p),
            Err(_) => {},
        }
    }
    loop
        invariant
            pos <= b@.len(),
            settings_at(b@, at as int) == after(
                parameters_view(pairs@),
                settings_at(b@, pos as int),
            ),
        decreases b@.len() - pos,
    {
        let (name, p1) = match read_cstr(b, pos) {
            Err(e) => {
                return Err(e);
            },
            Ok(x) => x,
        };
        proof {
            lemma_cstr_at_advances(b@, pos as int);
        }
        if name.as_str().is_empty() {
            return Ok((pairs, p1));
        }
        let (value, p2) = match read_cstr(b, p1) {
            Err(e) => {
                return Err(e);
            },
            Ok(x) => x,
        };
        proof {
            lemma_cstr_at_advances(b@, p1 as int);
            let so_far = parameters_view(pairs@);
            let pair = (name@, value@);
            match settings_at(b@, p2 as int) {
                Ok((rest, end)) => {
                    assert(so_far + (seq![pair] + rest) =~= so_far.push(pair) + rest);
                },
                Err(_) => {},
            }
        }
        let ghost so_far = parameters_view(pairs@);
        let ghost pair = (name@, value@);
        pairs.push((name, value));
        assert(parameters_view(pairs@) =~= so_far.push(pair));
        pos = p2;
    }
}

/// Reads a packet of the startup phase, without its length.
pub fn decode_startup(b: &[u8]) -> (r: Result<ClientMessage, ProtocolError>)
    ensures
        decoded(r, startup_spec(b@)),
{
    let (code, p1) = match take_i32(b, 0) {
        Err(e) => {
            return Err(e);
        },
        Ok(x) => x,
    };
    if code == 196608 {
        let (parameters, p2) = match take_settings(b, p1) {
            Err(e) => {
                return Err(e);
            },
            Ok(x) => x,
        };
        finish(b, p2, ClientMessage::Startup(Startup { parameters }))
    } else if code == 80877103 {
        finish(b, p1, ClientMessage::SSLRequest)
    } else if code == 80877102 {
        let (process_id, p2) = match take_i32(b, p1) {
            Err(e) => {
                return Err(e);
            },
            Ok(x) => x,
        };
        let (secret_key, p3) = match take_i32(b, p2) {
            Err(e) => {
                return Err(e);
            },
            Ok(x) => x,
        };
        finish(b, p3, ClientMessage::CancelRequest { process_id, secret_key })
    } else {
        Err(ProtocolError::BadMagic)
    }
}

} // verus!
