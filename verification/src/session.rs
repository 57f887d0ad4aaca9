//! The rules of a session, as mathematics: what the server sends and how
//! its state moves for each message, given what the engine answered.

use crate::backend::{BackendMessage, BackendMessageView};
use crate::engine::{Engine, Portal};
use crate::frontend::{ClientMessage, ClientMessageView, DescribeView};
use crate::protocol::{
    ErrorResponse, ErrorResponseView, FieldDescriptionView, FormatCode, ProtocolError,
    RowDescriptionView, Severity, SqlState,
};
use crate::protocol_ext::DataWriterView;
use crate::text::decimal_digits;
use vstd::prelude::*;

verus! {

/// Where a session stands.
#[derive(Clone, Copy, Debug, PartialEq, Eq, Structural)]
pub enum ConnectionState {
    /// Waiting for the startup packet.
    Startup,
    /// Ready for requests.
    Idle,
}

/// Something the server writes to the client.
#[derive(Debug, PartialEq, Eq)]
pub enum Reply {
    /// The single byte `N`: no SSL.
    SslRefusal,
    /// A framed message.
    Message(BackendMessage),
}

/// The mathematical content of a [`Reply`].
pub ghost enum ReplyView {
    SslRefusal,
    Message(BackendMessageView),
}

impl View for Reply {
    type V = ReplyView;

    open spec fn view(&self) -> ReplyView {
        match self {
            Reply::SslRefusal => ReplyView::SslRefusal,
            Reply::Message(m) => ReplyView::Message(m@),
        }
    }
}

impl ReplyView {
    /// Whether the reply can be sent.
    pub open spec fn encodable(self) -> bool {
        match self {
            ReplyView::SslRefusal => true,
            ReplyView::Message(m) => m.encodable(),
        }
    }

    /// The reply on the wire.
    pub open spec fn wire(self) -> Seq<u8> {
        match self {
            ReplyView::SslRefusal => seq![0x4eu8],
            ReplyView::Message(m) => m.wire(),
        }
    }
}

impl Reply {
    /// The reply on the wire, or `None` where it cannot be sent.
    pub fn encode(&self) -> (r: Option<Vec<u8>>)
        ensures
            r is Some <==> self@.encodable(),
            r matches Some(bytes) ==> bytes@ == self@.wire(),
    {
        match self {
            Reply::SslRefusal => {
                let mut out: Vec<u8> = Vec::new();
                out.push(0x4eu8);
                Some(out)
            },
            Reply::Message(m) => m.encode(),
        }
    }
}

/// The replies held by a sequence, one for one.
pub open spec fn replies_view(replies: Seq<Reply>) -> Seq<ReplyView> {
    Seq::new(replies.len(), |i: int| replies[i]@)
}

/// Why a step of a session failed.
#[derive(Debug, PartialEq, Eq)]
pub enum ConnectionError {
    /// The client's bytes were not a message.
    Protocol(ProtocolError),
    /// An error to report to the client. Ends the session where its
    /// severity is fatal.
    ErrorResponse(ErrorResponse),
    /// The connection was closed.
    ConnectionClosed,
}

/// The mathematical content of a [`ConnectionError`].
pub ghost enum ConnectionErrorView {
    Protocol(ProtocolError),
    ErrorResponse(ErrorResponseView),
    ConnectionClosed,
}

impl View for ConnectionError {
    type V = ConnectionErrorView;

    open spec fn view(&self) -> ConnectionErrorView {
        match self {
            ConnectionError::Protocol(e) => ConnectionErrorView::Protocol(*e),
            ConnectionError::ErrorResponse(e) => ConnectionErrorView::ErrorResponse(e@),
            ConnectionError::ConnectionClosed => ConnectionErrorView::ConnectionClosed,
        }
    }
}

/// A prepared statement, as the rules see it.
pub ghost struct StatementView {
    pub statement: Seq<char>,
    pub fields: Seq<FieldDescriptionView>,
}

/// A bound portal, as the rules see it: the engine's handle and the
/// description of the rows it will give.
pub ghost struct PortalView<P> {
    pub portal: P,
    pub row_desc: RowDescriptionView,
}

/// The state of a session, as the rules see it.
pub ghost struct SessionView<P> {
    pub state: ConnectionState,
    pub statements: Map<Seq<char>, StatementView>,
    pub portals: Map<Seq<char>, Option<PortalView<P>>>,
}

impl<P> SessionView<P> {
    /// The same session in another state.
    pub open spec fn in_state(self, state: ConnectionState) -> SessionView<P> {
        SessionView { state, statements: self.statements, portals: self.portals }
    }
}

/// What one step of a session comes to: the state it leaves, what it sent,
/// and where the session goes (`Ok(None)`: it ends in peace).
pub ghost struct Outcome<P> {
    pub post: SessionView<P>,
    pub sent: Seq<ReplyView>,
    pub result: Result<Option<ConnectionState>, ConnectionErrorView>,
}

/// What a portal did when it was run: the handle afterwards, whether it
/// failed, and the writer it filled.
pub ghost struct Fetched<P> {
    pub portal: P,
    pub result: Result<(), ErrorResponseView>,
    pub writer: DataWriterView,
}

/// A framed message as a reply.
pub open spec fn message(m: BackendMessageView) -> ReplyView {
    ReplyView::Message(m)
}

/// One setting of the server, as it is announced after the handshake.
pub open spec fn status(name: Seq<char>, value: Seq<char>) -> ReplyView {
    ReplyView::Message(BackendMessageView::ParameterStatus { name, value })
}

/// What the server sends when it accepts a startup packet, before it asks
/// the engine to start.
pub open spec fn greeting() -> Seq<ReplyView> {
    seq![
        message(BackendMessageView::AuthenticationOk),
        status("server_version"@, "13"@),
        status("server_encoding"@, "UTF8"@),
        status("client_encoding"@, "UTF8"@),
        status("DateStyle"@, "ISO"@),
        status("TimeZone"@, "UTC"@),
        status("integer_datetimes"@, "on"@),
    ]
}

/// A recoverable error of the given class.
pub open spec fn error_view(sql_state: SqlState, message: Seq<char>) -> ErrorResponseView {
    ErrorResponseView { severity: Severity::Error, sql_state, message }
}

/// A fatal error of the given class.
pub open spec fn fatal_view(sql_state: SqlState, message: Seq<char>) -> ErrorResponseView {
    ErrorResponseView { severity: Severity::Fatal, sql_state, message }
}

/// The error for a statement name that nothing was prepared under.
pub open spec fn missing_statement() -> ErrorResponseView {
    error_view(SqlState::InvalidSqlStatementName, "missing statement"@)
}

/// The error for a portal name that nothing was bound to.
pub open spec fn missing_portal() -> ErrorResponseView {
    error_view(SqlState::InvalidCursorName, "missing portal"@)
}

/// The error for a `Bind` that asks for a format per column.
pub open spec fn per_column_formats() -> ErrorResponseView {
    error_view(SqlState::FeatureNotSupported, "per-column format codes not supported"@)
}

/// The error for anything but a startup packet before the handshake.
pub open spec fn expected_startup() -> ErrorResponseView {
    fatal_view(SqlState::ProtocolViolation, "expected startup message"@)
}

/// The error for a message that has no place after the handshake.
pub open spec fn unexpected_message() -> ErrorResponseView {
    fatal_view(SqlState::ProtocolViolation, "unexpected message"@)
}

/// The error sent, as far as it can be, when the connection itself fails.
pub open spec fn connection_error() -> ErrorResponseView {
    fatal_view(SqlState::ConnectionException, "connection error"@)
}

/// The characters of a run of ASCII bytes.
pub open spec fn ascii_chars(bytes: Seq<u8>) -> Seq<char> {
    Seq::new(bytes.len(), |i: int| bytes[i] as char)
}

/// The tag of a finished query: `SELECT`, a space, the number of rows.
pub open spec fn select_tag(rows: nat) -> Seq<char> {
    "SELECT "@ + ascii_chars(decimal_digits(rows))
}

/// One `DataRow` message for each row.
pub open spec fn data_rows(rows: Seq<Seq<Option<Seq<u8>>>>) -> Seq<ReplyView> {
    Seq::new(rows.len(), |i: int| message(BackendMessageView::DataRow(rows[i])))
}

/// The rows of a finished query and its tag.
pub open spec fn result_replies(writer: DataWriterView) -> Seq<ReplyView> {
    data_rows(writer.rows).push(
        message(BackendMessageView::CommandComplete { command_tag: select_tag(writer.rows.len()) }),
    )
}

/// A step that sends `sent` and stays ready.
pub open spec fn goes_on<P>(post: SessionView<P>, sent: Seq<ReplyView>) -> Outcome<P> {
    Outcome { post, sent, result: Ok(Some(ConnectionState::Idle)) }
}

/// A step that fails with `e`, having sent `sent`.
pub open spec fn fails<P>(post: SessionView<P>, sent: Seq<ReplyView>, e: ErrorResponseView) -> Outcome<P> {
    Outcome { post, sent, result: Err(ConnectionErrorView::ErrorResponse(e)) }
}

/// A startup packet: the greeting, then the engine starts, then ready.
pub open spec fn on_startup<P>(pre: SessionView<P>, started: Result<(), ErrorResponseView>) -> Outcome<P> {
    match started {
        Ok(_) => goes_on(pre, greeting().push(message(BackendMessageView::ReadyForQuery))),
        Err(e) => fails(pre, greeting(), e),
    }
}

/// `Parse`: the engine names the columns; the statement takes the place of
/// any under the same name.
pub open spec fn on_parse<P>(
    pre: SessionView<P>,
    name: Seq<char>,
    query: Seq<char>,
    prepared: Result<Seq<FieldDescriptionView>, ErrorResponseView>,
) -> Outcome<P> {
    match prepared {
        Ok(fields) => goes_on(
            SessionView {
                state: pre.state,
                statements: pre.statements.insert(name, StatementView { statement: query, fields }),
                portals: pre.portals,
            },
            seq![message(BackendMessageView::ParseComplete)],
        ),
        Err(e) => fails(pre, Seq::empty(), e),
    }
}

/// The one format for all columns that a `Bind` asks for: text where it
/// names none.
pub open spec fn result_format(formats: Seq<FormatCode>) -> FormatCode {
    if formats.len() == 0 {
        FormatCode::Text
    } else {
        formats[0]
    }
}

/// `Bind`: refused where it names a format per column or a statement that
/// is not there; else the engine makes a portal, which takes the place of
/// any under the same name.
pub open spec fn on_bind<P>(
    pre: SessionView<P>,
    portal: Seq<char>,
    statement: Seq<char>,
    formats: Seq<FormatCode>,
    created: Result<P, ErrorResponseView>,
) -> Outcome<P> {
    if formats.len() > 1 {
        fails(pre, Seq::empty(), per_column_formats())
    } else if !pre.statements.contains_key(statement) {
        fails(pre, Seq::empty(), missing_statement())
    } else {
        match created {
            Ok(handle) => goes_on(
                SessionView {
                    state: pre.state,
                    statements: pre.statements,
                    portals: pre.portals.insert(
                        portal,
                        Some(
                            PortalView {
                                portal: handle,
                                row_desc: RowDescriptionView {
                                    fields: pre.statements[statement].fields,
                                    format_code: result_format(formats),
                                },
                            },
                        ),
                    ),
                },
                seq![message(BackendMessageView::BindComplete)],
            ),
            Err(e) => fails(pre, Seq::empty(), e),
        }
    }
}

/// `Describe`: the columns of a statement, in text format and after an
/// empty list of parameters, or those of a portal; `NoData` for a portal
/// that gives no rows.
pub open spec fn on_describe<P>(pre: SessionView<P>, target: DescribeView) -> Outcome<P> {
    match target {
        DescribeView::PreparedStatement(name) => if pre.statements.contains_key(name) {
            goes_on(
                pre,
                seq![
                    message(BackendMessageView::ParameterDescription),
                    message(
                        BackendMessageView::RowDescription(
                            RowDescriptionView {
                                fields: pre.statements[name].fields,
                                format_code: FormatCode::Text,
                            },
                        ),
                    ),
                ],
            )
        } else {
            fails(pre, Seq::empty(), missing_statement())
        },
        DescribeView::Portal(name) => if pre.portals.contains_key(name) {
            match pre.portals[name] {
                Some(bound) => goes_on(
                    pre,
                    seq![message(BackendMessageView::RowDescription(bound.row_desc))],
                ),
                None => goes_on(pre, seq![message(BackendMessageView::NoData)]),
            }
        } else {
            fails(pre, Seq::empty(), missing_portal())
        },
    }
}

/// `Execute`: the portal runs and all of its rows are sent, then the tag;
/// `EmptyQueryResponse` for a portal that gives no rows.
pub open spec fn on_execute<P>(pre: SessionView<P>, name: Seq<char>, fetched: Fetched<P>) -> Outcome<P> {
    if !pre.portals.contains_key(name) {
        fails(pre, Seq::empty(), missing_portal())
    } else {
        match pre.portals[name] {
            None => goes_on(pre, seq![message(BackendMessageView::EmptyQueryResponse)]),
            Some(bound) => {
                let post = SessionView {
                    state: pre.state,
                    statements: pre.statements,
                    portals: pre.portals.insert(
                        name,
                        Some(PortalView { portal: fetched.portal, row_desc: bound.row_desc }),
                    ),
                };
                match fetched.result {
                    Ok(_) => goes_on(post, result_replies(fetched.writer)),
                    Err(e) => fails(post, Seq::empty(), e),
                }
            },
        }
    }
}

/// What the engine answered to a simple query, call by call: the columns
/// it named, the portal it made, and what running the portal came to. An
/// answer counts as far as the calls went: the first failure ends them.
pub ghost struct Queried<P> {
    pub prepared: Result<Seq<FieldDescriptionView>, ErrorResponseView>,
    pub created: Result<P, ErrorResponseView>,
    pub fetched: Fetched<P>,
}

/// A writer as it is handed to a portal: over the given description, with
/// no rows.
pub open spec fn fresh_writer(row_desc: RowDescriptionView) -> DataWriterView {
    DataWriterView { row_desc, rows: Seq::empty() }
}

/// The description of the rows of a simple query, before the portal is
/// run: the columns that the engine named, in text format.
pub open spec fn query_description(fields: Seq<FieldDescriptionView>) -> RowDescriptionView {
    RowDescriptionView { fields, format_code: FormatCode::Text }
}

/// Whether `fetched` is what running `portal` on the writer `before` can
/// come to: the portal says so, and the writer is left in the format of
/// `before` with every row as wide as its description.
pub open spec fn ran<P: Portal>(portal: P, before: DataWriterView, fetched: Fetched<P>) -> bool {
    &&& portal.fetches(before, &fetched.portal, fetched.writer, fetched.result)
    &&& fetched.writer.wf()
    &&& fetched.writer.row_desc.format_code == before.row_desc.format_code
}

/// Whether `fetched` can be what the engine answered to an `Execute` of
/// the portal `name`: where the name is bound to a portal, that portal was
/// run on a fresh writer over its own description.
pub open spec fn executed<P: Portal>(
    pre: SessionView<P>,
    name: Seq<char>,
    fetched: Fetched<P>,
) -> bool {
    pre.portals.contains_key(name) ==> (pre.portals[name] matches Some(bound) ==> ran(
        bound.portal,
        fresh_writer(bound.row_desc),
        fetched,
    ))
}

/// Whether `answer` can be what the engine answered to a simple query:
/// where it named columns and made a portal, that portal was run on a
/// fresh writer over those columns in text format.
pub open spec fn queried<P: Portal>(answer: Queried<P>) -> bool {
    answer.prepared matches Ok(fields) ==> (answer.created matches Ok(portal) ==> ran(
        portal,
        fresh_writer(query_description(fields)),
        answer.fetched,
    ))
}

/// `Query`: the engine prepares, binds and runs the text in one go; the
/// description that the writer ends with, the rows, the tag, and ready.
/// The first call that fails ends the step with its error.
pub open spec fn on_query<P>(pre: SessionView<P>, answer: Queried<P>) -> Outcome<P> {
    match answer.prepared {
        Err(e) => fails(pre, Seq::empty(), e),
        Ok(_) => match answer.created {
            Err(e) => fails(pre, Seq::empty(), e),
            Ok(_) => match answer.fetched.result {
                Err(e) => fails(pre, Seq::empty(), e),
                Ok(_) => goes_on(
                    pre,
                    seq![
                        message(BackendMessageView::RowDescription(answer.fetched.writer.row_desc)),
                    ] + result_replies(answer.fetched.writer).push(
                        message(BackendMessageView::ReadyForQuery),
                    ),
                ),
            },
        },
    }
}

/// The steps in which the engine has no say.
pub open spec fn on_plain<P>(pre: SessionView<P>, msg: ClientMessageView) -> Outcome<P> {
    match pre.state {
        ConnectionState::Startup => match msg {
            ClientMessageView::SSLRequest => Outcome {
                post: pre,
                sent: seq![ReplyView::SslRefusal],
                result: Ok(Some(ConnectionState::Startup)),
            },
            ClientMessageView::CancelRequest { .. } => Outcome {
                post: pre,
                sent: Seq::empty(),
                result: Ok(None),
            },
            _ => fails(pre, Seq::empty(), expected_startup()),
        },
        ConnectionState::Idle => match msg {
            ClientMessageView::Describe(target) => on_describe(pre, target),
            ClientMessageView::Sync => goes_on(
                pre,
                seq![message(BackendMessageView::ReadyForQuery)],
            ),
            ClientMessageView::Terminate => Outcome {
                post: pre,
                sent: Seq::empty(),
                result: Ok(None),
            },
            _ => fails(pre, Seq::empty(), unexpected_message()),
        },
    }
}

/// Whether `answer` can be what an engine in the state `before` answered
/// to the simple query `sql`, leaving it as `after`: it was asked to name
/// the columns of `sql`; where it did, it was asked for a portal for
/// `sql`; and where it made one, the portal was run as [`queried`] says.
pub open spec fn query_asked<E: Engine>(
    before: E,
    sql: Seq<char>,
    answer: Queried<E::PortalType>,
    after: E,
) -> bool {
    exists|between: E|
        {
            &&& #[trigger] before.prepares(sql, &between, answer.prepared)
            &&& if answer.prepared is Ok {
                between.creates(sql, &after, answer.created)
            } else {
                after == between
            }
            &&& queried(answer)
        }
}

/// Whether an engine in the state `before` was asked, for a `Bind`, for a
/// portal for the text of the statement that the `Bind` names, and
/// answered `created`, leaving it as `after`. A `Bind` that the session
/// refuses by itself asks the engine nothing.
pub open spec fn bind_asked<E: Engine>(
    pre: SessionView<E::PortalType>,
    before: E,
    statement: Seq<char>,
    formats: Seq<FormatCode>,
    created: Result<E::PortalType, ErrorResponseView>,
    after: E,
) -> bool {
    if formats.len() <= 1 && pre.statements.contains_key(statement) {
        before.creates(pre.statements[statement].statement, &after, created)
    } else {
        after == before
    }
}

/// Whether `out` is what a step on `msg` from `pre` can come to, with the
/// engine in the state `before` and left as `after`: for some answer of
/// the engine to what the step asks it, and with the engine as it was
/// where the step asks it nothing.
pub open spec fn step_spec<E: Engine>(
    pre: SessionView<E::PortalType>,
    before: E,
    msg: ClientMessageView,
    out: Outcome<E::PortalType>,
    after: E,
) -> bool {
    match (pre.state, msg) {
        (ConnectionState::Startup, ClientMessageView::Startup { .. }) => exists|
            started: Result<(), ErrorResponseView>,
        |
            before.starts(&after, started) && out == on_startup(pre, started),
        (
            ConnectionState::Idle,
            ClientMessageView::Parse { prepared_statement_name, query, .. },
        ) => exists|prepared: Result<Seq<FieldDescriptionView>, ErrorResponseView>|
            before.prepares(query, &after, prepared) && out == on_parse(
                pre,
                prepared_statement_name,
                query,
                prepared,
            ),
        (
            ConnectionState::Idle,
            ClientMessageView::Bind { portal, prepared_statement_name, result_formats, .. },
        ) => exists|created: Result<E::PortalType, ErrorResponseView>|
            bind_asked(pre, before, prepared_statement_name, result_formats, created, after)
                && out == on_bind(pre, portal, prepared_statement_name, result_formats, created),
        (ConnectionState::Idle, ClientMessageView::Execute { portal, .. }) => exists|
            fetched: Fetched<E::PortalType>,
        |
            after == before && executed(pre, portal, fetched) && out == on_execute(
                pre,
                portal,
                fetched,
            ),
        (ConnectionState::Idle, ClientMessageView::Query(sql)) => exists|
            answer: Queried<E::PortalType>,
        |
            query_asked(before, sql, answer, after) && out == on_query(pre, answer),
        _ => after == before && out == on_plain(pre, msg),
    }
}

/// What reaches a session from its connection.
#[derive(Debug, PartialEq, Eq)]
pub enum Event {
    /// A message of the client.
    Message(ClientMessage),
    /// Bytes that are no message.
    Malformed(ProtocolError),
    /// The client closed the connection between two messages.
    Eof,
    /// Reading or writing failed.
    IoFailure,
}

/// The mathematical content of an [`Event`].
pub ghost enum EventView {
    Message(ClientMessageView),
    Malformed(ProtocolError),
    Eof,
    IoFailure,
}

impl View for Event {
    type V = EventView;

    open spec fn view(&self) -> EventView {
        match self {
            Event::Message(m) => EventView::Message(m@),
            Event::Malformed(e) => EventView::Malformed(*e),
            Event::Eof => EventView::Eof,
            Event::IoFailure => EventView::IoFailure,
        }
    }
}

/// Whether the session goes on.
#[derive(Debug, PartialEq, Eq)]
pub enum Next {
    /// Read the next message.
    Continue,
    /// Close the connection; the session ends with this result.
    Close(Result<(), ConnectionError>),
}

/// The mathematical content of a [`Next`].
pub ghost enum NextView {
    Continue,
    Close(Result<(), ConnectionErrorView>),
}

impl View for Next {
    type V = NextView;

    open spec fn view(&self) -> NextView {
        match self {
            Next::Continue => NextView::Continue,
            Next::Close(Ok(_)) => NextView::Close(Ok(())),
            Next::Close(Err(e)) => NextView::Close(Err(e@)),
        }
    }
}

/// What a session does about an event: what it writes, in order, and
/// whether it goes on.
#[derive(Debug, PartialEq, Eq)]
pub struct Reaction {
    pub replies: Vec<Reply>,
    pub next: Next,
}

/// A reaction together with the state it leaves, as the rules see it.
pub ghost struct ReactionView<P> {
    pub post: SessionView<P>,
    pub replies: Seq<ReplyView>,
    pub next: NextView,
}

/// An error as a reply.
pub open spec fn error_reply(e: ErrorResponseView) -> ReplyView {
    message(BackendMessageView::ErrorResponse(e))
}

/// The reply that reports the session ready.
pub open spec fn ready() -> ReplyView {
    message(BackendMessageView::ReadyForQuery)
}

/// The reaction to a connection that failed: the error is sent as far as
/// it can be, and the session ends with `e`.
pub open spec fn gives_up<P>(pre: SessionView<P>, sent: Seq<ReplyView>, e: ConnectionErrorView) -> ReactionView<P> {
    ReactionView {
        post: pre,
        replies: sent.push(error_reply(connection_error())),
        next: NextView::Close(Err(e)),
    }
}

/// What becomes of a step: the session moves to the state the step names;
/// a recoverable error is reported and followed by ready, and the session
/// is idle; a fatal error is reported and ends the session.
pub open spec fn settle<P>(out: Outcome<P>) -> ReactionView<P> {
    match out.result {
        Ok(Some(state)) => ReactionView {
            post: out.post.in_state(state),
            replies: out.sent,
            next: NextView::Continue,
        },
        Ok(None) => ReactionView { post: out.post, replies: out.sent, next: NextView::Close(Ok(())) },
        Err(ConnectionErrorView::ErrorResponse(e)) => if e.severity == Severity::Fatal {
            ReactionView {
                post: out.post,
                replies: out.sent.push(error_reply(e)),
                next: NextView::Close(Err(ConnectionErrorView::ErrorResponse(e))),
            }
        } else {
            ReactionView {
                post: out.post.in_state(ConnectionState::Idle),
                replies: out.sent.push(error_reply(e)).push(ready()),
                next: NextView::Continue,
            }
        },
        Err(other) => gives_up(out.post, out.sent, other),
    }
}

/// Whether `r` is what a session in `pre` can do about `event`, with its
/// engine in the state `before` and left as `after`.
pub open spec fn react_spec<E: Engine>(
    pre: SessionView<E::PortalType>,
    before: E,
    event: EventView,
    r: ReactionView<E::PortalType>,
    after: E,
) -> bool {
    match event {
        EventView::Message(msg) => exists|out: Outcome<E::PortalType>| #[trigger]
            step_spec(pre, before, msg, out, after) && r == settle(out),
        EventView::Malformed(e) => after == before && r == gives_up(
            pre,
            Seq::empty(),
            ConnectionErrorView::Protocol(e),
        ),
        EventView::Eof => after == before && if pre.state == ConnectionState::Idle {
            r == (ReactionView { post: pre, replies: Seq::empty(), next: NextView::Close(Ok(())) })
        } else {
            r == gives_up(pre, Seq::empty(), ConnectionErrorView::ConnectionClosed)
        },
        EventView::IoFailure => after == before && r == gives_up(
            pre,
            Seq::empty(),
            ConnectionErrorView::ConnectionClosed,
        ),
    }
}

} // verus!
