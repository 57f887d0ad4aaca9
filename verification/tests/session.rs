use pg_wire::backend::BackendMessage;
use pg_wire::codec::{ConnectionCodec, Frame};
use pg_wire::connection::{
    command_complete, complete_execute, complete_query, complete_startup, decimal_string,
    execute_writer, greeting_replies, query_writer, BindPlan, Connection, Step,
};
use pg_wire::engine::{Engine, Portal};
use pg_wire::frontend::{Bind, ClientMessage, Describe, Execute, Parse, Startup};
use pg_wire::protocol::{
    DataRow, DataTypeOid, ErrorResponse, FieldDescription, FormatCode, ProtocolError,
    RowDescription, Severity, SqlState,
};
use pg_wire::protocol_ext::DataWriter;
use pg_wire::session::{ConnectionError, ConnectionState, Event, Next, Reaction, Reply};
use std::sync::atomic::{AtomicUsize, Ordering};
use std::sync::Arc;

/// A portal that gives the numbers from 1 to `rows`, and counts how often
/// portals of its engine were let go.
struct CountingPortal {
    rows: i32,
    fields: Option<Vec<FieldDescription>>,
    fail: Option<ErrorResponse>,
    fetched: Arc<AtomicUsize>,
    released: Arc<AtomicUsize>,
}

impl Drop for CountingPortal {
    fn drop(&mut self) {
        self.released.fetch_add(1, Ordering::SeqCst);
    }
}

impl Portal for CountingPortal {
    fn fetch(&mut self, w: &mut DataWriter) -> Result<(), ErrorResponse> {
        self.fetched.fetch_add(1, Ordering::SeqCst);
        if let Some(e) = &self.fail {
            return Err(e.clone());
        }
        if let Some(fields) = &self.fields {
            w.set_fields(fields.clone());
        }
        let columns = w.row_desc().fields.len();
        for n in 1..=self.rows {
            let mut row = w.create_row();
            for _ in 0..columns {
                row.write_int4(n);
            }
            w.finish_row(row);
        }
        Ok(())
    }
}

/// An engine that understands a handful of statements.
struct TestEngine {
    startup: Result<(), ErrorResponse>,
    started: usize,
    prepared: Vec<String>,
    created: Vec<String>,
    fetched: Arc<AtomicUsize>,
    released: Arc<AtomicUsize>,
}

impl TestEngine {
    fn new() -> Self {
        TestEngine {
            startup: Ok(()),
            started: 0,
            prepared: Vec::new(),
            created: Vec::new(),
            fetched: Arc::new(AtomicUsize::new(0)),
            released: Arc::new(AtomicUsize::new(0)),
        }
    }
}

fn int4(name: &str) -> FieldDescription {
    FieldDescription { name: name.to_string(), data_type: DataTypeOid::Int4 }
}

impl Engine for TestEngine {
    type PortalType = CountingPortal;

    fn startup(&mut self) -> Result<(), ErrorResponse> {
        self.started += 1;
        self.startup.clone()
    }

    fn prepare(&mut self, query: &String) -> Result<Vec<FieldDescription>, ErrorResponse> {
        self.prepared.push(query.clone());
        match query.as_str() {
            "SELECT 1" => Ok(vec![int4("?column?")]),
            "SELECT a, b" => Ok(vec![int4("a"), int4("b")]),
            "LATE" | "FAIL FETCH" | "FAIL PORTAL" | "FATAL FETCH" => Ok(vec![]),
            _ => Err(ErrorResponse::error(SqlState::SyntaxError, "syntax error")),
        }
    }

    fn create_portal(&mut self, query: &String) -> Result<CountingPortal, ErrorResponse> {
        self.created.push(query.clone());
        let portal = |rows, fields, fail| CountingPortal {
            rows,
            fields,
            fail,
            fetched: self.fetched.clone(),
            released: self.released.clone(),
        };
        match query.as_str() {
            "SELECT 1" => Ok(portal(1, None, None)),
            "SELECT a, b" => Ok(portal(3, None, None)),
            "LATE" => Ok(portal(2, Some(vec![int4("late")]), None)),
            "FAIL FETCH" => Ok(portal(
                0,
                None,
                Some(ErrorResponse::error(SqlState::DataException, "no data")),
            )),
            "FATAL FETCH" => Ok(portal(
                0,
                None,
                Some(ErrorResponse::fatal(SqlState::ConnectionException, "gone")),
            )),
            _ => Err(ErrorResponse::error(SqlState::ConnectionException, "no portal")),
        }
    }
}

fn message(m: BackendMessage) -> Reply {
    Reply::Message(m)
}

fn ready() -> Reply {
    message(BackendMessage::ReadyForQuery)
}

fn error(e: ErrorResponse) -> Reply {
    message(BackendMessage::ErrorResponse(e))
}

fn status(name: &str, value: &str) -> Reply {
    message(BackendMessage::ParameterStatus { name: name.to_string(), value: value.to_string() })
}

fn greeting() -> Vec<Reply> {
    vec![
        message(BackendMessage::AuthenticationOk),
        status("server_version", "13"),
        status("server_encoding", "UTF8"),
        status("client_encoding", "UTF8"),
        status("DateStyle", "ISO"),
        status("TimeZone", "UTC"),
        status("integer_datetimes", "on"),
    ]
}

fn startup() -> ClientMessage {
    ClientMessage::Startup(Startup { parameters: vec![("user".to_string(), "u".to_string())] })
}

fn parse(name: &str, query: &str) -> ClientMessage {
    ClientMessage::Parse(Parse {
        prepared_statement_name: name.to_string(),
        query: query.to_string(),
        parameter_types: vec![],
    })
}

fn bind(portal: &str, statement: &str, result_formats: Vec<FormatCode>) -> ClientMessage {
    ClientMessage::Bind(Bind {
        portal: portal.to_string(),
        prepared_statement_name: statement.to_string(),
        parameter_formats: vec![],
        parameters: vec![],
        result_formats,
    })
}

fn execute(portal: &str) -> ClientMessage {
    ClientMessage::Execute(Execute { portal: portal.to_string(), max_rows: 0 })
}

fn describe_statement(name: &str) -> ClientMessage {
    ClientMessage::Describe(Describe::PreparedStatement(name.to_string()))
}

fn describe_portal(name: &str) -> ClientMessage {
    ClientMessage::Describe(Describe::Portal(name.to_string()))
}

fn idle() -> Connection<TestEngine> {
    let mut c = Connection::new(TestEngine::new());
    let r = c.react(Event::Message(startup()));
    assert_eq!(r.next, Next::Continue);
    assert_eq!(c.state(), ConnectionState::Idle);
    c
}

fn goes_on(c: &mut Connection<TestEngine>, m: ClientMessage) -> Vec<Reply> {
    let Reaction { replies, next } = c.react(Event::Message(m));
    assert_eq!(next, Next::Continue);
    assert_eq!(c.state(), ConnectionState::Idle);
    replies
}

fn row(cells: &[&str]) -> Reply {
    message(BackendMessage::DataRow(DataRow {
        cells: cells.iter().map(|c| Some(c.as_bytes().to_vec())).collect(),
    }))
}

fn tag(text: &str) -> Reply {
    message(BackendMessage::CommandComplete { command_tag: text.to_string() })
}

fn description(fields: Vec<FieldDescription>, format_code: FormatCode) -> Reply {
    message(BackendMessage::RowDescription(RowDescription { fields, format_code }))
}

fn wire(replies: &[Reply]) -> Vec<u8> {
    let mut out = Vec::new();
    for r in replies {
        out.extend_from_slice(&r.encode().expect("the reply can be sent"));
    }
    out
}

fn framed(tag: u8, body: &[u8]) -> Vec<u8> {
    let mut out = vec![tag];
    out.extend_from_slice(&((body.len() + 4) as u32).to_be_bytes());
    out.extend_from_slice(body);
    out
}

/// Feeds the bytes of a client to a codec and a session, as a connection
/// would, and gives back every byte the session writes and how it ended.
fn serve(c: &mut Connection<TestEngine>, codec: &mut ConnectionCodec, bytes: &[u8]) -> (Vec<u8>, Option<Next>) {
    let mut rest = bytes;
    let mut written = Vec::new();
    loop {
        let event = match codec.decode(rest) {
            Ok(Frame::Incomplete) => return (written, None),
            Ok(Frame::Complete(m, taken)) => {
                rest = &rest[taken..];
                Event::Message(m)
            }
            Err(e) => Event::Malformed(e),
        };
        let Reaction { replies, next } = c.react(event);
        written.extend_from_slice(&wire(&replies));
        if next != Next::Continue {
            return (written, Some(next));
        }
    }
}

#[test]
fn a_new_session_waits_for_its_startup_packet() {
    let c = Connection::new(TestEngine::new());
    assert_eq!(c.state(), ConnectionState::Startup);
    assert!(c.prepared_statement("").is_err());
    assert!(c.portal("").is_err());
}

#[test]
fn ssl_decline_then_startup() {
    let mut c = Connection::new(TestEngine::new());
    let mut codec = ConnectionCodec::new();
    let (written, next) = serve(&mut c, &mut codec, &[0x00, 0x00, 0x00, 0x08, 0x04, 0xd2, 0x16, 0x2f]);
    assert_eq!(written, b"N");
    assert_eq!(next, None);
    assert_eq!(c.state(), ConnectionState::Startup);
    let mut packet = vec![0, 0, 0, 0, 0, 3, 0, 0];
    packet.extend_from_slice(b"user\0u\0\0");
    packet[3] = packet.len() as u8;
    let (written, next) = serve(&mut c, &mut codec, &packet);
    assert_eq!(next, None);
    assert_eq!(c.state(), ConnectionState::Idle);
    let mut expected = vec![b'R', 0, 0, 0, 8, 0, 0, 0, 0];
    for (name, value) in [
        ("server_version", "13"),
        ("server_encoding", "UTF8"),
        ("client_encoding", "UTF8"),
        ("DateStyle", "ISO"),
        ("TimeZone", "UTC"),
        ("integer_datetimes", "on"),
    ] {
        let mut body = name.as_bytes().to_vec();
        body.push(0);
        body.extend_from_slice(value.as_bytes());
        body.push(0);
        expected.extend_from_slice(&framed(b'S', &body));
    }
    expected.extend_from_slice(&[b'Z', 0, 0, 0, 5, 0x49]);
    assert_eq!(written, expected);
}

#[test]
fn any_number_of_ssl_requests_before_startup() {
    for n in [0usize, 1, 2, 17] {
        let mut c = Connection::new(TestEngine::new());
        for _ in 0..n {
            let r = c.react(Event::Message(ClientMessage::SSLRequest));
            assert_eq!(r, Reaction { replies: vec![Reply::SslRefusal], next: Next::Continue });
            assert_eq!(c.state(), ConnectionState::Startup);
        }
        let r = c.react(Event::Message(startup()));
        let mut expected = greeting();
        expected.push(ready());
        assert_eq!(r, Reaction { replies: expected, next: Next::Continue });
        assert_eq!(c.state(), ConnectionState::Idle);
    }
}

#[test]
fn the_greeting_is_what_the_session_sends_first() {
    assert_eq!(greeting_replies(), greeting());
    let mut all = greeting();
    all.push(ready());
    assert_eq!(
        complete_startup(Ok(())),
        Step { sent: all, result: Ok(Some(ConnectionState::Idle)) }
    );
    let e = ErrorResponse::error(SqlState::ConnectionException, "cannot initialize default plugin");
    assert_eq!(
        complete_startup(Err(e.clone())),
        Step { sent: greeting(), result: Err(ConnectionError::ErrorResponse(e)) }
    );
}

#[test]
fn an_engine_that_does_not_start_is_reported_after_the_greeting() {
    let mut engine = TestEngine::new();
    let e = ErrorResponse::error(SqlState::ConnectionException, "cannot initialize default plugin");
    engine.startup = Err(e.clone());
    let mut c = Connection::new(engine);
    let r = c.react(Event::Message(startup()));
    let mut expected = greeting();
    expected.push(error(e));
    expected.push(ready());
    assert_eq!(r, Reaction { replies: expected, next: Next::Continue });
    assert_eq!(c.state(), ConnectionState::Idle);

    let mut engine = TestEngine::new();
    let e = ErrorResponse::fatal(SqlState::ConnectionException, "no database");
    engine.startup = Err(e.clone());
    let mut c = Connection::new(engine);
    let r = c.react(Event::Message(startup()));
    let mut expected = greeting();
    expected.push(error(e.clone()));
    assert_eq!(
        r,
        Reaction { replies: expected, next: Next::Close(Err(ConnectionError::ErrorResponse(e))) }
    );
}

#[test]
fn a_request_to_cancel_closes_the_connection_at_once() {
    let mut c = Connection::new(TestEngine::new());
    let r = c.react(Event::Message(ClientMessage::CancelRequest { process_id: 1, secret_key: 2 }));
    assert_eq!(r, Reaction { replies: vec![], next: Next::Close(Ok(())) });
}

#[test]
fn anything_else_before_startup_is_a_fatal_protocol_violation() {
    for m in [ClientMessage::Sync, ClientMessage::Terminate, ClientMessage::Query("SELECT 1".to_string()), parse("", "SELECT 1")] {
        let mut c = Connection::new(TestEngine::new());
        let e = ErrorResponse::fatal(SqlState::ProtocolViolation, "expected startup message");
        assert_eq!(
            c.react(Event::Message(m)),
            Reaction {
                replies: vec![error(e.clone())],
                next: Next::Close(Err(ConnectionError::ErrorResponse(e))),
            }
        );
    }
}

#[test]
fn a_startup_packet_after_startup_is_a_fatal_protocol_violation() {
    for m in [startup(), ClientMessage::SSLRequest, ClientMessage::CancelRequest { process_id: 0, secret_key: 0 }] {
        let mut c = idle();
        let e = ErrorResponse::fatal(SqlState::ProtocolViolation, "unexpected message");
        assert_eq!(
            c.react(Event::Message(m)),
            Reaction {
                replies: vec![error(e.clone())],
                next: Next::Close(Err(ConnectionError::ErrorResponse(e))),
            }
        );
    }
}

#[test]
fn simple_select_1() {
    let mut c = idle();
    let mut codec = ConnectionCodec::new();
    assert!(matches!(codec.decode(&[0, 0, 0, 9, 0, 3, 0, 0, 0]), Ok(Frame::Complete(_, 9))));
    let (written, next) = serve(&mut c, &mut codec, &framed(b'Q', b"SELECT 1\0"));
    assert_eq!(next, None);
    let mut expected = Vec::new();
    let mut field = b"?column?\0".to_vec();
    field.extend_from_slice(&[0, 0, 0, 0, 0, 0, 0, 0, 0, 23, 0, 4, 0xff, 0xff, 0xff, 0xff, 0, 0]);
    let mut body = vec![0, 1];
    body.extend_from_slice(&field);
    expected.extend_from_slice(&framed(b'T', &body));
    expected.extend_from_slice(&framed(b'D', &[0, 1, 0, 0, 0, 1, b'1']));
    expected.extend_from_slice(&framed(b'C', b"SELECT 1\0"));
    expected.extend_from_slice(&framed(b'Z', b"I"));
    assert_eq!(written, expected);
}

#[test]
fn a_simple_query_sends_description_rows_tag_and_ready() {
    let mut c = idle();
    let replies = goes_on(&mut c, ClientMessage::Query("SELECT a, b".to_string()));
    assert_eq!(
        replies,
        vec![
            description(vec![int4("a"), int4("b")], FormatCode::Text),
            row(&["1", "1"]),
            row(&["2", "2"]),
            row(&["3", "3"]),
            tag("SELECT 3"),
            ready(),
        ]
    );
    assert_eq!(c.engine().prepared, vec!["SELECT a, b".to_string()]);
    assert_eq!(c.engine().created, vec!["SELECT a, b".to_string()]);
}

#[test]
fn a_simple_query_sends_the_fields_that_the_engine_names_while_it_runs() {
    let mut c = idle();
    let replies = goes_on(&mut c, ClientMessage::Query("LATE".to_string()));
    assert_eq!(
        replies,
        vec![
            description(vec![int4("late")], FormatCode::Text),
            row(&["1"]),
            row(&["2"]),
            tag("SELECT 2"),
            ready(),
        ]
    );
}

#[test]
fn a_simple_query_that_fails_is_reported_and_the_session_goes_on() {
    for (sql, e) in [
        ("nonsense", ErrorResponse::error(SqlState::SyntaxError, "syntax error")),
        ("FAIL PORTAL", ErrorResponse::error(SqlState::ConnectionException, "no portal")),
        ("FAIL FETCH", ErrorResponse::error(SqlState::DataException, "no data")),
    ] {
        let mut c = idle();
        let replies = goes_on(&mut c, ClientMessage::Query(sql.to_string()));
        assert_eq!(replies, vec![error(e), ready()]);
        let replies = goes_on(&mut c, ClientMessage::Query("SELECT 1".to_string()));
        assert_eq!(replies.len(), 4);
    }
}

#[test]
fn extended_query_group() {
    let mut c = idle();
    assert_eq!(goes_on(&mut c, parse("s1", "SELECT a, b")), vec![message(BackendMessage::ParseComplete)]);
    assert_eq!(
        goes_on(&mut c, describe_statement("s1")),
        vec![
            message(BackendMessage::ParameterDescription),
            description(vec![int4("a"), int4("b")], FormatCode::Text),
        ]
    );
    assert_eq!(
        goes_on(&mut c, bind("p1", "s1", vec![FormatCode::Binary])),
        vec![message(BackendMessage::BindComplete)]
    );
    assert_eq!(
        goes_on(&mut c, describe_portal("p1")),
        vec![description(vec![int4("a"), int4("b")], FormatCode::Binary)]
    );
    let one = 1i32.to_be_bytes().to_vec();
    let two = 2i32.to_be_bytes().to_vec();
    let three = 3i32.to_be_bytes().to_vec();
    let binary_row = |v: &Vec<u8>| {
        message(BackendMessage::DataRow(DataRow { cells: vec![Some(v.clone()), Some(v.clone())] }))
    };
    assert_eq!(
        goes_on(&mut c, execute("p1")),
        vec![binary_row(&one), binary_row(&two), binary_row(&three), tag("SELECT 3")]
    );
    assert_eq!(goes_on(&mut c, ClientMessage::Sync), vec![ready()]);
    assert_eq!(c.engine().prepared, vec!["SELECT a, b".to_string()]);
    assert_eq!(c.engine().created, vec!["SELECT a, b".to_string()]);
}

#[test]
fn a_successful_group_is_answers_then_exactly_one_ready() {
    let mut c = idle();
    let mut all = Vec::new();
    for m in [
        parse("", "SELECT 1"),
        bind("", "", vec![]),
        describe_portal(""),
        execute(""),
        parse("s2", "LATE"),
        describe_statement("s2"),
        ClientMessage::Sync,
    ] {
        all.extend(goes_on(&mut c, m));
    }
    let last = all.pop().expect("something was sent");
    assert_eq!(last, ready());
    for r in &all {
        assert!(matches!(
            r,
            Reply::Message(
                BackendMessage::ParseComplete
                    | BackendMessage::BindComplete
                    | BackendMessage::ParameterDescription
                    | BackendMessage::RowDescription(_)
                    | BackendMessage::NoData
                    | BackendMessage::DataRow(_)
                    | BackendMessage::CommandComplete { .. }
                    | BackendMessage::EmptyQueryResponse
            )
        ));
    }
    assert_eq!(all.len(), 8);
}

#[test]
fn bind_without_a_format_means_text() {
    let mut c = idle();
    goes_on(&mut c, parse("s", "SELECT 1"));
    goes_on(&mut c, bind("p", "s", vec![]));
    assert_eq!(
        goes_on(&mut c, describe_portal("p")),
        vec![description(vec![int4("?column?")], FormatCode::Text)]
    );
    assert_eq!(goes_on(&mut c, execute("p")), vec![row(&["1"]), tag("SELECT 1")]);
}

#[test]
fn extended_empty_portal() {
    let mut c = idle();
    let mut all = Vec::new();
    for m in [parse("s1", "SELECT 1"), bind("p1", "s1", vec![]), execute("p2"), ClientMessage::Sync] {
        all.extend(goes_on(&mut c, m));
    }
    let e = ErrorResponse::error(SqlState::InvalidCursorName, "missing portal");
    assert_eq!(
        all,
        vec![
            message(BackendMessage::ParseComplete),
            message(BackendMessage::BindComplete),
            error(e),
            ready(),
            ready(),
        ]
    );
    assert_eq!(goes_on(&mut c, execute("p1")), vec![row(&["1"]), tag("SELECT 1")]);
}

#[test]
fn per_column_format_rejection() {
    let mut c = idle();
    let mut all = Vec::new();
    for m in [
        parse("s1", "SELECT a, b"),
        bind("p1", "s1", vec![FormatCode::Text, FormatCode::Binary]),
        ClientMessage::Sync,
    ] {
        all.extend(goes_on(&mut c, m));
    }
    let e = ErrorResponse::new(
        Severity::Error,
        SqlState::FeatureNotSupported,
        "per-column format codes not supported",
    );
    assert_eq!(e.sql_state.code(), "0A000");
    assert_eq!(all, vec![message(BackendMessage::ParseComplete), error(e), ready(), ready()]);
    assert!(c.portal("p1").is_err());
    assert!(c.engine().created.is_empty());
}

#[test]
fn describe_unbound_statement() {
    let mut c = idle();
    let mut all = goes_on(&mut c, describe_statement("missing"));
    all.extend(goes_on(&mut c, ClientMessage::Sync));
    let e = ErrorResponse::error(SqlState::InvalidSqlStatementName, "missing statement");
    assert_eq!(e.sql_state.code(), "26000");
    assert_eq!(all, vec![error(e), ready(), ready()]);
}

#[test]
fn graceful_terminate() {
    let mut c = idle();
    let mut codec = ConnectionCodec::new();
    assert!(matches!(codec.decode(&[0, 0, 0, 9, 0, 3, 0, 0, 0]), Ok(Frame::Complete(_, 9))));
    let (written, next) = serve(&mut c, &mut codec, &[b'X', 0, 0, 0, 4]);
    assert_eq!(written, Vec::<u8>::new());
    assert_eq!(next, Some(Next::Close(Ok(()))));
}

#[test]
fn bind_to_a_missing_statement_is_reported() {
    let mut c = idle();
    let e = ErrorResponse::error(SqlState::InvalidSqlStatementName, "missing statement");
    assert_eq!(goes_on(&mut c, bind("p", "nope", vec![])), vec![error(e), ready()]);
    assert!(c.portal("p").is_err());
}

#[test]
fn describe_a_missing_portal_is_reported() {
    let mut c = idle();
    let e = ErrorResponse::error(SqlState::InvalidCursorName, "missing portal");
    assert_eq!(e.sql_state.code(), "34000");
    assert_eq!(goes_on(&mut c, describe_portal("nope")), vec![error(e), ready()]);
}

#[test]
fn the_unnamed_statement_and_portal_are_names_like_any_other() {
    let mut c = idle();
    assert_eq!(goes_on(&mut c, execute("")).len(), 2);
    goes_on(&mut c, parse("", "SELECT 1"));
    goes_on(&mut c, bind("", "", vec![FormatCode::Text]));
    assert_eq!(goes_on(&mut c, execute("")), vec![row(&["1"]), tag("SELECT 1")]);
    assert_eq!(c.prepared_statement("").map(|s| s.statement.clone()).ok(), Some("SELECT 1".to_string()));
}

#[test]
fn parse_under_a_name_replaces_the_statement() {
    let mut c = idle();
    goes_on(&mut c, parse("s", "SELECT 1"));
    goes_on(&mut c, parse("s", "SELECT a, b"));
    assert_eq!(
        goes_on(&mut c, describe_statement("s")),
        vec![
            message(BackendMessage::ParameterDescription),
            description(vec![int4("a"), int4("b")], FormatCode::Text),
        ]
    );
    goes_on(&mut c, parse("t", "SELECT 1"));
    assert_eq!(
        c.prepared_statement("s").map(|s| s.statement.clone()).ok(),
        Some("SELECT a, b".to_string())
    );
    assert_eq!(
        c.prepared_statement("t").map(|s| s.fields.clone()).ok(),
        Some(vec![int4("?column?")])
    );
}

#[test]
fn a_statement_without_known_columns_is_described_as_empty() {
    let mut c = idle();
    goes_on(&mut c, parse("s", "LATE"));
    assert_eq!(
        goes_on(&mut c, describe_statement("s")),
        vec![message(BackendMessage::ParameterDescription), description(vec![], FormatCode::Text)]
    );
}

#[test]
fn bind_replaces_the_portal_and_lets_the_old_one_go_once() {
    let mut c = idle();
    let released = c.engine().released.clone();
    goes_on(&mut c, parse("one", "SELECT 1"));
    goes_on(&mut c, parse("two", "SELECT a, b"));
    goes_on(&mut c, bind("p", "one", vec![]));
    goes_on(&mut c, bind("q", "one", vec![]));
    assert_eq!(released.load(Ordering::SeqCst), 0);
    goes_on(&mut c, bind("p", "two", vec![FormatCode::Binary]));
    assert_eq!(released.load(Ordering::SeqCst), 1);
    assert_eq!(
        goes_on(&mut c, describe_portal("p")),
        vec![description(vec![int4("a"), int4("b")], FormatCode::Binary)]
    );
    assert_eq!(
        goes_on(&mut c, describe_portal("q")),
        vec![description(vec![int4("?column?")], FormatCode::Text)]
    );
    assert_eq!(goes_on(&mut c, execute("p")).len(), 4);
    assert_eq!(released.load(Ordering::SeqCst), 1);
    goes_on(&mut c, bind("p", "one", vec![]));
    assert_eq!(released.load(Ordering::SeqCst), 2);
    drop(c);
    assert_eq!(released.load(Ordering::SeqCst), 4);
}

#[test]
fn a_portal_can_be_run_again() {
    let mut c = idle();
    let fetched = c.engine().fetched.clone();
    goes_on(&mut c, parse("s", "SELECT 1"));
    goes_on(&mut c, bind("p", "s", vec![]));
    assert_eq!(goes_on(&mut c, execute("p")), vec![row(&["1"]), tag("SELECT 1")]);
    assert_eq!(goes_on(&mut c, execute("p")), vec![row(&["1"]), tag("SELECT 1")]);
    assert_eq!(fetched.load(Ordering::SeqCst), 2);
    assert!(matches!(c.portal_mut("p"), Ok(Some(_))));
    assert!(c.portal_mut("none").is_err());
}

#[test]
fn errors_leave_statements_and_portals_as_they_were() {
    let mut c = idle();
    goes_on(&mut c, parse("s", "SELECT 1"));
    goes_on(&mut c, bind("p", "s", vec![]));
    goes_on(&mut c, parse("f", "FAIL FETCH"));
    goes_on(&mut c, bind("pf", "f", vec![]));
    let failures = vec![
        (parse("s", "nonsense"), ErrorResponse::error(SqlState::SyntaxError, "syntax error")),
        (
            bind("p", "missing", vec![]),
            ErrorResponse::error(SqlState::InvalidSqlStatementName, "missing statement"),
        ),
        (
            bind("p", "s", vec![FormatCode::Text, FormatCode::Text]),
            ErrorResponse::error(
                SqlState::FeatureNotSupported,
                "per-column format codes not supported",
            ),
        ),
        (execute("missing"), ErrorResponse::error(SqlState::InvalidCursorName, "missing portal")),
        (execute("pf"), ErrorResponse::error(SqlState::DataException, "no data")),
        (
            describe_statement("missing"),
            ErrorResponse::error(SqlState::InvalidSqlStatementName, "missing statement"),
        ),
    ];
    for (m, e) in failures {
        assert_eq!(goes_on(&mut c, m), vec![error(e), ready()]);
        assert_eq!(
            goes_on(&mut c, describe_statement("s")),
            vec![
                message(BackendMessage::ParameterDescription),
                description(vec![int4("?column?")], FormatCode::Text),
            ]
        );
        assert_eq!(goes_on(&mut c, execute("p")), vec![row(&["1"]), tag("SELECT 1")]);
        assert_eq!(goes_on(&mut c, describe_portal("pf")), vec![description(vec![], FormatCode::Text)]);
        assert_eq!(goes_on(&mut c, ClientMessage::Sync), vec![ready()]);
    }
}

#[test]
fn a_fatal_error_of_the_engine_ends_the_session() {
    let mut c = idle();
    let e = ErrorResponse::fatal(SqlState::ConnectionException, "gone");
    assert_eq!(
        c.react(Event::Message(ClientMessage::Query("FATAL FETCH".to_string()))),
        Reaction {
            replies: vec![error(e.clone())],
            next: Next::Close(Err(ConnectionError::ErrorResponse(e))),
        }
    );
}

#[test]
fn bytes_that_are_no_message_end_the_session() {
    let synthetic = ErrorResponse::fatal(SqlState::ConnectionException, "connection error");
    assert_eq!(synthetic.sql_state.code(), "08000");
    for e in [
        ProtocolError::ShortRead,
        ProtocolError::BadMagic,
        ProtocolError::BadTag,
        ProtocolError::BadUtf8,
        ProtocolError::LengthMismatch,
    ] {
        for mut c in [idle(), Connection::new(TestEngine::new())] {
            assert_eq!(
                c.react(Event::Malformed(e)),
                Reaction {
                    replies: vec![error(synthetic.clone())],
                    next: Next::Close(Err(ConnectionError::Protocol(e))),
                }
            );
        }
    }
}

#[test]
fn a_message_with_a_bad_tag_ends_the_session_with_a_connection_error() {
    let mut c = idle();
    let mut codec = ConnectionCodec::new();
    assert!(matches!(codec.decode(&[0, 0, 0, 9, 0, 3, 0, 0, 0]), Ok(Frame::Complete(_, 9))));
    let (written, next) = serve(&mut c, &mut codec, &[b'?', 0, 0, 0, 4]);
    let mut expected = vec![b'E', 0, 0, 0, 37];
    expected.extend_from_slice(b"SFATAL\0C08000\0Mconnection error\0\0");
    assert_eq!(written, expected);
    assert_eq!(next, Some(Next::Close(Err(ConnectionError::Protocol(ProtocolError::BadTag)))));
}

#[test]
fn a_connection_closed_when_idle_ends_in_peace() {
    let mut c = idle();
    assert_eq!(c.react(Event::Eof), Reaction { replies: vec![], next: Next::Close(Ok(())) });
}

#[test]
fn a_connection_closed_before_startup_is_an_error() {
    let mut c = Connection::new(TestEngine::new());
    let synthetic = ErrorResponse::fatal(SqlState::ConnectionException, "connection error");
    assert_eq!(
        c.react(Event::Eof),
        Reaction {
            replies: vec![error(synthetic)],
            next: Next::Close(Err(ConnectionError::ConnectionClosed)),
        }
    );
}

#[test]
fn a_failing_connection_ends_the_session() {
    let synthetic = ErrorResponse::fatal(SqlState::ConnectionException, "connection error");
    for mut c in [idle(), Connection::new(TestEngine::new())] {
        assert_eq!(
            c.react(Event::IoFailure),
            Reaction {
                replies: vec![error(synthetic.clone())],
                next: Next::Close(Err(ConnectionError::ConnectionClosed)),
            }
        );
    }
}

#[test]
fn step_leaves_the_state_to_settle() {
    let mut c = Connection::new(TestEngine::new());
    let step = c.step(startup());
    assert_eq!(step.result, Ok(Some(ConnectionState::Idle)));
    assert_eq!(c.state(), ConnectionState::Startup);
    let r = c.settle(step);
    assert_eq!(r.next, Next::Continue);
    assert_eq!(c.state(), ConnectionState::Idle);
    let step = c.step(ClientMessage::Terminate);
    assert_eq!(step, Step { sent: vec![], result: Ok(None) });
    assert_eq!(c.settle(step), Reaction { replies: vec![], next: Next::Close(Ok(())) });
}

#[test]
fn settle_turns_errors_into_what_the_client_is_told() {
    let mut c = idle();
    let recoverable = ErrorResponse::error(SqlState::DataException, "x");
    let step = Step {
        sent: vec![message(BackendMessage::NoData)],
        result: Err(ConnectionError::ErrorResponse(recoverable.clone())),
    };
    assert_eq!(
        c.settle(step),
        Reaction {
            replies: vec![message(BackendMessage::NoData), error(recoverable), ready()],
            next: Next::Continue,
        }
    );
    let step = Step { sent: vec![], result: Err(ConnectionError::ConnectionClosed) };
    let synthetic = ErrorResponse::fatal(SqlState::ConnectionException, "connection error");
    assert_eq!(
        c.settle(step),
        Reaction {
            replies: vec![error(synthetic)],
            next: Next::Close(Err(ConnectionError::ConnectionClosed)),
        }
    );
}

#[test]
fn the_tag_of_a_result_counts_its_rows() {
    assert_eq!(command_complete(0), tag("SELECT 0"));
    assert_eq!(command_complete(1), tag("SELECT 1"));
    assert_eq!(command_complete(120034), tag("SELECT 120034"));
    assert_eq!(decimal_string(0), "0");
    assert_eq!(decimal_string(usize::MAX), usize::MAX.to_string());
}

#[test]
fn what_is_sent_for_a_portal_that_has_run() {
    let mut w = DataWriter::new(RowDescription { fields: vec![int4("a")], format_code: FormatCode::Text });
    for n in [5, 6] {
        let mut r = w.create_row();
        r.write_int4(n);
        w.finish_row(r);
    }
    assert_eq!(
        complete_execute(Ok(()), w),
        Step {
            sent: vec![row(&["5"]), row(&["6"]), tag("SELECT 2")],
            result: Ok(Some(ConnectionState::Idle)),
        }
    );
    let w = DataWriter::new(RowDescription { fields: vec![], format_code: FormatCode::Text });
    let e = ErrorResponse::error(SqlState::DataException, "x");
    assert_eq!(
        complete_execute(Err(e.clone()), w),
        Step { sent: vec![], result: Err(ConnectionError::ErrorResponse(e)) }
    );
}

#[test]
fn what_is_sent_for_a_simple_query_that_has_run() {
    let w = DataWriter::new(RowDescription { fields: vec![int4("a")], format_code: FormatCode::Text });
    assert_eq!(
        complete_query(Ok(w)),
        Step {
            sent: vec![description(vec![int4("a")], FormatCode::Text), tag("SELECT 0"), ready()],
            result: Ok(Some(ConnectionState::Idle)),
        }
    );
    let e = ErrorResponse::error(SqlState::SyntaxError, "x");
    assert_eq!(
        complete_query(Err(e.clone())),
        Step { sent: vec![], result: Err(ConnectionError::ErrorResponse(e)) }
    );
}

#[test]
fn a_portal_bound_to_nothing_gives_an_empty_response() {
    let mut c = idle();
    goes_on(&mut c, parse("s", "SELECT 1"));
    goes_on(&mut c, bind("empty", "s", vec![]));
    match c.portal_mut("empty") {
        Ok(slot) => *slot = None,
        Err(e) => panic!("unexpected {:?}", e),
    }
    assert!(matches!(c.portal("empty"), Ok(None)));
    assert_eq!(goes_on(&mut c, describe_portal("empty")), vec![message(BackendMessage::NoData)]);
    assert_eq!(goes_on(&mut c, execute("empty")), vec![message(BackendMessage::EmptyQueryResponse)]);
}

#[test]
fn a_bind_asks_for_a_portal_over_the_text_of_its_statement() {
    let mut c = idle();
    goes_on(&mut c, parse("s", "SELECT a, b"));
    let plan = |c: &Connection<TestEngine>, statement: &str, formats: Vec<FormatCode>| match bind(
        "p", statement, formats,
    ) {
        ClientMessage::Bind(b) => c.plan_bind(&b),
        other => panic!("unexpected {:?}", other),
    };
    assert_eq!(
        plan(&c, "s", vec![FormatCode::Binary]),
        Ok(BindPlan {
            statement: "SELECT a, b".to_string(),
            row_desc: RowDescription {
                fields: vec![int4("a"), int4("b")],
                format_code: FormatCode::Binary,
            },
        })
    );
    assert_eq!(plan(&c, "s", vec![]).map(|p| p.row_desc.format_code), Ok(FormatCode::Text));
    assert_eq!(
        plan(&c, "s", vec![FormatCode::Binary, FormatCode::Binary]),
        Err(ErrorResponse::error(
            SqlState::FeatureNotSupported,
            "per-column format codes not supported"
        ))
    );
    assert_eq!(
        plan(&c, "t", vec![]),
        Err(ErrorResponse::error(SqlState::InvalidSqlStatementName, "missing statement"))
    );
    assert_eq!(
        plan(&c, "t", vec![FormatCode::Text, FormatCode::Text]).map_err(|e| e.sql_state),
        Err(SqlState::FeatureNotSupported)
    );
}

#[test]
fn the_writer_of_a_simple_query_is_in_text_format_over_the_named_columns() {
    let w = query_writer(vec![int4("a"), int4("b")]);
    assert_eq!(w.num_rows(), 0);
    assert_eq!(
        w.row_desc(),
        &RowDescription { fields: vec![int4("a"), int4("b")], format_code: FormatCode::Text }
    );
    let w = query_writer(vec![]);
    assert_eq!(w.row_desc(), &RowDescription { fields: vec![], format_code: FormatCode::Text });
}

#[test]
fn the_writer_of_an_execute_is_over_the_description_of_the_portal() {
    for format_code in [FormatCode::Text, FormatCode::Binary] {
        let bound = RowDescription { fields: vec![int4("n")], format_code };
        let w = execute_writer(&bound);
        assert_eq!(w.num_rows(), 0);
        assert_eq!(w.row_desc(), &bound);
    }
}

#[test]
fn a_simple_query_is_answered_in_text_format_whatever_was_bound_before() {
    let mut c = idle();
    goes_on(&mut c, parse("", "SELECT 1"));
    goes_on(&mut c, bind("", "", vec![FormatCode::Binary]));
    assert_eq!(
        goes_on(&mut c, ClientMessage::Query("SELECT 1".to_string())),
        vec![description(vec![int4("?column?")], FormatCode::Text), row(&["1"]), tag("SELECT 1"), ready()]
    );
    assert_eq!(
        goes_on(&mut c, execute("")),
        vec![
            message(BackendMessage::DataRow(DataRow { cells: vec![Some(vec![0, 0, 0, 1])] })),
            tag("SELECT 1"),
        ]
    );
}
