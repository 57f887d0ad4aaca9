//! One session: its prepared statements, its portals and its engine, and
//! the steps it takes for the messages of its client.

use crate::backend::{BackendMessage, BackendMessageView};
use crate::engine::{answer_view, prepared_view, Engine, Portal};
use crate::frontend::{Bind, ClientMessage, Describe, Execute, Parse};
use crate::names::NameMap;
use crate::protocol::{
    clone_fields, fields_view, DataRow, ErrorResponse, ErrorResponseView, FieldDescription,
    FormatCode, RowDescription, Severity, SqlState,
};
use crate::protocol_ext::{rows_view, DataWriter};
use crate::session::{
    ascii_chars, bind_asked, connection_error, data_rows, error_reply, executed, fails,
    fresh_writer, goes_on, greeting, message, missing_portal, missing_statement, on_bind,
    on_describe, on_execute, on_parse, on_query, on_startup, per_column_formats, queried,
    query_asked, query_description, ran, react_spec, ready, replies_view, result_format,
    result_replies, select_tag, settle, status, step_spec, ConnectionError, ConnectionErrorView,
    ConnectionState, Event, Fetched, Next, NextView, Outcome, PortalView, Queried, Reaction,
    ReactionView, Reply, ReplyView, SessionView, StatementView,
};
use crate::text::{decimal_digits, lemma_decimal_digits, push_decimal_digits};
use crate::wire::utf8_to_string;
use vstd::prelude::*;
use vstd::string::StringExecFns;
use vstd::utf8::{
    encode_utf8, encode_utf8_decode_utf8, encode_utf8_valid_utf8, is_ascii_chars_encode_utf8,
};

verus! {

/// A statement that the engine has prepared.
#[derive(Debug, PartialEq, Eq)]
pub struct PreparedStatement {
    pub statement: String,
    pub fields: Vec<FieldDescription>,
}

impl View for PreparedStatement {
    type V = StatementView;

    open spec fn view(&self) -> StatementView {
        StatementView { statement: self.statement@, fields: fields_view(self.fields@) }
    }
}

impl Clone for PreparedStatement {
    fn clone(&self) -> (r: Self)
        ensures
            r@ == self@,
    {
        PreparedStatement { statement: self.statement.clone(), fields: clone_fields(&self.fields) }
    }
}

/// A portal of the engine and the description of the rows it will give.
pub struct BoundPortal<E: Engine> {
    pub portal: E::PortalType,
    pub row_desc: RowDescription,
}

impl<E: Engine> View for BoundPortal<E> {
    type V = PortalView<E::PortalType>;

    open spec fn view(&self) -> PortalView<E::PortalType> {
        PortalView { portal: self.portal, row_desc: self.row_desc@ }
    }
}

/// What a `Bind` asks of the engine: the text to make a portal for, and
/// the description of the rows that the portal will give.
#[derive(Debug, PartialEq, Eq)]
pub struct BindPlan {
    pub statement: String,
    pub row_desc: RowDescription,
}

/// What a step sent and where the session goes.
#[derive(Debug, PartialEq, Eq)]
pub struct Step {
    pub sent: Vec<Reply>,
    pub result: Result<Option<ConnectionState>, ConnectionError>,
}

/// The result of a step, as the rules see it.
pub open spec fn result_view(
    r: Result<Option<ConnectionState>, ConnectionError>,
) -> Result<Option<ConnectionState>, ConnectionErrorView> {
    match r {
        Ok(next) => Ok(next),
        Err(e) => Err(e@),
    }
}

/// The decimal digits of `n` as a string.
pub fn decimal_string(n: usize) -> (s: String)
    ensures
        s@ == ascii_chars(decimal_digits(n as nat)),
{
    let mut bytes: Vec<u8> = Vec::new();
    push_decimal_digits(&mut bytes, n as u64);
    proof {
        lemma_decimal_digits(n as nat);
        let chars = ascii_chars(bytes@);
        is_ascii_chars_encode_utf8(chars);
        assert(encode_utf8(chars) =~= bytes@) by {
            assert forall|i: int| 0 <= i < chars.len() implies encode_utf8(chars)[i]
                == bytes@[i] by {
            }
        }
        encode_utf8_valid_utf8(chars);
        encode_utf8_decode_utf8(chars);
    }
    match utf8_to_string(bytes.as_slice()) {
        Some(s) => {
            proof {
                encode_utf8_decode_utf8(s@);
            }
            s
        },
        None => String::new(),
    }
}

/// The message that ends a result of `rows` rows.
pub fn command_complete(rows: usize) -> (r: Reply)
    ensures
        r@ == message(BackendMessageView::CommandComplete { command_tag: select_tag(rows as nat) }),
{
    let digits = decimal_string(rows);
    let tag = String::from_str("SELECT ").concat(digits.as_str());
    Reply::Message(BackendMessage::CommandComplete { command_tag: tag })
}

/// A setting of the server as a reply.
fn parameter_status(name: &str, value: &str) -> (r: Reply)
    ensures
        r@ == status(name@, value@),
{
    Reply::Message(
        BackendMessage::ParameterStatus { name: name.to_owned(), value: value.to_owned() },
    )
}

/// What the server sends when it accepts a startup packet.
pub fn greeting_replies() -> (sent: Vec<Reply>)
    ensures
        replies_view(sent@) == greeting(),
{
    let mut sent: Vec<Reply> = Vec::new();
    sent.push(Reply::Message(BackendMessage::AuthenticationOk));
    sent.push(parameter_status("server_version", "13"));
    sent.push(parameter_status("server_encoding", "UTF8"));
    sent.push(parameter_status("client_encoding", "UTF8"));
    sent.push(parameter_status("DateStyle", "ISO"));
    sent.push(parameter_status("TimeZone", "UTC"));
    sent.push(parameter_status("integer_datetimes", "on"));
    sent
}

/// Appends one `DataRow` message for each row to `sent`.
fn push_data_rows(sent: &mut Vec<Reply>, rows: Vec<DataRow>)
    ensures
        replies_view(final(sent)@) == replies_view(old(sent)@) + data_rows(rows_view(rows@)),
{
    let ghost all = rows_view(rows@);
    let ghost before = replies_view(sent@);
    let mut rows = rows;
    let mut rest: Vec<DataRow> = Vec::new();
    // Rows are moved out from the back, so they are put in order first.
    while rows.len() > 0
        invariant
            rows@.len() + rest@.len() == all.len(),
            forall|k: int| 0 <= k < rows@.len() ==> rows@[k]@ == all[k],
            forall|k: int| 0 <= k < rest@.len() ==> rest@[k]@ == all[all.len() - 1 - k],
        decreases rows@.len(),
    {
        match rows.pop() {
            Some(row) => rest.push(row),
            None => {},
        }
    }
    while rest.len() > 0
        invariant
            rest@.len() <= all.len(),
            forall|k: int| 0 <= k < rest@.len() ==> rest@[k]@ == all[all.len() - 1 - k],
            replies_view(sent@) == before + data_rows(all).take(all.len() - rest@.len()),
        decreases rest@.len(),
    {
        let ghost done = all.len() - rest@.len();
        let ghost so_far = replies_view(sent@);
        match rest.pop() {
            Some(row) => {
                sent.push(Reply::Message(BackendMessage::DataRow(row)));
                assert(replies_view(sent@) =~= so_far.push(data_rows(all)[done]));
            },
            None => {},
        }
    }
}

/// The writer that a portal is handed when it is run for `Execute`: over
/// the description that the portal was bound with, with no rows.
pub fn execute_writer(row_desc: &RowDescription) -> (w: DataWriter)
    ensures
        w@ == fresh_writer(row_desc@),
        w@.wf(),
{
    DataWriter::new(row_desc.clone())
}

/// The writer that the portal of a simple query is handed: over the
/// columns that the engine named for the query, in text format, with no
/// rows.
pub fn query_writer(fields: Vec<FieldDescription>) -> (w: DataWriter)
    ensures
        w@ == fresh_writer(query_description(fields_view(fields@))),
        w@.wf(),
{
    DataWriter::new(RowDescription { fields, format_code: FormatCode::Text })
}

/// What is sent for a portal that has run: its rows and the tag, or
/// nothing but the error where it failed.
pub fn complete_execute(fetched: Result<(), ErrorResponse>, writer: DataWriter) -> (step: Step)
    ensures
        replies_view(step.sent@) == (match fetched {
            Ok(_) => result_replies(writer@),
            Err(_) => Seq::<ReplyView>::empty(),
        }),
        result_view(step.result) == (match fetched {
            Ok(_) => Ok::<Option<ConnectionState>, ConnectionErrorView>(
                Some(ConnectionState::Idle),
            ),
            Err(e) => Err(ConnectionErrorView::ErrorResponse(e@)),
        }),
{
    match fetched {
        Err(e) => {
            let sent: Vec<Reply> = Vec::new();
            Step { sent, result: Err(ConnectionError::ErrorResponse(e)) }
        },
        Ok(_) => {
            let num_rows = writer.num_rows();
            let (_, rows) = writer.into_parts();
            let mut sent: Vec<Reply> = Vec::new();
            push_data_rows(&mut sent, rows);
            sent.push(command_complete(num_rows));
            Step { sent, result: Ok(Some(ConnectionState::Idle)) }
        },
    }
}

/// What is sent for a simple query that has run: the description that the
/// writer ends with, its rows, the tag, and ready; or nothing but the error
/// where the engine failed.
pub fn complete_query(answer: Result<DataWriter, ErrorResponse>) -> (step: Step)
    ensures
        replies_view(step.sent@) == (match answer {
            Ok(writer) => seq![
                message(BackendMessageView::RowDescription(writer@.row_desc)),
            ] + result_replies(writer@).push(message(BackendMessageView::ReadyForQuery)),
            Err(_) => Seq::<ReplyView>::empty(),
        }),
        result_view(step.result) == (match answer {
            Ok(_) => Ok::<Option<ConnectionState>, ConnectionErrorView>(
                Some(ConnectionState::Idle),
            ),
            Err(e) => Err(ConnectionErrorView::ErrorResponse(e@)),
        }),
{
    match answer {
        Err(e) => {
            let sent: Vec<Reply> = Vec::new();
            Step { sent, result: Err(ConnectionError::ErrorResponse(e)) }
        },
        Ok(writer) => {
            let num_rows = writer.num_rows();
            let (row_desc, rows) = writer.into_parts();
            let mut sent: Vec<Reply> = Vec::new();
            sent.push(Reply::Message(BackendMessage::RowDescription(row_desc)));
            push_data_rows(&mut sent, rows);
            let ghost a = replies_view(sent@);
            sent.push(command_complete(num_rows));
            let ghost b = replies_view(sent@);
            assert(b =~= a.push(
                message(
                    BackendMessageView::CommandComplete {
                        command_tag: select_tag(num_rows as nat),
                    },
                ),
            ));
            sent.push(Reply::Message(BackendMessage::ReadyForQuery));
            assert(replies_view(sent@) =~= b.push(message(BackendMessageView::ReadyForQuery)));
            Step { sent, result: Ok(Some(ConnectionState::Idle)) }
        },
    }
}

/// A session with its engine.
pub struct Connection<E: Engine> {
    engine: E,
    state: ConnectionState,
    statements: NameMap<PreparedStatement>,
    portals: NameMap<Option<BoundPortal<E>>>,
}

/// A portal slot, as the rules see it.
pub open spec fn slot_view<E: Engine>(
    slot: Option<BoundPortal<E>>,
) -> Option<PortalView<E::PortalType>> {
    match slot {
        Some(bound) => Some(bound@),
        None => None,
    }
}

impl<E: Engine> View for Connection<E> {
    type V = SessionView<E::PortalType>;

    closed spec fn view(&self) -> SessionView<E::PortalType> {
        SessionView {
            state: self.state,
            statements: Map::new(
                |name: Seq<char>| self.statements.map().contains_key(name),
                |name: Seq<char>| self.statements.map()[name]@,
            ),
            portals: Map::new(
                |name: Seq<char>| self.portals.map().contains_key(name),
                |name: Seq<char>| slot_view(self.portals.map()[name]),
            ),
        }
    }
}

impl<E: Engine> Connection<E> {
    /// No name stands twice among the statements, nor among the portals.
    pub closed spec fn wf(&self) -> bool {
        self.statements.wf() && self.portals.wf()
    }

    /// The engine of the session.
    pub closed spec fn spec_engine(&self) -> E {
        self.engine
    }

    /// The engine of the session.
    pub fn engine(&self) -> (e: &E)
        ensures
            *e == self.spec_engine(),
    {
        &self.engine
    }

    /// A session that waits for its startup packet, with nothing prepared
    /// and nothing bound.
    pub fn new(engine: E) -> (c: Self)
        ensures
            c.wf(),
            c@ == (SessionView::<E::PortalType> {
                state: ConnectionState::Startup,
                statements: Map::empty(),
                portals: Map::empty(),
            }),
            c.spec_engine() == engine,
    {
        let c = Connection {
            engine,
            state: ConnectionState::Startup,
            statements: NameMap::new(),
            portals: NameMap::new(),
        };
        assert(c@.statements =~= Map::empty());
        assert(c@.portals =~= Map::empty());
        c
    }

    /// Where the session stands.
    pub fn state(&self) -> (s: ConnectionState)
        ensures
            s == self@.state,
    {
        self.state
    }

    /// The statement prepared under `name`.
    pub fn prepared_statement(&self, name: &str) -> (r: Result<&PreparedStatement, ConnectionError>)
        requires
            self.wf(),
        ensures
            match r {
                Ok(statement) => self@.statements.contains_key(name@) && statement@
                    == self@.statements[name@],
                Err(e) => !self@.statements.contains_key(name@) && e@
                    == ConnectionErrorView::ErrorResponse(missing_statement()),
            },
    {
        match self.statements.get(name) {
            Some(statement) => Ok(statement),
            None => Err(
                ConnectionError::ErrorResponse(
                    ErrorResponse::error(SqlState::InvalidSqlStatementName, "missing statement"),
                ),
            ),
        }
    }

    /// The portal bound under `name`; `None` where it gives no rows.
    pub fn portal(&self, name: &str) -> (r: Result<&Option<BoundPortal<E>>, ConnectionError>)
        requires
            self.wf(),
        ensures
            match r {
                Ok(slot) => self@.portals.contains_key(name@) && slot_view(*slot)
                    == self@.portals[name@],
                Err(e) => !self@.portals.contains_key(name@) && e@
                    == ConnectionErrorView::ErrorResponse(missing_portal()),
            },
    {
        match self.portals.get(name) {
            Some(slot) => Ok(slot),
            None => Err(
                ConnectionError::ErrorResponse(
                    ErrorResponse::error(SqlState::InvalidCursorName, "missing portal"),
                ),
            ),
        }
    }

    /// The portal bound under `name`, to be run in place.
    pub fn portal_mut(&mut self, name: &str) -> (r: Result<
        &mut Option<BoundPortal<E>>,
        ConnectionError,
    >)
        requires
            old(self).wf(),
        ensures
            final(self).wf(),
            final(self).spec_engine() == old(self).spec_engine(),
            final(self)@.state == old(self)@.state,
            final(self)@.statements == old(self)@.statements,
            match r {
                Ok(slot) => old(self)@.portals.contains_key(name@) && slot_view(*slot) == old(
                    self,
                )@.portals[name@] && final(self)@.portals == old(self)@.portals.insert(
                    name@,
                    slot_view(*final(slot)),
                ),
                Err(e) => !old(self)@.portals.contains_key(name@) && e@
                    == ConnectionErrorView::ErrorResponse(missing_portal()) && final(self)@
                    == old(self)@,
            },
    {
        match self.portals.get_mut(name) {
            Some(slot) => {
                Ok(slot)
            },
            None => {
                Err(
                    ConnectionError::ErrorResponse(
                        ErrorResponse::error(SqlState::InvalidCursorName, "missing portal"),
                    ),
                )
            },
        }
    }
}

/// A step that sent nothing and failed with `e`.
fn failed(e: ErrorResponse) -> (step: Step)
    ensures
        replies_view(step.sent@) == Seq::<ReplyView>::empty(),
        result_view(step.result) == Err::<Option<ConnectionState>, ConnectionErrorView>(
            ConnectionErrorView::ErrorResponse(e@),
        ),
{
    let sent: Vec<Reply> = Vec::new();
    Step { sent, result: Err(ConnectionError::ErrorResponse(e)) }
}

/// A step that sent one message and stays ready.
fn sent_one(m: BackendMessage) -> (step: Step)
    ensures
        replies_view(step.sent@) == seq![message(m@)],
        result_view(step.result) == Ok::<Option<ConnectionState>, ConnectionErrorView>(
            Some(ConnectionState::Idle),
        ),
{
    let mut sent: Vec<Reply> = Vec::new();
    sent.push(Reply::Message(m));
    Step { sent, result: Ok(Some(ConnectionState::Idle)) }
}

/// A step that sent nothing and ends the session in peace.
fn ended() -> (step: Step)
    ensures
        replies_view(step.sent@) == Seq::<ReplyView>::empty(),
        result_view(step.result) == Ok::<Option<ConnectionState>, ConnectionErrorView>(None),
{
    let sent: Vec<Reply> = Vec::new();
    Step { sent, result: Ok(None) }
}

/// What is sent for a startup packet once the engine has been asked to
/// start.
pub fn complete_startup(started: Result<(), ErrorResponse>) -> (step: Step)
    ensures
        replies_view(step.sent@) == (match started {
            Ok(_) => greeting().push(message(BackendMessageView::ReadyForQuery)),
            Err(_) => greeting(),
        }),
        result_view(step.result) == (match started {
            Ok(_) => Ok::<Option<ConnectionState>, ConnectionErrorView>(
                Some(ConnectionState::Idle),
            ),
            Err(e) => Err(ConnectionErrorView::ErrorResponse(e@)),
        }),
{
    let mut sent = greeting_replies();
    match started {
        Ok(_) => {
            sent.push(Reply::Message(BackendMessage::ReadyForQuery));
            Step { sent, result: Ok(Some(ConnectionState::Idle)) }
        },
        Err(e) => Step { sent, result: Err(ConnectionError::ErrorResponse(e)) },
    }
}

impl<E: Engine> Connection<E> {
    /// What a step comes to, as the rules see it.
    pub open spec fn outcome(&self, step: Step) -> Outcome<E::PortalType> {
        Outcome {
            post: self@,
            sent: replies_view(step.sent@),
            result: result_view(step.result),
        }
    }

    /// Takes in what the engine answered to `Parse`.
    pub fn complete_parse(
        &mut self,
        parse: Parse,
        prepared: Result<Vec<FieldDescription>, ErrorResponse>,
    ) -> (step: Step)
        requires
            old(self).wf(),
        ensures
            final(self).wf(),
            final(self).spec_engine() == old(self).spec_engine(),
            final(self).outcome(step) == on_parse(
                old(self)@,
                parse.prepared_statement_name@,
                parse.query@,
                prepared_view(prepared),
            ),
    {
        match prepared {
            Err(e) => failed(e),
            Ok(fields) => {
                let ghost name = parse.prepared_statement_name@;
                let statement = PreparedStatement { statement: parse.query, fields };
                self.statements.insert(parse.prepared_statement_name, statement);
                assert(self@.statements =~= old(self)@.statements.insert(name, statement@));
                sent_one(BackendMessage::ParseComplete)
            },
        }
    }

    /// Takes in what the engine answered when it was asked for a portal:
    /// the portal is bound under `name`, to give rows as `row_desc` says.
    pub fn complete_bind(
        &mut self,
        name: String,
        row_desc: RowDescription,
        created: Result<E::PortalType, ErrorResponse>,
    ) -> (step: Step)
        requires
            old(self).wf(),
        ensures
            final(self).wf(),
            final(self).spec_engine() == old(self).spec_engine(),
            final(self).outcome(step) == (match created {
                Ok(handle) => goes_on(
                    SessionView {
                        state: old(self)@.state,
                        statements: old(self)@.statements,
                        portals: old(self)@.portals.insert(
                            name@,
                            Some(PortalView { portal: handle, row_desc: row_desc@ }),
                        ),
                    },
                    seq![message(BackendMessageView::BindComplete)],
                ),
                Err(e) => fails(old(self)@, Seq::empty(), e@),
            }),
    {
        match created {
            Err(e) => failed(e),
            Ok(portal) => {
                let ghost key = name@;
                let bound = BoundPortal::<E> { portal, row_desc };
                self.portals.insert(name, Some(bound));
                assert(self@.portals =~= old(self)@.portals.insert(key, Some(bound@)));
                sent_one(BackendMessage::BindComplete)
            },
        }
    }

    /// `Describe`.
    fn describe(&self, target: &Describe) -> (step: Step)
        requires
            self.wf(),
        ensures
            self.outcome(step) == on_describe(self@, target@),
    {
        match target {
            Describe::PreparedStatement(name) => match self.prepared_statement(name.as_str()) {
                Err(ConnectionError::ErrorResponse(e)) => failed(e),
                Err(other) => Step { sent: Vec::new(), result: Err(other) },
                Ok(statement) => {
                    let fields = clone_fields(&statement.fields);
                    let mut sent: Vec<Reply> = Vec::new();
                    sent.push(Reply::Message(BackendMessage::ParameterDescription));
                    sent.push(
                        Reply::Message(
                            BackendMessage::RowDescription(
                                RowDescription { fields, format_code: FormatCode::Text },
                            ),
                        ),
                    );
                    assert(replies_view(sent@) =~= on_describe(self@, target@).sent);
                    Step { sent, result: Ok(Some(ConnectionState::Idle)) }
                },
            },
            Describe::Portal(name) => match self.portal(name.as_str()) {
                Err(ConnectionError::ErrorResponse(e)) => failed(e),
                Err(other) => Step { sent: Vec::new(), result: Err(other) },
                Ok(Some(bound)) => sent_one(BackendMessage::RowDescription(bound.row_desc.clone())),
                Ok(None) => sent_one(BackendMessage::NoData),
            },
        }
    }

    /// What a `Bind` asks of the engine: a portal for the text of the
    /// statement it names, to give rows with the columns of that statement
    /// in the one format it asks for. A `Bind` that asks for a format per
    /// column is refused, and so is one that names no statement.
    pub fn plan_bind(&self, bind: &Bind) -> (r: Result<BindPlan, ErrorResponse>)
        requires
            self.wf(),
        ensures
            match r {
                Ok(plan) => {
                    &&& bind.result_formats@.len() <= 1
                    &&& self@.statements.contains_key(bind.prepared_statement_name@)
                    &&& plan.statement@
                        == self@.statements[bind.prepared_statement_name@].statement
                    &&& plan.row_desc@.fields
                        == self@.statements[bind.prepared_statement_name@].fields
                    &&& plan.row_desc@.format_code == result_format(bind.result_formats@)
                },
                Err(e) => if bind.result_formats@.len() > 1 {
                    e@ == per_column_formats()
                } else {
                    !self@.statements.contains_key(bind.prepared_statement_name@) && e@
                        == missing_statement()
                },
            },
    {
        if bind.result_formats.len() > 1 {
            return Err(
                ErrorResponse::error(
                    SqlState::FeatureNotSupported,
                    "per-column format codes not supported",
                ),
            );
        }
        let format_code = if bind.result_formats.len() == 0 {
            FormatCode::Text
        } else {
            bind.result_formats[0]
        };
        match self.prepared_statement(bind.prepared_statement_name.as_str()) {
            Ok(statement) => {
                let prepared = statement.clone();
                Ok(
                    BindPlan {
                        statement: prepared.statement,
                        row_desc: RowDescription { fields: prepared.fields, format_code },
                    },
                )
            },
            Err(ConnectionError::ErrorResponse(e)) => Err(e),
            Err(_) => Err(
                ErrorResponse::error(SqlState::InvalidSqlStatementName, "missing statement"),
            ),
        }
    }

    /// `Bind`.
    fn bind(&mut self, bind: Bind) -> (step: Step)
        requires
            old(self).wf(),
        ensures
            final(self).wf(),
            exists|created: Result<E::PortalType, ErrorResponseView>|
                bind_asked(
                    old(self)@,
                    old(self).spec_engine(),
                    bind.prepared_statement_name@,
                    bind.result_formats@,
                    created,
                    final(self).spec_engine(),
                ) && final(self).outcome(step) == on_bind(
                    old(self)@,
                    bind.portal@,
                    bind.prepared_statement_name@,
                    bind.result_formats@,
                    created,
                ),
    {
        let ghost pre = self@;
        let ghost before = self.engine;
        match self.plan_bind(&bind) {
            Err(e) => {
                let ghost anything: Result<E::PortalType, ErrorResponseView> = Err(e@);
                let step = failed(e);
                assert(bind_asked(
                    pre,
                    before,
                    bind.prepared_statement_name@,
                    bind.result_formats@,
                    anything,
                    self.engine,
                ) && self.outcome(step) == on_bind(
                    pre,
                    bind.portal@,
                    bind.prepared_statement_name@,
                    bind.result_formats@,
                    anything,
                ));
                step
            },
            Ok(plan) => {
                let created = self.engine.create_portal(&plan.statement);
                let ghost answer = answer_view(created);
                let ghost name = bind.portal@;
                let ghost between = self.engine;
                assert(self@ == pre);
                let step = self.complete_bind(bind.portal, plan.row_desc, created);
                assert(bind_asked(
                    pre,
                    before,
                    bind.prepared_statement_name@,
                    bind.result_formats@,
                    answer,
                    between,
                ) && self.outcome(step) == on_bind(
                    pre,
                    name,
                    bind.prepared_statement_name@,
                    bind.result_formats@,
                    answer,
                ));
                step
            },
        }
    }

    /// `Execute`.
    fn execute(&mut self, name: &str) -> (step: Step)
        requires
            old(self).wf(),
        ensures
            final(self).wf(),
            final(self).spec_engine() == old(self).spec_engine(),
            exists|fetched: Fetched<E::PortalType>|
                executed(old(self)@, name@, fetched) && final(self).outcome(step) == on_execute(
                    old(self)@,
                    name@,
                    fetched,
                ),
    {
        let ghost pre = self@;
        let ghost after = *final(self);
        match self.portal_mut(name) {
            Err(ConnectionError::ErrorResponse(e)) => {
                let step = failed(e);
                proof {
                    let fetched: Fetched<E::PortalType> = arbitrary();
                    assert(executed(pre, name@, fetched) && after.outcome(step) == on_execute(
                        pre,
                        name@,
                        fetched,
                    ));
                }
                step
            },
            Err(other) => Step { sent: Vec::new(), result: Err(other) },
            Ok(slot) => match slot {
                None => {
                    let step = sent_one(BackendMessage::EmptyQueryResponse);
                    proof {
                        let fetched: Fetched<E::PortalType> = arbitrary();
                        assert(after@.portals =~= pre.portals);
                        assert(executed(pre, name@, fetched) && after.outcome(step) == on_execute(
                            pre,
                            name@,
                            fetched,
                        ));
                    }
                    step
                },
                Some(bound) => {
                    let ghost before = bound.portal;
                    let mut writer = execute_writer(&bound.row_desc);
                    let fetched = bound.portal.fetch(&mut writer);
                    let ghost answer = Fetched::<E::PortalType> {
                        portal: bound.portal,
                        result: answer_view(fetched),
                        writer: writer@,
                    };
                    let step = complete_execute(fetched, writer);
                    proof {
                        assert(ran(before, fresh_writer(bound.row_desc@), answer));
                        assert(executed(pre, name@, answer) && after.outcome(step) == on_execute(
                            pre,
                            name@,
                            answer,
                        ));
                    }
                    step
                },
            },
        }
    }

    /// `Query`.
    fn query(&mut self, sql: &String) -> (step: Step)
        requires
            old(self).wf(),
        ensures
            final(self).wf(),
            exists|answer: Queried<E::PortalType>|
                query_asked(old(self).spec_engine(), sql@, answer, final(self).spec_engine())
                    && final(self).outcome(step) == on_query(old(self)@, answer),
    {
        let ghost pre = self@;
        let ghost before = self.engine;
        match self.engine.prepare(sql) {
            Err(e) => {
                let ghost answer = Queried::<E::PortalType> {
                    prepared: Err(e@),
                    created: arbitrary(),
                    fetched: arbitrary(),
                };
                let step = complete_query(Err(e));
                proof {
                    assert(before.prepares(sql@, &self.engine, answer.prepared));
                    assert(query_asked(before, sql@, answer, self.engine));
                    assert(self.outcome(step) == on_query(pre, answer));
                }
                step
            },
            Ok(fields) => {
                let ghost named = fields_view(fields@);
                let ghost between = self.engine;
                match self.engine.create_portal(sql) {
                    Err(e) => {
                        let ghost answer = Queried::<E::PortalType> {
                            prepared: Ok(named),
                            created: Err(e@),
                            fetched: arbitrary(),
                        };
                        let step = complete_query(Err(e));
                        proof {
                            assert(before.prepares(sql@, &between, answer.prepared));
                            assert(query_asked(before, sql@, answer, self.engine));
                            assert(self.outcome(step) == on_query(pre, answer));
                        }
                        step
                    },
                    Ok(portal) => {
                        let mut portal = portal;
                        let ghost made = portal;
                        let mut writer = query_writer(fields);
                        let fetched = portal.fetch(&mut writer);
                        let ghost answer = Queried::<E::PortalType> {
                            prepared: Ok(named),
                            created: Ok(made),
                            fetched: Fetched {
                                portal,
                                result: answer_view(fetched),
                                writer: writer@,
                            },
                        };
                        let step = complete_query(
                            match fetched {
                                Ok(_) => Ok(writer),
                                Err(e) => Err(e),
                            },
                        );
                        proof {
                            assert(before.prepares(sql@, &between, answer.prepared));
                            assert(queried(answer));
                            assert(query_asked(before, sql@, answer, self.engine));
                            assert(self.outcome(step) == on_query(pre, answer));
                        }
                        step
                    },
                }
            },
        }
    }

    /// Takes one message of the client: asks the engine what the message
    /// calls for, changes the statements and portals, and says what to send
    /// and where the session goes. The engine is asked to start for a
    /// startup packet, to name the columns of the text of a `Parse` or a
    /// `Query`, and for a portal for the text of the statement of a `Bind`
    /// or of a `Query`; a portal is run on a fresh writer. The state itself
    /// is left for [`Connection::react`] to move.
    pub fn step(&mut self, msg: ClientMessage) -> (step: Step)
        requires
            old(self).wf(),
        ensures
            final(self).wf(),
            step_spec(
                old(self)@,
                old(self).spec_engine(),
                msg@,
                final(self).outcome(step),
                final(self).spec_engine(),
            ),
    {
        let ghost pre = self@;
        let ghost before = self.engine;
        match self.state {
            ConnectionState::Startup => match msg {
                ClientMessage::Startup(_) => {
                    let started = self.engine.startup();
                    let ghost answer = answer_view(started);
                    let step = complete_startup(started);
                    assert(before.starts(&self.engine, answer) && self.outcome(step)
                        == on_startup(pre, answer));
                    step
                },
                ClientMessage::SSLRequest => {
                    let mut sent: Vec<Reply> = Vec::new();
                    sent.push(Reply::SslRefusal);
                    assert(replies_view(sent@) =~= seq![ReplyView::SslRefusal]);
                    Step { sent, result: Ok(Some(ConnectionState::Startup)) }
                },
                ClientMessage::CancelRequest { .. } => ended(),
                _ => failed(
                    ErrorResponse::fatal(SqlState::ProtocolViolation, "expected startup message"),
                ),
            },
            ConnectionState::Idle => match msg {
                ClientMessage::Parse(parse) => {
                    let prepared = self.engine.prepare(&parse.query);
                    let ghost answer = prepared_view(prepared);
                    let ghost name = parse.prepared_statement_name@;
                    let ghost query = parse.query@;
                    let ghost between = self.engine;
                    assert(self@ == pre);
                    let step = self.complete_parse(parse, prepared);
                    assert(before.prepares(query, &between, answer) && self.outcome(step)
                        == on_parse(pre, name, query, answer));
                    step
                },
                ClientMessage::Bind(bind) => self.bind(bind),
                ClientMessage::Describe(target) => self.describe(&target),
                ClientMessage::Sync => sent_one(BackendMessage::ReadyForQuery),
                ClientMessage::Execute(exec) => self.execute(exec.portal.as_str()),
                ClientMessage::Query(sql) => self.query(&sql),
                ClientMessage::Terminate => ended(),
                _ => failed(
                    ErrorResponse::fatal(SqlState::ProtocolViolation, "unexpected message"),
                ),
            },
        }
    }
}

/// The error sent, as far as it can be, when the connection itself fails.
fn connection_error_reply() -> (r: Reply)
    ensures
        r@ == error_reply(connection_error()),
{
    Reply::Message(
        BackendMessage::ErrorResponse(
            ErrorResponse::fatal(SqlState::ConnectionException, "connection error"),
        ),
    )
}

/// Nothing sent.
fn nothing() -> (sent: Vec<Reply>)
    ensures
        replies_view(sent@) == Seq::<ReplyView>::empty(),
{
    let sent: Vec<Reply> = Vec::new();
    sent
}

/// The reaction to a connection that failed.
fn give_up(sent: Vec<Reply>, e: ConnectionError) -> (r: Reaction)
    ensures
        replies_view(r.replies@) == replies_view(sent@).push(error_reply(connection_error())),
        r.next@ == NextView::Close(Err(e@)),
{
    let mut replies = sent;
    replies.push(connection_error_reply());
    Reaction { replies, next: Next::Close(Err(e)) }
}

impl<E: Engine> Connection<E> {
    /// A reaction and the state it leaves, as the rules see it.
    pub open spec fn reaction(&self, r: Reaction) -> ReactionView<E::PortalType> {
        ReactionView { post: self@, replies: replies_view(r.replies@), next: r.next@ }
    }

    /// Takes in what a step came to: moves the state, and turns an error
    /// into what the client is told.
    pub fn settle(&mut self, step: Step) -> (r: Reaction)
        requires
            old(self).wf(),
        ensures
            final(self).wf(),
            final(self).spec_engine() == old(self).spec_engine(),
            final(self).reaction(r) == settle(old(self).outcome(step)),
    {
        let Step { sent, result } = step;
        match result {
            Ok(Some(state)) => {
                self.state = state;
                Reaction { replies: sent, next: Next::Continue }
            },
            Ok(None) => Reaction { replies: sent, next: Next::Close(Ok(())) },
            Err(ConnectionError::ErrorResponse(e)) => {
                let mut replies = sent;
                replies.push(Reply::Message(BackendMessage::ErrorResponse(e.clone())));
                assert(replies_view(replies@) =~= replies_view(sent@).push(error_reply(e@)));
                match e.severity {
                    Severity::Fatal => Reaction {
                        replies,
                        next: Next::Close(Err(ConnectionError::ErrorResponse(e))),
                    },
                    Severity::Error => {
                        let ghost so_far = replies_view(replies@);
                        replies.push(Reply::Message(BackendMessage::ReadyForQuery));
                        assert(replies_view(replies@) =~= so_far.push(ready()));
                        self.state = ConnectionState::Idle;
                        Reaction { replies, next: Next::Continue }
                    },
                }
            },
            Err(other) => give_up(sent, other),
        }
    }

    /// Does what an event calls for: a message is taken by
    /// [`Connection::step`] and its outcome settled; a connection that
    /// failed is told so, as far as it can be, and the session ends; a
    /// connection closed between two messages ends an idle session in
    /// peace.
    pub fn react(&mut self, event: Event) -> (r: Reaction)
        requires
            old(self).wf(),
        ensures
            final(self).wf(),
            react_spec(
                old(self)@,
                old(self).spec_engine(),
                event@,
                final(self).reaction(r),
                final(self).spec_engine(),
            ),
    {
        match event {
            Event::Message(msg) => {
                let ghost pre = self@;
                let ghost before = self.engine;
                let ghost seen = msg@;
                let step = self.step(msg);
                let ghost out = self.outcome(step);
                let r = self.settle(step);
                assert(step_spec(pre, before, seen, out, self.engine) && self.reaction(r)
                    == settle(out));
                r
            },
            Event::Malformed(e) => give_up(nothing(), ConnectionError::Protocol(e)),
            Event::Eof => match self.state {
                ConnectionState::Idle => Reaction { replies: nothing(), next: Next::Close(Ok(())) },
                ConnectionState::Startup => give_up(nothing(), ConnectionError::ConnectionClosed),
            },
            Event::IoFailure => give_up(nothing(), ConnectionError::ConnectionClosed),
        }
    }
}

} // verus!
