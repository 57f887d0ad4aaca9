//! What an engine built on DuckDB needs around its database calls: the
//! portal that holds a result, the statements that prepare a fresh
//! connection, and the errors of the database as a client is told of them.

use crate::engine::Portal;
use crate::protocol::{
    clone_fields, fields_view, DataTypeOid, ErrorResponse, ErrorResponseView, FieldDescription,
    FieldDescriptionView, FormatCode, Severity, SqlState,
};
use crate::protocol_ext::{DataWriter, DataWriterView};
use crate::table::{record_batch_to_rows, schema_to_field_desc, RecordBatch, Schema};
use vstd::prelude::*;
use vstd::string::StringExecFns;

verus! {

/// The kinds of failure that the database reports.
#[derive(Clone, Copy, Debug, PartialEq, Eq, Structural)]
pub enum DuckDbErrorKind {
    DuckDBFailure,
    FromSqlConversionFailure,
    IntegralValueOutOfRange,
    Utf8Error,
    NulError,
    InvalidParameterName,
    InvalidPath,
    ExecuteReturnedResults,
    QueryReturnedNoRows,
    InvalidColumnIndex,
    InvalidColumnName,
    InvalidColumnType,
    StatementChangedRows,
    ToSqlConversionFailure,
    InvalidQuery,
    MultipleStatement,
    InvalidParameterCount,
    AppendError,
    /// Any kind not named above.
    Other,
}

/// A failure of the database: its kind and what the database says of it.
#[derive(Debug, PartialEq, Eq)]
pub struct DuckDbError {
    pub kind: DuckDbErrorKind,
    pub message: String,
}

impl DuckDbErrorKind {
    /// The class under which a failure of this kind is reported: a failure
    /// of the database itself is a connection exception; a statement or a
    /// parameter that cannot be understood is a syntax error; everything
    /// else, a kind that has no name here too, is a data exception.
    pub open spec fn spec_sql_state(self) -> SqlState {
        match self {
            DuckDbErrorKind::DuckDBFailure => SqlState::ConnectionException,
            DuckDbErrorKind::FromSqlConversionFailure => SqlState::SyntaxError,
            DuckDbErrorKind::InvalidParameterName => SqlState::SyntaxError,
            DuckDbErrorKind::InvalidPath => SqlState::SyntaxError,
            DuckDbErrorKind::ToSqlConversionFailure => SqlState::SyntaxError,
            DuckDbErrorKind::InvalidQuery => SqlState::SyntaxError,
            DuckDbErrorKind::MultipleStatement => SqlState::SyntaxError,
            DuckDbErrorKind::InvalidParameterCount => SqlState::SyntaxError,
            _ => SqlState::DataException,
        }
    }

    /// The class under which a failure of this kind is reported.
    pub fn sql_state(self) -> (s: SqlState)
        ensures
            s == self.spec_sql_state(),
    {
        match self {
            DuckDbErrorKind::DuckDBFailure => SqlState::ConnectionException,
            DuckDbErrorKind::FromSqlConversionFailure => SqlState::SyntaxError,
            DuckDbErrorKind::IntegralValueOutOfRange => SqlState::DataException,
            DuckDbErrorKind::Utf8Error => SqlState::DataException,
            DuckDbErrorKind::NulError => SqlState::DataException,
            DuckDbErrorKind::InvalidParameterName => SqlState::SyntaxError,
            DuckDbErrorKind::InvalidPath => SqlState::SyntaxError,
            DuckDbErrorKind::ExecuteReturnedResults => SqlState::DataException,
            DuckDbErrorKind::QueryReturnedNoRows => SqlState::DataException,
            DuckDbErrorKind::InvalidColumnIndex => SqlState::DataException,
            DuckDbErrorKind::InvalidColumnName => SqlState::DataException,
            DuckDbErrorKind::InvalidColumnType => SqlState::DataException,
            DuckDbErrorKind::StatementChangedRows => SqlState::DataException,
            DuckDbErrorKind::ToSqlConversionFailure => SqlState::SyntaxError,
            DuckDbErrorKind::InvalidQuery => SqlState::SyntaxError,
            DuckDbErrorKind::MultipleStatement => SqlState::SyntaxError,
            DuckDbErrorKind::InvalidParameterCount => SqlState::SyntaxError,
            DuckDbErrorKind::AppendError => SqlState::DataException,
            DuckDbErrorKind::Other => SqlState::DataException,
        }
    }
}

/// A failure of the database as a client is told of it: recoverable, under
/// the class of its kind, with the database's own words.
pub fn to_wire_error(e: DuckDbError) -> (r: ErrorResponse)
    ensures
        r@ == (ErrorResponseView {
            severity: Severity::Error,
            sql_state: e.kind.spec_sql_state(),
            message: e.message@,
        }),
{
    ErrorResponse { severity: Severity::Error, sql_state: e.kind.sql_state(), message: e.message }
}

/// The error for a pool that gave no connection, with the pool's words.
pub fn pool_error(reason: &str) -> (r: ErrorResponse)
    ensures
        r@ == (ErrorResponseView {
            severity: Severity::Error,
            sql_state: SqlState::ConnectionException,
            message: "cannot retrieve lock to connection : "@ + reason@,
        }),
{
    let message = String::from_str("cannot retrieve lock to connection : ").concat(reason);
    ErrorResponse { severity: Severity::Error, sql_state: SqlState::ConnectionException, message }
}

/// The statements that bring an extension into a connection: it is loaded,
/// then installed.
pub fn extension_statements(extension: &str) -> (r: (String, String))
    ensures
        r.0@ == "LOAD "@ + extension@,
        r.1@ == "INSTALL "@ + extension@,
{
    (String::from_str("LOAD ").concat(extension), String::from_str("INSTALL ").concat(extension))
}

/// The extensions that every connection starts with, in the order in which
/// they are brought in.
pub fn default_extensions() -> (r: Vec<&'static str>)
    ensures
        r@.len() == 3,
        r@[0]@ == "parquet"@,
        r@[1]@ == "json"@,
        r@[2]@ == "excel"@,
{
    let mut r: Vec<&'static str> = Vec::new();
    r.push("parquet");
    r.push("json");
    r.push("excel");
    r
}

/// Whether a connection has started, given for each statement that was run
/// to bring in the extensions whether it succeeded: it has where none
/// failed.
pub fn startup_outcome(succeeded: &Vec<bool>) -> (r: Result<(), ErrorResponse>)
    ensures
        match r {
            Ok(_) => forall|i: int| 0 <= i < succeeded@.len() ==> succeeded@[i],
            Err(e) => (exists|i: int| 0 <= i < succeeded@.len() && !succeeded@[i]) && e@ == (
            ErrorResponseView {
                severity: Severity::Error,
                sql_state: SqlState::ConnectionException,
                message: "cannot initialize default plugin"@,
            }),
        },
{
    let mut i: usize = 0;
    while i < succeeded.len()
        invariant
            i <= succeeded@.len(),
            forall|k: int| 0 <= k < i ==> succeeded@[k],
        decreases succeeded@.len() - i,
    {
        if !succeeded[i] {
            return Err(
                ErrorResponse::error(
                    SqlState::ConnectionException,
                    "cannot initialize default plugin",
                ),
            );
        }
        i += 1;
    }
    Ok(())
}

/// What comes next while a connection starts.
#[derive(Debug, PartialEq, Eq)]
pub enum StartupStep {
    /// Run this statement and note whether it succeeded.
    Run(String),
    /// Nothing is left to run: the connection has started, or has not.
    Done(Result<(), ErrorResponse>),
}

/// The mathematical content of a [`StartupStep`].
pub ghost enum StartupStepView {
    Run(Seq<char>),
    Done(Result<(), ErrorResponseView>),
}

impl View for StartupStep {
    type V = StartupStepView;

    open spec fn view(&self) -> StartupStepView {
        match self {
            StartupStep::Run(statement) => StartupStepView::Run(statement@),
            StartupStep::Done(Ok(_)) => StartupStepView::Done(Ok(())),
            StartupStep::Done(Err(e)) => StartupStepView::Done(Err(e@)),
        }
    }
}

/// The names of the extensions that every connection starts with.
pub open spec fn extension_names() -> Seq<Seq<char>> {
    seq!["parquet"@, "json"@, "excel"@]
}

/// The statements that start a connection, in the order in which they are
/// run: each extension is loaded, then installed.
pub open spec fn startup_statement(i: int) -> Seq<char> {
    if i % 2 == 0 {
        "LOAD "@ + extension_names()[i / 2]
    } else {
        "INSTALL "@ + extension_names()[i / 2]
    }
}

/// The error for a connection that could not bring in its extensions.
pub open spec fn plugin_error() -> ErrorResponseView {
    ErrorResponseView {
        severity: Severity::Error,
        sql_state: SqlState::ConnectionException,
        message: "cannot initialize default plugin"@,
    }
}

/// What comes next, given for each statement run so far whether it
/// succeeded: nothing more once a statement has failed, and the connection
/// has not started; else the next statement; and when all six have
/// succeeded the connection has started.
pub open spec fn startup_step_spec(succeeded: Seq<bool>) -> StartupStepView {
    if exists|i: int| 0 <= i < succeeded.len() && !succeeded[i] {
        StartupStepView::Done(Err(plugin_error()))
    } else if succeeded.len() >= 2 * extension_names().len() {
        StartupStepView::Done(Ok(()))
    } else {
        StartupStepView::Run(startup_statement(succeeded.len() as int))
    }
}

/// What comes next while a connection starts, given for each statement
/// run so far whether it succeeded.
pub fn startup_step(succeeded: &Vec<bool>) -> (r: StartupStep)
    ensures
        r@ == startup_step_spec(succeeded@),
{
    match startup_outcome(succeeded) {
        Err(e) => StartupStep::Done(Err(e)),
        Ok(_) => {
            let extensions = default_extensions();
            let done = succeeded.len();
            if done >= 2 * extensions.len() {
                StartupStep::Done(Ok(()))
            } else {
                let (load, install) = extension_statements(extensions[done / 2]);
                if done % 2 == 0 {
                    StartupStep::Run(load)
                } else {
                    StartupStep::Run(install)
                }
            }
        },
    }
}

/// Whether every one of the first `n` batches has `width` columns, each
/// with a value for every row.
pub open spec fn batches_fit(records: Seq<RecordBatch>, n: int, width: nat) -> bool {
    forall|i: int|
        0 <= i < n ==> (#[trigger] records[i]).wf() && records[i].columns@.len() == width
}

/// The rows of the first `n` batches, all of which can be written.
pub open spec fn batch_rows(records: Seq<RecordBatch>, n: int, format: FormatCode) -> Seq<
    Seq<Option<Seq<u8>>>,
>
    decreases n,
{
    if n <= 0 {
        Seq::empty()
    } else {
        batch_rows(records, n - 1, format) + records[n - 1].rows(
            records[n - 1].num_rows as int,
            format,
        )
    }
}

/// Whether every row of the first `n` batches can be written.
pub open spec fn batches_writable(records: Seq<RecordBatch>, n: int, format: FormatCode) -> bool {
    forall|i: int|
        0 <= i < n ==> (#[trigger] records[i]).rows_writable(records[i].num_rows as int, format)
}

/// The error for batches that do not fit the schema they came with.
pub open spec fn misfit() -> ErrorResponseView {
    ErrorResponseView {
        severity: Severity::Error,
        sql_state: SqlState::DataException,
        message: "result does not fit its schema"@,
    }
}

/// Whether batch `i` is the first with a value that cannot be written, the
/// cell in its row `row` and column `col` is the first such value, and `e`
/// is why.
pub open spec fn first_bad_batch(
    records: Seq<RecordBatch>,
    i: int,
    row: int,
    col: int,
    format: FormatCode,
    e: ErrorResponseView,
) -> bool {
    &&& 0 <= i < records.len()
    &&& batches_writable(records, i, format)
    &&& records[i].first_failure(row, col, format, e)
}

/// The result of a query: its columns and its rows, batch by batch.
pub struct DuckDBPortal {
    fields: Vec<FieldDescription>,
    records: Vec<RecordBatch>,
}

impl DuckDBPortal {
    #[verifier::type_invariant]
    spec fn inv(self) -> bool {
        batches_fit(self.records@, self.records@.len() as int, self.fields@.len())
    }

    /// The columns of the result.
    pub closed spec fn fields(&self) -> Seq<FieldDescriptionView> {
        fields_view(self.fields@)
    }

    /// The batches of the result.
    pub closed spec fn records(&self) -> Seq<RecordBatch> {
        self.records@
    }

    /// A portal over the given columns and batches, where every batch has
    /// one column for each of `fields`, each with a value for every row.
    pub fn new(fields: Vec<FieldDescription>, records: Vec<RecordBatch>) -> (r: Option<Self>)
        ensures
            r is Some <==> batches_fit(records@, records@.len() as int, fields@.len()),
            r matches Some(p) ==> p.fields() == fields_view(fields@) && p.records() == records@,
    {
        let mut i: usize = 0;
        while i < records.len()
            invariant
                i <= records@.len(),
                batches_fit(records@, i as int, fields@.len()),
            decreases records@.len() - i,
        {
            let batch = &records[i];
            if batch.columns.len() != fields.len() || !batch.is_well_formed() {
                return None;
            }
            i += 1;
        }
        Some(DuckDBPortal { fields, records })
    }

    /// A portal over the batches of a result with the given schema. The
    /// fields are described as [`schema_to_field_desc`] says, and its
    /// error is returned where a field cannot be; batches that do not fit
    /// the schema are a data exception.
    pub fn from_result(schema: &Schema, records: Vec<RecordBatch>) -> (r: Result<
        Self,
        ErrorResponse,
    >)
        ensures
            match r {
                Ok(p) => schema.describable(schema.fields@.len() as int) && batches_fit(
                    records@,
                    records@.len() as int,
                    schema.fields@.len(),
                ) && p.fields() == schema.descriptions() && p.records() == records@,
                Err(e) => if schema.describable(schema.fields@.len() as int) {
                    !batches_fit(records@, records@.len() as int, schema.fields@.len()) && e@
                        == misfit()
                } else {
                    exists|i: int|
                        0 <= i < schema.fields@.len() && schema.describable(i) && (
                        #[trigger] schema.fields@[i]).data_type.spec_oid() == Err::<
                            DataTypeOid,
                            ErrorResponseView,
                        >(e@)
                },
            },
    {
        match schema_to_field_desc(schema) {
            Err(e) => Err(e),
            Ok(fields) => {
                assert(fields@.len() == fields_view(fields@).len());
                match DuckDBPortal::new(fields, records) {
                    Some(p) => Ok(p),
                    None => Err(
                        ErrorResponse::error(
                            SqlState::DataException,
                            "result does not fit its schema",
                        ),
                    ),
                }
            },
        }
    }
}

impl Portal for DuckDBPortal {
    /// The portal stays as it is. The writer is given the portal's columns
    /// and then the rows of its batches in order; where a value cannot be
    /// written, the rows before its row stay written and its error is the
    /// result.
    open spec fn fetches(
        &self,
        before: DataWriterView,
        after: &Self,
        written: DataWriterView,
        result: Result<(), ErrorResponseView>,
    ) -> bool {
        let format = before.row_desc.format_code;
        &&& after.fields() == self.fields()
        &&& after.records() == self.records()
        &&& written.row_desc.fields == self.fields()
        &&& result is Ok <==> batches_writable(
            self.records(),
            self.records().len() as int,
            format,
        )
        &&& result is Ok ==> written.rows == batch_rows(
            self.records(),
            self.records().len() as int,
            format,
        )
        &&& result matches Err(e) ==> exists|i: int, row: int, col: int|
            {
                &&& #[trigger] first_bad_batch(self.records(), i, row, col, format, e)
                &&& written.rows == batch_rows(self.records(), i, format)
                    + self.records()[i].rows(row, format)
            }
    }

    /// Names the columns, then writes the batches in order. Where a value
    /// cannot be written, the rows before its row stay written and its
    /// error is returned.
    fn fetch(&mut self, w: &mut DataWriter) -> (r: Result<(), ErrorResponse>)
    {
        proof {
            use_type_invariant(&*self);
        }
        let ghost format = w@.row_desc.format_code;
        w.set_fields(clone_fields(&self.fields));
        let mut i: usize = 0;
        while i < self.records.len()
            invariant
                i <= self.records@.len(),
                *self == *old(self),
                format == old(w)@.row_desc.format_code,
                batches_fit(self.records@, self.records@.len() as int, self.fields@.len()),
                w@.wf(),
                w@.row_desc.fields == fields_view(self.fields@),
                w@.row_desc.format_code == format,
                batches_writable(self.records@, i as int, format),
                w@.rows == batch_rows(self.records@, i as int, format),
            decreases self.records@.len() - i,
        {
            let batch = &self.records[i];
            let ghost so_far = w@.rows;
            match record_batch_to_rows(batch, w) {
                Err(e) => {
                    proof {
                        let (row, col) = choose|row: int, col: int|
                            {
                                &&& #[trigger] batch.first_failure(row, col, format, e@)
                                &&& w@.rows == so_far + batch.rows(row, format)
                            };
                        assert(first_bad_batch(self.records@, i as int, row, col, format, e@));
                        assert(w@.rows == batch_rows(self.records@, i as int, format)
                            + self.records@[i as int].rows(row, format));
                    }
                    return Err(e);
                },
                Ok(_) => {
                },
            }
            i += 1;
        }
        Ok(())
    }
}

} // verus!
