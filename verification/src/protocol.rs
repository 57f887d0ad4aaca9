//! The vocabulary of the protocol: format codes, type identifiers, error
//! classes and the descriptions that travel in messages.

use vstd::prelude::*;

verus! {

/// How a value is laid out inside a message.
#[derive(Clone, Copy, Debug, PartialEq, Eq, Structural)]
pub enum FormatCode {
    /// The lexical form.
    Text,
    /// Fixed-width network byte order.
    Binary,
}

impl FormatCode {
    /// The number that stands for this format on the wire.
    pub open spec fn spec_code(self) -> i16 {
        match self {
            FormatCode::Text => 0,
            FormatCode::Binary => 1,
        }
    }

    /// The format that `code` stands for, if any.
    pub open spec fn spec_from_code(code: i16) -> Option<FormatCode> {
        if code == 0 {
            Some(FormatCode::Text)
        } else if code == 1 {
            Some(FormatCode::Binary)
        } else {
            None
        }
    }

    /// The number that stands for this format on the wire.
    pub fn code(self) -> (r: i16)
        ensures
            r == self.spec_code(),
    {
        match self {
            FormatCode::Text => 0,
            FormatCode::Binary => 1,
        }
    }

    /// The format that `code` stands for, if any.
    pub fn from_code(code: i16) -> (r: Option<FormatCode>)
        ensures
            r == Self::spec_from_code(code),
    {
        if code == 0 {
            Some(FormatCode::Text)
        } else if code == 1 {
            Some(FormatCode::Binary)
        } else {
            None
        }
    }
}

/// The value types that can be described to a client.
#[derive(Clone, Copy, Debug, PartialEq, Eq, Structural)]
pub enum DataTypeOid {
    Bool,
    Int2,
    Int4,
    Int8,
    Float4,
    Float8,
    Text,
    Date,
    Timestamp,
}

impl DataTypeOid {
    /// The object identifier of the type.
    pub open spec fn spec_oid(self) -> i32 {
        match self {
            DataTypeOid::Bool => 16,
            DataTypeOid::Int2 => 21,
            DataTypeOid::Int4 => 23,
            DataTypeOid::Int8 => 20,
            DataTypeOid::Float4 => 700,
            DataTypeOid::Float8 => 701,
            DataTypeOid::Text => 25,
            DataTypeOid::Date => 1082,
            DataTypeOid::Timestamp => 1114,
        }
    }

    /// The number of bytes of a value of the type, or -1 where the width
    /// varies.
    pub open spec fn spec_size(self) -> i16 {
        match self {
            DataTypeOid::Bool => 1,
            DataTypeOid::Int2 => 2,
            DataTypeOid::Int4 => 4,
            DataTypeOid::Int8 => 8,
            DataTypeOid::Float4 => 4,
            DataTypeOid::Float8 => 8,
            DataTypeOid::Text => -1i16,
            DataTypeOid::Date => 4,
            DataTypeOid::Timestamp => 8,
        }
    }

    /// The type with object identifier `oid`, if it is a supported one.
    pub open spec fn spec_from_oid(oid: i32) -> Option<DataTypeOid> {
        if oid == 16 {
            Some(DataTypeOid::Bool)
        } else if oid == 21 {
            Some(DataTypeOid::Int2)
        } else if oid == 23 {
            Some(DataTypeOid::Int4)
        } else if oid == 20 {
            Some(DataTypeOid::Int8)
        } else if oid == 700 {
            Some(DataTypeOid::Float4)
        } else if oid == 701 {
            Some(DataTypeOid::Float8)
        } else if oid == 25 {
            Some(DataTypeOid::Text)
        } else if oid == 1082 {
            Some(DataTypeOid::Date)
        } else if oid == 1114 {
            Some(DataTypeOid::Timestamp)
        } else {
            None
        }
    }

    /// The object identifier of the type.
    pub fn oid(self) -> (r: i32)
        ensures
            r == self.spec_oid(),
    {
        match self {
            DataTypeOid::Bool => 16,
            DataTypeOid::Int2 => 21,
            DataTypeOid::Int4 => 23,
            DataTypeOid::Int8 => 20,
            DataTypeOid::Float4 => 700,
            DataTypeOid::Float8 => 701,
            DataTypeOid::Text => 25,
            DataTypeOid::Date => 1082,
            DataTypeOid::Timestamp => 1114,
        }
    }

    /// The number of bytes of a value of the type, or -1 where the width
    /// varies.
    pub fn size(self) -> (r: i16)
        ensures
            r == self.spec_size(),
    {
        match self {
            DataTypeOid::Bool => 1,
            DataTypeOid::Int2 => 2,
            DataTypeOid::Int4 => 4,
            DataTypeOid::Int8 => 8,
            DataTypeOid::Float4 => 4,
            DataTypeOid::Float8 => 8,
            DataTypeOid::Text => -1,
            DataTypeOid::Date => 4,
            DataTypeOid::Timestamp => 8,
        }
    }

    /// The type with object identifier `oid`, if it is a supported one.
    pub fn from_oid(oid: i32) -> (r: Option<DataTypeOid>)
        ensures
            r == Self::spec_from_oid(oid),
    {
        if oid == 16 {
            Some(DataTypeOid::Bool)
        } else if oid == 21 {
            Some(DataTypeOid::Int2)
        } else if oid == 23 {
            Some(DataTypeOid::Int4)
        } else if oid == 20 {
            Some(DataTypeOid::Int8)
        } else if oid == 700 {
            Some(DataTypeOid::Float4)
        } else if oid == 701 {
            Some(DataTypeOid::Float8)
        } else if oid == 25 {
            Some(DataTypeOid::Text)
        } else if oid == 1082 {
            Some(DataTypeOid::Date)
        } else if oid == 1114 {
            Some(DataTypeOid::Timestamp)
        } else {
            None
        }
    }
}

/// Whether an error ends the session.
#[derive(Clone, Copy, Debug, PartialEq, Eq, Structural)]
pub enum Severity {
    /// The request is aborted; the session goes on.
    Error,
    /// The session ends.
    Fatal,
}

impl Severity {
    /// The word sent to the client.
    pub open spec fn spec_text(self) -> Seq<char> {
        match self {
            Severity::Error => seq!['E', 'R', 'R', 'O', 'R'],
            Severity::Fatal => seq!['F', 'A', 'T', 'A', 'L'],
        }
    }

    /// The severity that `text` names, if any.
    pub open spec fn spec_from_text(text: Seq<char>) -> Option<Severity> {
        if text == Severity::Error.spec_text() {
            Some(Severity::Error)
        } else if text == Severity::Fatal.spec_text() {
            Some(Severity::Fatal)
        } else {
            None
        }
    }

    /// The word sent to the client.
    pub fn text(self) -> (r: &'static str)
        ensures
            r@ == self.spec_text(),
    {
        proof {
            reveal_strlit("ERROR");
            reveal_strlit("FATAL");
        }
        match self {
            Severity::Error => {
                "ERROR"
            },
            Severity::Fatal => {
                "FATAL"
            },
        }
    }

    /// The severity that `text` names, if any.
    pub fn from_text(text: &str) -> (r: Option<Severity>)
        ensures
            r == Self::spec_from_text(text@),
    {
        if str_eq(text, Severity::Error.text()) {
            Some(Severity::Error)
        } else if str_eq(text, Severity::Fatal.text()) {
            Some(Severity::Fatal)
        } else {
            None
        }
    }
}

/// The error classes that the server reports.
#[derive(Clone, Copy, Debug, PartialEq, Eq, Structural)]
pub enum SqlState {
    /// `08000`
    ConnectionException,
    /// `0A000`
    FeatureNotSupported,
    /// `22000`
    DataException,
    /// `22007`
    InvalidDatetimeFormat,
    /// `26000`
    InvalidSqlStatementName,
    /// `34000`
    InvalidCursorName,
    /// `42601`
    SyntaxError,
    /// `08P01`
    ProtocolViolation,
}

impl SqlState {
    /// The five-character code of the class.
    pub open spec fn spec_code(self) -> Seq<char> {
        match self {
            SqlState::ConnectionException => seq!['0', '8', '0', '0', '0'],
            SqlState::FeatureNotSupported => seq!['0', 'A', '0', '0', '0'],
            SqlState::DataException => seq!['2', '2', '0', '0', '0'],
            SqlState::InvalidDatetimeFormat => seq!['2', '2', '0', '0', '7'],
            SqlState::InvalidSqlStatementName => seq!['2', '6', '0', '0', '0'],
            SqlState::InvalidCursorName => seq!['3', '4', '0', '0', '0'],
            SqlState::SyntaxError => seq!['4', '2', '6', '0', '1'],
            SqlState::ProtocolViolation => seq!['0', '8', 'P', '0', '1'],
        }
    }

    /// The class that `code` names, if it is one the server reports.
    pub open spec fn spec_from_code(code: Seq<char>) -> Option<SqlState> {
        if code == SqlState::ConnectionException.spec_code() {
            Some(SqlState::ConnectionException)
        } else if code == SqlState::FeatureNotSupported.spec_code() {
            Some(SqlState::FeatureNotSupported)
        } else if code == SqlState::DataException.spec_code() {
            Some(SqlState::DataException)
        } else if code == SqlState::InvalidDatetimeFormat.spec_code() {
            Some(SqlState::InvalidDatetimeFormat)
        } else if code == SqlState::InvalidSqlStatementName.spec_code() {
            Some(SqlState::InvalidSqlStatementName)
        } else if code == SqlState::InvalidCursorName.spec_code() {
            Some(SqlState::InvalidCursorName)
        } else if code == SqlState::SyntaxError.spec_code() {
            Some(SqlState::SyntaxError)
        } else if code == SqlState::ProtocolViolation.spec_code() {
            Some(SqlState::ProtocolViolation)
        } else {
            None
        }
    }

    /// The five-character code of the class.
    pub fn code(self) -> (r: &'static str)
        ensures
            r@ == self.spec_code(),
    {
        proof {
            reveal_strlit("08000");
            reveal_strlit("0A000");
            reveal_strlit("22000");
            reveal_strlit("22007");
            reveal_strlit("26000");
            reveal_strlit("34000");
            reveal_strlit("42601");
            reveal_strlit("08P01");
        }
        match self {
            SqlState::ConnectionException => {
                "08000"
            },
            SqlState::FeatureNotSupported => {
                "0A000"
            },
            SqlState::DataException => {
                "22000"
            },
            SqlState::InvalidDatetimeFormat => {
                "22007"
            },
            SqlState::InvalidSqlStatementName => {
                "26000"
            },
            SqlState::InvalidCursorName => {
                "34000"
            },
            SqlState::SyntaxError => {
                "42601"
            },
            SqlState::ProtocolViolation => {
                "08P01"
            },
        }
    }

    /// The class that `code` names, if it is one the server reports.
    pub fn from_code(code: &str) -> (r: Option<SqlState>)
        ensures
            r == Self::spec_from_code(code@),
    {
        if str_eq(code, SqlState::ConnectionException.code()) {
            Some(SqlState::ConnectionException)
        } else if str_eq(code, SqlState::FeatureNotSupported.code()) {
            Some(SqlState::FeatureNotSupported)
        } else if str_eq(code, SqlState::DataException.code()) {
            Some(SqlState::DataException)
        } else if str_eq(code, SqlState::InvalidDatetimeFormat.code()) {
            Some(SqlState::InvalidDatetimeFormat)
        } else if str_eq(code, SqlState::InvalidSqlStatementName.code()) {
            Some(SqlState::InvalidSqlStatementName)
        } else if str_eq(code, SqlState::InvalidCursorName.code()) {
            Some(SqlState::InvalidCursorName)
        } else if str_eq(code, SqlState::SyntaxError.code()) {
            Some(SqlState::SyntaxError)
        } else if str_eq(code, SqlState::ProtocolViolation.code()) {
            Some(SqlState::ProtocolViolation)
        } else {
            None
        }
    }
}

/// Why bytes from the client could not be read as a message.
#[derive(Clone, Copy, Debug, PartialEq, Eq, Structural)]
pub enum ProtocolError {
    /// The bytes end before the message does.
    ShortRead,
    /// A startup packet names neither protocol 3.0 nor a known request.
    BadMagic,
    /// A code names nothing known: a message tag, the target of a
    /// `Describe`, or a format code.
    BadTag,
    /// A string is not UTF-8.
    BadUtf8,
    /// The length a message announces does not fit what it holds.
    LengthMismatch,
}

/// An error as the client sees it.
#[derive(Debug, PartialEq, Eq)]
pub struct ErrorResponse {
    pub severity: Severity,
    pub sql_state: SqlState,
    pub message: String,
}

/// The mathematical content of an [`ErrorResponse`].
pub ghost struct ErrorResponseView {
    pub severity: Severity,
    pub sql_state: SqlState,
    pub message: Seq<char>,
}

impl View for ErrorResponse {
    type V = ErrorResponseView;

    open spec fn view(&self) -> ErrorResponseView {
        ErrorResponseView {
            severity: self.severity,
            sql_state: self.sql_state,
            message: self.message@,
        }
    }
}

impl Clone for ErrorResponse {
    fn clone(&self) -> (r: Self)
        ensures
            r@ == self@,
    {
        ErrorResponse {
            severity: self.severity,
            sql_state: self.sql_state,
            message: self.message.clone(),
        }
    }
}

impl ErrorResponse {
    /// An error of the given class and severity.
    pub fn new(severity: Severity, sql_state: SqlState, message: &str) -> (r: Self)
        ensures
            r@ == (ErrorResponseView { severity, sql_state, message: message@ }),
    {
        ErrorResponse { severity, sql_state, message: message.to_owned() }
    }

    /// An error that aborts the request and leaves the session open.
    pub fn error(sql_state: SqlState, message: &str) -> (r: Self)
        ensures
            r@ == (ErrorResponseView { severity: Severity::Error, sql_state, message: message@ }),
    {
        ErrorResponse::new(Severity::Error, sql_state, message)
    }

    /// An error that ends the session.
    pub fn fatal(sql_state: SqlState, message: &str) -> (r: Self)
        ensures
            r@ == (ErrorResponseView { severity: Severity::Fatal, sql_state, message: message@ }),
    {
        ErrorResponse::new(Severity::Fatal, sql_state, message)
    }
}

/// One column of a result: its name and the type of its values.
#[derive(Debug, PartialEq, Eq)]
pub struct FieldDescription {
    pub name: String,
    pub data_type: DataTypeOid,
}

/// The mathematical content of a [`FieldDescription`].
pub ghost struct FieldDescriptionView {
    pub name: Seq<char>,
    pub data_type: DataTypeOid,
}

impl View for FieldDescription {
    type V = FieldDescriptionView;

    open spec fn view(&self) -> FieldDescriptionView {
        FieldDescriptionView { name: self.name@, data_type: self.data_type }
    }
}

impl Clone for FieldDescription {
    fn clone(&self) -> (r: Self)
        ensures
            r@ == self@,
    {
        FieldDescription { name: self.name.clone(), data_type: self.data_type }
    }
}

/// The descriptions held by a sequence of fields, one for one.
pub open spec fn fields_view(fields: Seq<FieldDescription>) -> Seq<FieldDescriptionView> {
    Seq::new(fields.len(), |i: int| fields[i]@)
}

/// Copies a list of fields.
pub fn clone_fields(fields: &Vec<FieldDescription>) -> (r: Vec<FieldDescription>)
    ensures
        fields_view(r@) == fields_view(fields@),
{
    let mut out: Vec<FieldDescription> = Vec::new();
    let mut i: usize = 0;
    while i < fields.len()
        invariant
            i <= fields@.len(),
            out@.len() == i,
            forall|k: int| 0 <= k < i ==> out@[k]@ == fields@[k]@,
        decreases fields@.len() - i,
    {
        out.push(fields[i].clone());
        i += 1;
    }
    out
}

/// The columns of a result and the one format in which all of their values
/// are sent.
#[derive(Debug, PartialEq, Eq)]
pub struct RowDescription {
    pub fields: Vec<FieldDescription>,
    pub format_code: FormatCode,
}

/// The mathematical content of a [`RowDescription`].
pub ghost struct RowDescriptionView {
    pub fields: Seq<FieldDescriptionView>,
    pub format_code: FormatCode,
}

impl View for RowDescription {
    type V = RowDescriptionView;

    open spec fn view(&self) -> RowDescriptionView {
        RowDescriptionView { fields: fields_view(self.fields@), format_code: self.format_code }
    }
}

impl Clone for RowDescription {
    fn clone(&self) -> (r: Self)
        ensures
            r@ == self@,
    {
        RowDescription { fields: clone_fields(&self.fields), format_code: self.format_code }
    }
}

/// One row of a result: for each column its bytes, or nothing for NULL.
#[derive(Debug, PartialEq, Eq)]
pub struct DataRow {
    pub cells: Vec<Option<Vec<u8>>>,
}

/// The bytes held by a sequence of cells, one for one.
pub open spec fn cells_view(cells: Seq<Option<Vec<u8>>>) -> Seq<Option<Seq<u8>>> {
    Seq::new(
        cells.len(),
        |i: int|
            match cells[i] {
                Some(bytes) => Some(bytes@),
                None => None,
            },
    )
}

impl View for DataRow {
    type V = Seq<Option<Seq<u8>>>;

    open spec fn view(&self) -> Seq<Option<Seq<u8>>> {
        cells_view(self.cells@)
    }
}

/// Whether two strings hold the same characters.
pub fn str_eq(a: &str, b: &str) -> (r: bool)
    ensures
        r == (a@ == b@),
{
    let x = a.to_owned();
    let y = b.to_owned();
    x == y
}

} // verus!
