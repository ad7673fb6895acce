//! Failures of the PostgreSQL sink, as plain values.
use vstd::prelude::*;

verus! {

/// A failed database call, as the driver reported it.
#[derive(Debug, Clone)]
pub enum PostgresFailure {
    /// The server answered with an error: its five-character SQLSTATE and message.
    Db { code: String, message: String },
    /// A value of the batch did not match the type of its column.
    WrongType,
    /// The connection or the client failed without a server error.
    Client { message: String },
}

/// A database failure with a description of what was being done.
#[derive(Debug, Clone)]
pub struct DescribedError {
    pub message: String,
    pub inner: PostgresFailure,
}

/// A failure described by text alone.
#[derive(Debug, Clone)]
pub struct StringError {
    pub message: String,
}

/// The table that a COPY named does not exist.
#[derive(Debug, Clone)]
pub struct MissingTable {
    pub table: String,
}

/// The table lacks a column of the batch; `data_type` is the type to add it with.
#[derive(Debug, Clone)]
pub struct MissingColumn {
    pub table: String,
    pub column: String,
    pub data_type: String,
}

/// Why writing a batch stopped.
#[derive(Debug, Clone)]
pub enum SinkError {
    Postgres(PostgresFailure),
    DescribedError(DescribedError),
    StringError(StringError),
    MissingColumn(MissingColumn),
    MissingTable(MissingTable),
}

/// A database failure, with its texts as sequences of characters.
pub enum FailureView {
    Db { code: Seq<char>, message: Seq<char> },
    WrongType,
    Client { message: Seq<char> },
}

/// A sink error, with its texts as sequences of characters.
pub enum SinkErrorView {
    Postgres(FailureView),
    Described { message: Seq<char>, inner: FailureView },
    Plain { message: Seq<char> },
    MissingColumn { table: Seq<char>, column: Seq<char>, data_type: Seq<char> },
    MissingTable { table: Seq<char> },
}

impl View for PostgresFailure {
    type V = FailureView;

    open spec fn view(&self) -> FailureView {
        match self {
            PostgresFailure::Db { code, message } => FailureView::Db {
                code: code@,
                message: message@,
            },
            PostgresFailure::WrongType => FailureView::WrongType,
            PostgresFailure::Client { message } => FailureView::Client { message: message@ },
        }
    }
}

impl View for SinkError {
    type V = SinkErrorView;

    open spec fn view(&self) -> SinkErrorView {
        match self {
            SinkError::Postgres(f) => SinkErrorView::Postgres(f@),
            SinkError::DescribedError(d) => SinkErrorView::Described {
                message: d.message@,
                inner: d.inner@,
            },
            SinkError::StringError(s) => SinkErrorView::Plain { message: s.message@ },
            SinkError::MissingColumn(m) => SinkErrorView::MissingColumn {
                table: m.table@,
                column: m.column@,
                data_type: m.data_type@,
            },
            SinkError::MissingTable(m) => SinkErrorView::MissingTable { table: m.table@ },
        }
    }
}

impl PostgresFailure {
    /// A copy with the same view.
    pub fn duplicate(&self) -> (r: PostgresFailure)
        ensures
            r@ == self@,
    {
        match self {
            PostgresFailure::Db { code, message } => PostgresFailure::Db {
                code: code.clone(),
                message: message.clone(),
            },
            PostgresFailure::WrongType => PostgresFailure::WrongType,
            PostgresFailure::Client { message } => PostgresFailure::Client {
                message: message.clone(),
            },
        }
    }
}

/// The SQL states that the sink tells apart.
#[derive(Debug, Clone, Copy, PartialEq, Eq, Structural)]
pub enum SqlState {
    /// `42P01`
    UndefinedTable,
    /// `42703`
    UndefinedColumn,
    /// `42704`
    UndefinedObject,
    /// `42501`
    InsufficientPrivilege,
    Other,
}

/// The state that a SQLSTATE code names.
pub open spec fn state_of_code(code: Seq<char>) -> SqlState {
    if code == "42P01"@ {
        SqlState::UndefinedTable
    } else if code == "42703"@ {
        SqlState::UndefinedColumn
    } else if code == "42704"@ {
        SqlState::UndefinedObject
    } else if code == "42501"@ {
        SqlState::InsufficientPrivilege
    } else {
        SqlState::Other
    }
}

/// Classifies a SQLSTATE code.
pub fn sql_state(code: &String) -> (r: SqlState)
    ensures
        r == state_of_code(code@),
{
    if *code == String::from_str("42P01") {
        SqlState::UndefinedTable
    } else if *code == String::from_str("42703") {
        SqlState::UndefinedColumn
    } else if *code == String::from_str("42704") {
        SqlState::UndefinedObject
    } else if *code == String::from_str("42501") {
        SqlState::InsufficientPrivilege
    } else {
        SqlState::Other
    }
}

} // verus!
