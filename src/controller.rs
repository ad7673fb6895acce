//! The schema controller: it reads why a COPY failed, picks the DDL that repairs the
//! table (a missing table or column), and decides whether to retry or abandon the
//! batch of one metric.
use vstd::prelude::*;
use vstd::seq_lib::seq_to_set_is_finite;
use crate::errors::{DescribedError, FailureView, MissingColumn, MissingTable, PostgresFailure, SinkError, SinkErrorView, SqlState, sql_state, state_of_code};
use crate::model::Datum;
use crate::schema::{column_type_name, contains_text, first_column_type, infer_column_type, sql_column_type_name, texts};
use crate::text::{int_text, u64_text};

verus! {

/// The table that the message `relation "<table>" does not exist` names.
pub uninterp spec fn table_capture_of(message: Seq<char>) -> Option<Seq<char>>;

/// The table and column that the message
/// `column "<column>" of relation "<table>" does not exist` names.
pub uninterp spec fn column_capture_of(message: Seq<char>) -> Option<(Seq<char>, Seq<char>)>;

/// Relies on `regex::Regex::captures` with the pattern
/// `relation "(?P<table>.+)" does not exist`: the group `table` of the first
/// match, if there is one. The pattern is valid, so `unwrap` does not panic.
#[verifier::external_body]
fn capture_missing_table(message: &str) -> (r: Option<String>)
    ensures
        match r {
            Some(t) => table_capture_of(message@) == Some(t@),
            None => table_capture_of(message@) is None,
        },
{
    regex::Regex::new(r#"relation "(?P<table>.+)" does not exist"#).unwrap().captures(
        message,
    ).and_then(|c| c.name("table").map(|m| m.as_str().to_string()))
}

/// Relies on `regex::Regex::captures` with the pattern
/// `column "(?P<column>.+)" of relation "(?P<table>.+)" does not exist`: the groups
/// `table` and `column` of the first match, if there is one. The pattern is valid,
/// so `unwrap` does not panic.
#[verifier::external_body]
fn capture_missing_column(message: &str) -> (r: Option<(String, String)>)
    ensures
        match r {
            Some(tc) => column_capture_of(message@) == Some((tc.0@, tc.1@)),
            None => column_capture_of(message@) is None,
        },
{
    regex::Regex::new(r#"column "(?P<column>.+)" of relation "(?P<table>.+)" does not exist"#)
        .unwrap().captures(message).and_then(
        |c| match (c.name("table"), c.name("column")) {
            (Some(t), Some(col)) => Some((t.as_str().to_string(), col.as_str().to_string())),
            _ => None,
        },
    )
}

/// The error that a failed COPY start becomes, given what the two message patterns
/// captured: a missing column (with the type inferred from the batch), a missing
/// table, or the failure itself.
pub open spec fn copy_error_view(
    f: FailureView,
    table_cap: Option<Seq<char>>,
    column_cap: Option<(Seq<char>, Seq<char>)>,
    ds: Seq<Datum>,
) -> SinkErrorView {
    match f {
        FailureView::Db { code, message } => {
            if state_of_code(code) == SqlState::UndefinedColumn {
                match column_cap {
                    Some(tc) => match first_column_type(ds, tc.1) {
                        Some(t) => SinkErrorView::MissingColumn {
                            table: tc.0,
                            column: tc.1,
                            data_type: column_type_name(t),
                        },
                        None => SinkErrorView::Described {
                            message: "type not found, can't add column"@,
                            inner: f,
                        },
                    },
                    None => SinkErrorView::Postgres(f),
                }
            } else if state_of_code(code) == SqlState::UndefinedTable {
                match table_cap {
                    Some(t) => SinkErrorView::MissingTable { table: t },
                    None => SinkErrorView::Postgres(f),
                }
            } else {
                SinkErrorView::Postgres(f)
            }
        },
        _ => SinkErrorView::Postgres(f),
    }
}

/// The views of an optional captured text.
pub open spec fn opt_text(o: Option<String>) -> Option<Seq<char>> {
    match o {
        Some(s) => Some(s@),
        None => None,
    }
}

/// The views of an optional captured pair.
pub open spec fn opt_pair(o: Option<(String, String)>) -> Option<(Seq<char>, Seq<char>)> {
    match o {
        Some(p) => Some((p.0@, p.1@)),
        None => None,
    }
}

/// Turns a failed COPY start into a sink error, given what the message patterns
/// captured.
pub fn classify_copy_failure_with(
    failure: PostgresFailure,
    table_cap: Option<String>,
    column_cap: Option<(String, String)>,
    datums: &Vec<Datum>,
) -> (r: SinkError)
    ensures
        r@ == copy_error_view(failure@, opt_text(table_cap), opt_pair(column_cap), datums@),
{
    let state = match &failure {
        PostgresFailure::Db { code, message: _ } => sql_state(code),
        _ => SqlState::Other,
    };
    match state {
        SqlState::UndefinedColumn => match column_cap {
            Some(tc) => match infer_column_type(datums, &tc.1) {
                Some(t) => SinkError::MissingColumn(
                    MissingColumn {
                        table: tc.0,
                        column: tc.1,
                        data_type: String::from_str(sql_column_type_name(t)),
                    },
                ),
                None => SinkError::DescribedError(
                    DescribedError {
                        message: String::from_str("type not found, can't add column"),
                        inner: failure,
                    },
                ),
            },
            None => SinkError::Postgres(failure),
        },
        SqlState::UndefinedTable => match table_cap {
            Some(t) => SinkError::MissingTable(MissingTable { table: t }),
            None => SinkError::Postgres(failure),
        },
        _ => SinkError::Postgres(failure),
    }
}

/// The message of a server error; empty for other failures.
pub open spec fn failure_message(f: FailureView) -> Seq<char> {
    match f {
        FailureView::Db { code: _, message } => message,
        _ => Seq::empty(),
    }
}

/// Turns a failed COPY start into a sink error, reading the table and column names
/// out of the server's message.
pub fn classify_copy_failure(failure: PostgresFailure, datums: &Vec<Datum>) -> (r: SinkError)
    ensures
        r@ == copy_error_view(
            failure@,
            table_capture_of(failure_message(failure@)),
            column_capture_of(failure_message(failure@)),
            datums@,
        ),
{
    let (table_cap, column_cap) = match &failure {
        PostgresFailure::Db { code: _, message } => (
            capture_missing_table(message.as_str()),
            capture_missing_column(message.as_str()),
        ),
        _ => (None, None),
    };
    classify_copy_failure_with(failure, table_cap, column_cap, datums)
}

/// `alter table <table> add column <column> <data_type>`
pub open spec fn add_column_text(table: Seq<char>, column: Seq<char>, data_type: Seq<char>) -> Seq<
    char,
> {
    "alter table "@ + table + " add column "@ + column + " "@ + data_type
}

/// Builds the statement that adds a column.
pub fn add_column_sql(table: &str, column: &str, data_type: &str) -> (r: String)
    ensures
        r@ == add_column_text(table@, column@, data_type@),
{
    let mut r = String::from_str("alter table ");
    r.append(table);
    r.append(" add column ");
    r.append(column);
    r.append(" ");
    r.append(data_type);
    r
}

/// The statements that enable compression on a hypertable.
pub open spec fn compression_text(table: Seq<char>) -> Seq<char> {
    "ALTER TABLE "@ + table
        + " SET (timescaledb.compress, timescaledb.compress_orderby = 'time DESC', timescaledb.compress_chunk_time_interval = '24 hours');\nSELECT add_compression_policy('"@
        + table + "', INTERVAL '4h');\n"@
}

/// The statements that create a metric's table: a hypertable on `time` in 4 hour
/// chunks, with a retention policy, and compression when asked for.
pub open spec fn create_table_text(table: Seq<char>, retention_seconds: u64, compress: bool) -> Seq<
    char,
> {
    "CREATE TABLE "@ + table + " (time timestamptz);\nSELECT * from create_hypertable('"@ + table
        + "', 'time', chunk_time_interval => INTERVAL '4h');\nSELECT add_retention_policy('"@
        + table + "', INTERVAL '"@ + int_text(retention_seconds as int) + " seconds');\n"@ + (
    if compress {
        compression_text(table)
    } else {
        Seq::empty()
    })
}

/// Builds the statements that create a metric's table.
pub fn create_table_sql(table: &str, retention_seconds: u64, compress: bool) -> (r: String)
    ensures
        r@ == create_table_text(table@, retention_seconds, compress),
{
    let mut r = String::from_str("CREATE TABLE ");
    r.append(table);
    r.append(" (time timestamptz);\nSELECT * from create_hypertable('");
    r.append(table);
    r.append("', 'time', chunk_time_interval => INTERVAL '4h');\nSELECT add_retention_policy('");
    r.append(table);
    r.append("', INTERVAL '");
    let secs = u64_text(retention_seconds);
    r.append(secs.as_str());
    r.append(" seconds');\n");
    if compress {
        r.append("ALTER TABLE ");
        r.append(table);
        r.append(
            " SET (timescaledb.compress, timescaledb.compress_orderby = 'time DESC', timescaledb.compress_chunk_time_interval = '24 hours');\nSELECT add_compression_policy('",
        );
        r.append(table);
        r.append("', INTERVAL '4h');\n");
    } else {
        assert(r@ =~= r@ + Seq::<char>::empty());
    }
    r
}

/// Why a metric's batch was abandoned.
#[derive(Debug, Clone, Copy, PartialEq, Eq, Structural)]
pub enum DropReason {
    /// The sink's role may not write the table.
    InsufficientPrivilege,
    /// A server error that no repair applies to.
    UnhandledDb,
    /// A value did not match its column's type.
    WrongType,
    /// No connection, or the client failed.
    Connection,
    /// The failure came with a description (such as a column of unknown type).
    Described,
    /// Any other failure.
    Other,
    /// The repair that the failure asks for was already made in this attempt.
    RepeatedRepair,
    /// The repairing DDL failed.
    RepairFailed,
    /// The failure names a table other than the COPY's, or a column the COPY does
    /// not write.
    ForeignRepair,
    /// An event that does not follow the last step.
    UnexpectedEvent,
}

/// What to do about a sink error.
#[derive(Debug, Clone)]
pub enum Remedy {
    /// Run this DDL, then retry.
    Repair { statement: String },
    /// Abandon the batch.
    Drop { reason: DropReason },
}

/// What to do about a sink error, with the DDL text as a sequence.
pub enum RemedyView {
    Repair(Seq<char>),
    Drop(DropReason),
}

impl View for Remedy {
    type V = RemedyView;

    open spec fn view(&self) -> RemedyView {
        match self {
            Remedy::Repair { statement } => RemedyView::Repair(statement@),
            Remedy::Drop { reason } => RemedyView::Drop(*reason),
        }
    }
}

/// The remedy for each kind of sink error: add the missing column, create the missing
/// table, or drop the batch for a reason that names the failure.
pub open spec fn remedy_view(e: SinkErrorView, retention_seconds: u64, compress: bool) -> RemedyView {
    match e {
        SinkErrorView::MissingColumn { table, column, data_type } => RemedyView::Repair(
            add_column_text(table, column, data_type),
        ),
        SinkErrorView::MissingTable { table } => RemedyView::Repair(
            create_table_text(table, retention_seconds, compress),
        ),
        SinkErrorView::Postgres(FailureView::Db { code, message: _ }) => {
            if state_of_code(code) == SqlState::InsufficientPrivilege {
                RemedyView::Drop(DropReason::InsufficientPrivilege)
            } else {
                RemedyView::Drop(DropReason::UnhandledDb)
            }
        },
        SinkErrorView::Postgres(FailureView::WrongType) => RemedyView::Drop(DropReason::WrongType),
        SinkErrorView::Postgres(FailureView::Client { message: _ }) => RemedyView::Drop(
            DropReason::Connection,
        ),
        SinkErrorView::Described { message: _, inner: _ } => RemedyView::Drop(DropReason::Described),
        SinkErrorView::Plain { message: _ } => RemedyView::Drop(DropReason::Other),
    }
}

/// Decides what to do about a sink error.
pub fn remedy_for(e: &SinkError, retention_seconds: u64, compress: bool) -> (r: Remedy)
    ensures
        r@ == remedy_view(e@, retention_seconds, compress),
{
    match e {
        SinkError::MissingColumn(m) => Remedy::Repair {
            statement: add_column_sql(m.table.as_str(), m.column.as_str(), m.data_type.as_str()),
        },
        SinkError::MissingTable(m) => Remedy::Repair {
            statement: create_table_sql(m.table.as_str(), retention_seconds, compress),
        },
        SinkError::Postgres(PostgresFailure::Db { code, message: _ }) => {
            if sql_state(code) == SqlState::InsufficientPrivilege {
                Remedy::Drop { reason: DropReason::InsufficientPrivilege }
            } else {
                Remedy::Drop { reason: DropReason::UnhandledDb }
            }
        },
        SinkError::Postgres(PostgresFailure::WrongType) => Remedy::Drop {
            reason: DropReason::WrongType,
        },
        SinkError::Postgres(PostgresFailure::Client { message: _ }) => Remedy::Drop {
            reason: DropReason::Connection,
        },
        SinkError::DescribedError(_) => Remedy::Drop { reason: DropReason::Described },
        SinkError::StringError(_) => Remedy::Drop { reason: DropReason::Other },
    }
}

/// Where the write of one metric's batch stands.
#[derive(Debug, Clone, Copy, PartialEq, Eq, Structural)]
pub enum Phase {
    /// A COPY is (to be) attempted.
    Copying,
    /// A repairing DDL is running.
    Repairing,
    /// The batch was written.
    Done,
    /// The batch was abandoned.
    Abandoned,
}

/// What happened to the last step.
#[derive(Debug, Clone)]
pub enum Event {
    /// The COPY wrote every row.
    CopyFinished,
    /// The COPY failed.
    CopyFailed(SinkError),
    /// The DDL ran.
    RepairFinished,
    /// The DDL failed.
    RepairFailed,
    /// No connection could be had.
    NoConnection,
}

/// What to do next.
#[derive(Debug, Clone)]
pub enum Step {
    /// Run the COPY (again).
    Copy,
    /// Run this DDL.
    Repair(String),
    /// The batch is written.
    Finish,
    /// Abandon the batch.
    Abandon(DropReason),
}

/// An event, with its texts as sequences.
pub enum EventView {
    CopyFinished,
    CopyFailed(SinkErrorView),
    RepairFinished,
    RepairFailed,
    NoConnection,
}

/// A step, with its DDL as a sequence.
pub enum StepView {
    Copy,
    Repair(Seq<char>),
    Finish,
    Abandon(DropReason),
}

impl View for Event {
    type V = EventView;

    open spec fn view(&self) -> EventView {
        match self {
            Event::CopyFinished => EventView::CopyFinished,
            Event::CopyFailed(e) => EventView::CopyFailed(e@),
            Event::RepairFinished => EventView::RepairFinished,
            Event::RepairFailed => EventView::RepairFailed,
            Event::NoConnection => EventView::NoConnection,
        }
    }
}

impl View for Step {
    type V = StepView;

    open spec fn view(&self) -> StepView {
        match self {
            Step::Copy => StepView::Copy,
            Step::Repair(s) => StepView::Repair(s@),
            Step::Finish => StepView::Finish,
            Step::Abandon(r) => StepView::Abandon(*r),
        }
    }
}

/// The controller of one metric's write: the COPY's table and the columns it may
/// add, its phase, and the repairs it already made.
#[derive(Debug)]
pub struct SchemaController {
    pub phase: Phase,
    pub table: String,
    pub columns: Vec<String>,
    pub created_table: bool,
    pub added_columns: Vec<String>,
    pub retention_seconds: u64,
    pub compress: bool,
}

/// The controller's state.
pub struct ControllerView {
    pub phase: Phase,
    pub table: Seq<char>,
    pub columns: Seq<Seq<char>>,
    pub created_table: bool,
    pub added: Seq<Seq<char>>,
    pub retention_seconds: u64,
    pub compress: bool,
}

impl View for SchemaController {
    type V = ControllerView;

    open spec fn view(&self) -> ControllerView {
        ControllerView {
            phase: self.phase,
            table: self.table@,
            columns: texts(self.columns@),
            created_table: self.created_table,
            added: texts(self.added_columns@),
            retention_seconds: self.retention_seconds,
            compress: self.compress,
        }
    }
}

/// The state after abandoning the write.
pub open spec fn abandon(s: ControllerView, reason: DropReason) -> (ControllerView, StepView) {
    (ControllerView { phase: Phase::Abandoned, ..s }, StepView::Abandon(reason))
}

/// The reaction to a failed COPY. Only the COPY's own table is created, and only
/// once; only a column that the COPY writes is added, and each at most once. Any
/// other failure drops the batch for the reason `remedy_view` gives.
pub open spec fn failure_view(s: ControllerView, err: SinkErrorView) -> (ControllerView, StepView) {
    match err {
        SinkErrorView::MissingTable { table } => {
            if table != s.table {
                abandon(s, DropReason::ForeignRepair)
            } else if s.created_table {
                abandon(s, DropReason::RepeatedRepair)
            } else {
                (
                    ControllerView { phase: Phase::Repairing, created_table: true, ..s },
                    StepView::Repair(create_table_text(table, s.retention_seconds, s.compress)),
                )
            }
        },
        SinkErrorView::MissingColumn { table, column, data_type } => {
            if table != s.table || !s.columns.contains(column) {
                abandon(s, DropReason::ForeignRepair)
            } else if s.added.contains(column) {
                abandon(s, DropReason::RepeatedRepair)
            } else {
                (
                    ControllerView { phase: Phase::Repairing, added: s.added.push(column), ..s },
                    StepView::Repair(add_column_text(table, column, data_type)),
                )
            }
        },
        _ => match remedy_view(err, s.retention_seconds, s.compress) {
            RemedyView::Drop(reason) => abandon(s, reason),
            RemedyView::Repair(_) => abandon(s, DropReason::Other),
        },
    }
}

/// One transition: the next state and the step to take. A finished or abandoned
/// write stays so; an event that does not follow the last step abandons the write.
pub open spec fn next_view(s: ControllerView, e: EventView) -> (ControllerView, StepView) {
    if s.phase == Phase::Done {
        (s, StepView::Finish)
    } else if s.phase == Phase::Abandoned {
        (s, StepView::Abandon(DropReason::Other))
    } else if s.phase == Phase::Copying {
        match e {
            EventView::CopyFinished => (ControllerView { phase: Phase::Done, ..s }, StepView::Finish),
            EventView::CopyFailed(err) => failure_view(s, err),
            EventView::NoConnection => abandon(s, DropReason::Connection),
            _ => abandon(s, DropReason::UnexpectedEvent),
        }
    } else {
        match e {
            EventView::RepairFinished => (
                ControllerView { phase: Phase::Copying, ..s },
                StepView::Copy,
            ),
            EventView::RepairFailed => abandon(s, DropReason::RepairFailed),
            EventView::NoConnection => abandon(s, DropReason::Connection),
            _ => abandon(s, DropReason::UnexpectedEvent),
        }
    }
}

impl SchemaController {
    /// A controller about to run the first COPY of a metric's batch into `table`,
    /// allowed to add the given columns.
    pub fn new(table: String, columns: Vec<String>, retention_seconds: u64, compress: bool) -> (r:
        SchemaController)
        ensures
            r@ == initial_view(table@, texts(columns@), retention_seconds, compress),
    {
        let r = SchemaController {
            phase: Phase::Copying,
            table,
            columns,
            created_table: false,
            added_columns: Vec::new(),
            retention_seconds,
            compress,
        };
        assert(r@.added =~= Seq::<Seq<char>>::empty());
        r
    }

    fn abandon(&mut self, reason: DropReason) -> (step: Step)
        ensures
            (final(self)@, step@) == abandon(old(self)@, reason),
    {
        self.phase = Phase::Abandoned;
        Step::Abandon(reason)
    }

    fn on_failure(&mut self, err: SinkError) -> (step: Step)
        requires
            old(self).phase == Phase::Copying,
        ensures
            (final(self)@, step@) == failure_view(old(self)@, err@),
    {
        match err {
            SinkError::MissingTable(m) => {
                if m.table != self.table {
                    self.abandon(DropReason::ForeignRepair)
                } else if self.created_table {
                    self.abandon(DropReason::RepeatedRepair)
                } else {
                    self.created_table = true;
                    self.phase = Phase::Repairing;
                    Step::Repair(create_table_sql(m.table.as_str(), self.retention_seconds, self.compress))
                }
            },
            SinkError::MissingColumn(m) => {
                if m.table != self.table || !contains_text(&self.columns, &m.column) {
                    self.abandon(DropReason::ForeignRepair)
                } else if contains_text(&self.added_columns, &m.column) {
                    self.abandon(DropReason::RepeatedRepair)
                } else {
                    let ghost before = self.added_columns@;
                    let statement = add_column_sql(
                        m.table.as_str(),
                        m.column.as_str(),
                        m.data_type.as_str(),
                    );
                    self.added_columns.push(m.column);
                    assert(texts(self.added_columns@) =~= texts(before).push(m.column@));
                    self.phase = Phase::Repairing;
                    Step::Repair(statement)
                }
            },
            other => match remedy_for(&other, self.retention_seconds, self.compress) {
                Remedy::Drop { reason } => self.abandon(reason),
                Remedy::Repair { statement: _ } => self.abandon(DropReason::Other),
            },
        }
    }

    /// Takes the outcome of the last step and says what to do next.
    pub fn next(&mut self, event: Event) -> (step: Step)
        ensures
            (final(self)@, step@) == next_view(old(self)@, event@),
    {
        if self.phase == Phase::Done {
            return Step::Finish;
        }
        if self.phase == Phase::Abandoned {
            return Step::Abandon(DropReason::Other);
        }
        if self.phase == Phase::Copying {
            match event {
                Event::CopyFinished => {
                    self.phase = Phase::Done;
                    Step::Finish
                },
                Event::CopyFailed(err) => self.on_failure(err),
                Event::NoConnection => self.abandon(DropReason::Connection),
                _ => self.abandon(DropReason::UnexpectedEvent),
            }
        } else {
            match event {
                Event::RepairFinished => {
                    self.phase = Phase::Copying;
                    Step::Copy
                },
                Event::RepairFailed => self.abandon(DropReason::RepairFailed),
                Event::NoConnection => self.abandon(DropReason::Connection),
                _ => self.abandon(DropReason::UnexpectedEvent),
            }
        }
    }
}

/// The state before the first COPY.
pub open spec fn initial_view(
    table: Seq<char>,
    columns: Seq<Seq<char>>,
    retention_seconds: u64,
    compress: bool,
) -> ControllerView {
    ControllerView {
        phase: Phase::Copying,
        table,
        columns,
        created_table: false,
        added: Seq::empty(),
        retention_seconds,
        compress,
    }
}

/// The repairs still possible: creating the table, and adding each column not yet
/// added; one more while a repair runs (its retry is still to come).
pub open spec fn potential(s: ControllerView) -> nat {
    (if s.created_table {
        0nat
    } else {
        1nat
    }) + s.columns.to_set().difference(s.added.to_set()).len() + (if s.phase == Phase::Repairing {
        1nat
    } else {
        0nat
    })
}

/// The number of retried COPYs that the controller asks for over a run of events.
pub open spec fn retries(s: ControllerView, events: Seq<EventView>) -> nat
    decreases events.len(),
{
    if events.len() == 0 {
        0
    } else {
        let (s1, step) = next_view(s, events[0]);
        (if step is Copy {
            1nat
        } else {
            0nat
        }) + retries(s1, events.drop_first())
    }
}

proof fn lemma_step_potential(s: ControllerView, e: EventView)
    ensures
        ({
            let (s1, step) = next_view(s, e);
            &&& s1.columns == s.columns
            &&& (step is Copy ==> potential(s1) + 1 == potential(s))
            &&& (!(step is Copy) ==> potential(s1) <= potential(s))
        }),
{
    let (s1, step) = next_view(s, e);
    let cs = s.columns.to_set();
    if s.phase == Phase::Copying {
        if let EventView::CopyFailed(err) = e {
            if let SinkErrorView::MissingColumn { table, column, data_type } = err {
                if table == s.table && s.columns.contains(column) && !s.added.contains(column) {
                    let c = column;
                    assert(s1.added == s.added.push(c));
                    s.added.lemma_push_to_set_commute(c);
                    assert(cs.difference(s1.added.to_set()) =~= cs.difference(
                        s.added.to_set(),
                    ).remove(c));
                    assert(cs.difference(s.added.to_set()).contains(c));
                    seq_to_set_is_finite(s.columns);
                    vstd::set::axiom_set_difference_finite(cs, s.added.to_set());
                    vstd::set::axiom_set_remove_len(cs.difference(s.added.to_set()), c);
                }
            }
        }
    }
}

proof fn lemma_retries_bounded(s: ControllerView, events: Seq<EventView>)
    ensures
        retries(s, events) <= potential(s),
    decreases events.len(),
{
    if events.len() > 0 {
        let (s1, step) = next_view(s, events[0]);
        lemma_step_potential(s, events[0]);
        lemma_retries_bounded(s1, events.drop_first());
    }
}

/// The number of COPYs of one write is bounded whatever the database answers: the
/// first, plus one retry per repair, and repairs are the table's creation and one
/// addition per distinct column the COPY writes.
pub proof fn lemma_copies_bounded(
    table: Seq<char>,
    columns: Seq<Seq<char>>,
    retention_seconds: u64,
    compress: bool,
    events: Seq<EventView>,
)
    ensures
        1 + retries(initial_view(table, columns, retention_seconds, compress), events)
            <= columns.to_set().len() + 2,
{
    let s = initial_view(table, columns, retention_seconds, compress);
    lemma_retries_bounded(s, events);
    assert(s.added.to_set() =~= Set::<Seq<char>>::empty());
    assert(columns.to_set().difference(s.added.to_set()) =~= columns.to_set());
}

/// A COPY that fails only because one of its columns is missing is repaired by
/// adding exactly that column, then retried; when the retry succeeds the write is
/// done and the column is on record as added.
pub proof fn lemma_missing_column_recovery(
    s: ControllerView,
    column: Seq<char>,
    data_type: Seq<char>,
)
    requires
        s.phase == Phase::Copying,
        s.columns.contains(column),
        !s.added.contains(column),
    ensures
        ({
            let ddl = add_column_text(s.table, column, data_type);
            let failed = EventView::CopyFailed(
                SinkErrorView::MissingColumn { table: s.table, column, data_type },
            );
            let (s1, step1) = next_view(s, failed);
            let (s2, step2) = next_view(s1, EventView::RepairFinished);
            let (s3, step3) = next_view(s2, EventView::CopyFinished);
            &&& step1 == StepView::Repair(ddl)
            &&& step2 == StepView::Copy
            &&& step3 == StepView::Finish
            &&& s3.phase == Phase::Done
            &&& s3.added == s.added.push(column)
        }),
{
}

/// An `undefined_column` failure whose message names the COPY's table and one of its
/// columns that some datum of the batch carries with a value becomes the repair that
/// adds that column with the datum's type.
pub proof fn lemma_undefined_column_is_repaired(
    s: ControllerView,
    code: Seq<char>,
    message: Seq<char>,
    table_cap: Option<Seq<char>>,
    column: Seq<char>,
    ds: Seq<Datum>,
)
    requires
        s.phase == Phase::Copying,
        state_of_code(code) == SqlState::UndefinedColumn,
        first_column_type(ds, column) is Some,
        s.columns.contains(column),
        !s.added.contains(column),
    ensures
        ({
            let err = copy_error_view(
                FailureView::Db { code, message },
                table_cap,
                Some((s.table, column)),
                ds,
            );
            let ddl = add_column_text(
                s.table,
                column,
                column_type_name(first_column_type(ds, column)->Some_0),
            );
            next_view(s, EventView::CopyFailed(err)).1 == StepView::Repair(ddl)
        }),
{
}

} // verus!
