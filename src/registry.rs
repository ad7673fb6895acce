//! Start-up bootstrap of the custom SQL types (`statistic_set`, `histogram`,
//! `tdigest`): probe each by name, create it when the database does not know it,
//! probe again, and fail on anything else.
use vstd::prelude::*;
use crate::errors::{FailureView, PostgresFailure, SinkError, SinkErrorView, SqlState, sql_state, state_of_code};

verus! {

/// The outcome of preparing `SELECT $1::<type>`.
#[derive(Debug, Clone)]
pub enum Probe {
    /// The database knows the type; this is its identifier (OID).
    Found(u32),
    /// Preparing the statement failed.
    Failed(PostgresFailure),
}

/// What to do after a probe.
#[derive(Debug, Clone)]
pub enum Bootstrap {
    /// Use the type that exists; no DDL is run.
    Use(u32),
    /// Run the type's DDL script, then probe again.
    Create,
    /// Start-up fails.
    Fail(SinkError),
}

/// A probe, with its texts as sequences.
pub enum ProbeView {
    Found(u32),
    Failed(FailureView),
}

/// A bootstrap decision, with its texts as sequences.
pub enum BootstrapView {
    Use(u32),
    Create,
    Fail(SinkErrorView),
}

impl View for Probe {
    type V = ProbeView;

    open spec fn view(&self) -> ProbeView {
        match self {
            Probe::Found(oid) => ProbeView::Found(*oid),
            Probe::Failed(f) => ProbeView::Failed(f@),
        }
    }
}

impl View for Bootstrap {
    type V = BootstrapView;

    open spec fn view(&self) -> BootstrapView {
        match self {
            Bootstrap::Use(oid) => BootstrapView::Use(*oid),
            Bootstrap::Create => BootstrapView::Create,
            Bootstrap::Fail(e) => BootstrapView::Fail(e@),
        }
    }
}

/// A type that exists is used as it is; an undefined object is created; any other
/// failure is fatal.
pub open spec fn bootstrap_view(p: ProbeView) -> BootstrapView {
    match p {
        ProbeView::Found(oid) => BootstrapView::Use(oid),
        ProbeView::Failed(f) => match f {
            FailureView::Db { code, message: _ } => {
                if state_of_code(code) == SqlState::UndefinedObject {
                    BootstrapView::Create
                } else {
                    BootstrapView::Fail(SinkErrorView::Postgres(f))
                }
            },
            _ => BootstrapView::Fail(SinkErrorView::Postgres(f)),
        },
    }
}

/// Decides what to do after the first probe of a custom type.
pub fn bootstrap_step(probe: Probe) -> (r: Bootstrap)
    ensures
        r@ == bootstrap_view(probe@),
{
    match probe {
        Probe::Found(oid) => Bootstrap::Use(oid),
        Probe::Failed(f) => {
            let undefined = match &f {
                PostgresFailure::Db { code, message: _ } => sql_state(code)
                    == SqlState::UndefinedObject,
                _ => false,
            };
            if undefined {
                Bootstrap::Create
            } else {
                Bootstrap::Fail(SinkError::Postgres(f))
            }
        },
    }
}

/// The type identifier after the DDL ran: the second probe must find the type.
pub fn after_create(probe: Probe) -> (r: Result<u32, SinkError>)
    ensures
        match (probe@, r) {
            (ProbeView::Found(oid), Ok(x)) => x == oid,
            (ProbeView::Failed(f), Err(e)) => e@ == SinkErrorView::Postgres(f),
            _ => false,
        },
{
    match probe {
        Probe::Found(oid) => Ok(oid),
        Probe::Failed(f) => Err(SinkError::Postgres(f)),
    }
}

/// `SELECT $1::<type>`
pub open spec fn probe_text(custom_type: Seq<char>) -> Seq<char> {
    "SELECT $1::"@ + custom_type
}

/// Builds the statement that probes for a custom type.
pub fn probe_statement(custom_type: &str) -> (r: String)
    ensures
        r@ == probe_text(custom_type@),
{
    let mut r = String::from_str("SELECT $1::");
    r.append(custom_type);
    r
}

/// Bootstrap is idempotent: against a database that already has the type, it runs
/// no DDL and uses the type that is there.
pub proof fn lemma_bootstrap_idempotent(oid: u32)
    ensures
        bootstrap_view(ProbeView::Found(oid)) == BootstrapView::Use(oid),
{
}

} // verus!
