pub mod batched;
pub mod delayed;
pub mod sqlite;
pub mod util;

use vstd::prelude::*;

use crate::config::{DatabaseConfig, ConnectionConfig, SolverConfig};
use crate::database::batched::BatchedConnection;
use crate::database::delayed::DelayedConnection;
use crate::database::util::{idmap_contains, idmap_get};

verus! {

/// Tri-state satisfiability verdict reported by a solver.
#[derive(Clone, Copy, Debug, PartialEq, Eq, Structural)]
pub enum Satisfiability {
    Unsatisfiable,
    Unknown,
    Satisfiable,
}

impl Satisfiability {
    /// The integer encoding persisted to the store: the trichotomy -1 | 0 | 1.
    pub open spec fn code_spec(self) -> i8 {
        match self {
            Satisfiability::Unsatisfiable => -1i8,
            Satisfiability::Unknown => 0i8,
            Satisfiability::Satisfiable => 1i8,
        }
    }

    /// The integer encoding persisted to the store: the trichotomy -1 | 0 | 1.
    pub fn code(&self) -> (r: i8)
        ensures
            r == self.code_spec(),
    {
        match self {
            Satisfiability::Unsatisfiable => -1,
            Satisfiability::Unknown => 0,
            Satisfiability::Satisfiable => 1,
        }
    }
}

/// The fixed metrics record captured for one solver run. A runtime of zero is
/// the sentinel for a failed or timed-out run.
#[derive(Clone, Debug, PartialEq, Eq, Structural)]
pub struct TestMetrics {
    pub runtime: u64,
    pub satisfiable: Satisfiability,
    pub parse_time: u64,
    pub memory_usage: u32,
    pub restarts: u32,
    pub conflicts: u32,
    pub propagations: u32,
    pub conflict_literals: u32,
    pub number_of_variables: u32,
    pub number_of_clauses: u32,
}

/// The metrics record of a failed or timed-out run: all counters zero and an
/// unknown verdict.
pub open spec fn spec_failed_metrics() -> TestMetrics {
    TestMetrics {
        runtime: 0,
        satisfiable: Satisfiability::Unknown,
        parse_time: 0,
        memory_usage: 0,
        restarts: 0,
        conflicts: 0,
        propagations: 0,
        conflict_literals: 0,
        number_of_variables: 0,
        number_of_clauses: 0,
    }
}

impl TestMetrics {
    /// The sentinel record written when a run failed or timed out.
    pub fn failed() -> (r: Self)
        ensures
            r == spec_failed_metrics(),
    {
        TestMetrics {
            runtime: 0,
            satisfiable: Satisfiability::Unknown,
            parse_time: 0,
            memory_usage: 0,
            restarts: 0,
            conflicts: 0,
            propagations: 0,
            conflict_literals: 0,
            number_of_variables: 0,
            number_of_clauses: 0,
        }
    }
}

/// One run's metrics together with the context it was measured in: the unit
/// of insertion into the store.
#[derive(Clone, Debug)]
pub struct MetricsBundle {
    pub metrics: TestMetrics,
    pub solver: String,
    pub test_set: String,
    pub target: String,
}

/// One row of the runs table, exactly as it is handed to the database:
/// `runtime` is `None` where zero was measured, so that "not measured" is
/// distinguishable from zero.
#[derive(Clone, Debug)]
pub struct RunRow {
    pub runtime: Option<u64>,
    pub parse_time: u64,
    pub satisfiable: i8,
    pub memory_usage: u32,
    pub restarts: u32,
    pub conflicts: u32,
    pub propagations: u32,
    pub conflict_literals: u32,
    pub number_of_variables: u32,
    pub number_of_clauses: u32,
    pub target: String,
    pub solver: i32,
    pub test: i32,
    pub benchmark: i32,
}

/// Encode a measured runtime for persistence: the zero sentinel becomes NULL.
pub fn encode_runtime(runtime: u64) -> (r: Option<u64>)
    ensures
        runtime == 0 ==> r is None,
        runtime != 0 ==> r == Some(runtime),
{
    if runtime == 0 {
        None
    } else {
        Some(runtime)
    }
}

/// The row handed to the database for one run, by a single `store` call and
/// by a bulk flush alike: the zero runtime sentinel is encoded as NULL, so
/// that "not measured" stays distinguishable from a measured zero.
pub open spec fn spec_run_row(
    row: RunRow,
    metrics: TestMetrics,
    solver_id: i32,
    test_id: i32,
    benchmark: i32,
    target: Seq<char>,
) -> bool {
    &&& row.runtime == (if metrics.runtime == 0 {
        Option::<u64>::None
    } else {
        Some(metrics.runtime)
    })
    &&& row.parse_time == metrics.parse_time
    &&& row.satisfiable == metrics.satisfiable.code_spec()
    &&& row.memory_usage == metrics.memory_usage
    &&& row.restarts == metrics.restarts
    &&& row.conflicts == metrics.conflicts
    &&& row.propagations == metrics.propagations
    &&& row.conflict_literals == metrics.conflict_literals
    &&& row.number_of_variables == metrics.number_of_variables
    &&& row.number_of_clauses == metrics.number_of_clauses
    &&& row.target@ == target
    &&& row.solver == solver_id
    &&& row.test == test_id
    &&& row.benchmark == benchmark
}

/// Errors of the storage adapter stack.
#[derive(Debug)]
pub enum ConnectionError {
    /// An error of the SQLite backend.
    SQLite(rusqlite::Error),
    /// The adapter configuration named a backend this build cannot serve.
    ConfigError,
}

#[verifier::external_type_specification]
#[verifier::external_body]
pub struct ExRusqliteError(rusqlite::Error);

/// The storage adapter stack: a direct backend, optionally wrapped by the
/// batched or the delayed buffering layer.
pub enum ConnectionAdapter {
    SQLite(sqlite::SharedConnection),
    Batched(BatchedConnection),
    Delayed(DelayedConnection),
}

impl ConnectionAdapter {
    /// Whether this is a direct backend, not a buffering wrapper.
    pub open spec fn is_direct(self) -> bool {
        self is SQLite
    }

    /// The run rows this stack has committed to the database, in order.
    pub open spec fn committed(self) -> Seq<RunRow>
        decreases self,
    {
        match self {
            ConnectionAdapter::SQLite(c) => c.0.rows@,
            ConnectionAdapter::Batched(b) => b.connection.committed(),
            ConnectionAdapter::Delayed(d) => d.adapter.committed(),
        }
    }

    /// The run rows this stack has handed to the database, committed or still
    /// inside an open transaction.
    pub open spec fn handed(self) -> Seq<RunRow>
        decreases self,
    {
        match self {
            ConnectionAdapter::SQLite(c) => c.0.handed_over(),
            ConnectionAdapter::Batched(b) => b.connection.handed(),
            ConnectionAdapter::Delayed(d) => d.adapter.handed(),
        }
    }

    /// The bundles a buffering wrapper still holds back.
    pub open spec fn buffered_bundles(self) -> Seq<MetricsBundle> {
        match self {
            ConnectionAdapter::SQLite(_) => Seq::empty(),
            ConnectionAdapter::Batched(b) => b.buffer@,
            ConnectionAdapter::Delayed(d) => d.buffer@,
        }
    }

    /// How many bundles this stack has accepted: handed to the database or
    /// still buffered.
    pub open spec fn accepted(self) -> nat {
        self.handed().len() + self.buffered_bundles().len()
    }

    /// The solver ids resolved at init.
    pub open spec fn solvers_map(self) -> Seq<(String, i32)>
        decreases self,
    {
        match self {
            ConnectionAdapter::SQLite(c) => c.0.solvers@,
            ConnectionAdapter::Batched(b) => b.connection.solvers_map(),
            ConnectionAdapter::Delayed(d) => d.adapter.solvers_map(),
        }
    }

    /// The test-set ids resolved at init.
    pub open spec fn test_sets_map(self) -> Seq<(String, i32)>
        decreases self,
    {
        match self {
            ConnectionAdapter::SQLite(c) => c.0.test_sets@,
            ConnectionAdapter::Batched(b) => b.connection.test_sets_map(),
            ConnectionAdapter::Delayed(d) => d.adapter.test_sets_map(),
        }
    }

    /// The benchmark id resolved at init.
    pub open spec fn benchmark_id(self) -> i32
        decreases self,
    {
        match self {
            ConnectionAdapter::SQLite(c) => c.0.benchmark,
            ConnectionAdapter::Batched(b) => b.connection.benchmark_id(),
            ConnectionAdapter::Delayed(d) => d.adapter.benchmark_id(),
        }
    }

    /// The whole stack is in a good state: wrappers sit on direct adapters
    /// and buffered bundles name registered solvers and test sets.
    pub open spec fn wf(self) -> bool
        decreases self,
    {
        match self {
            ConnectionAdapter::SQLite(c) => c.0.wf(),
            ConnectionAdapter::Batched(b) => b.wf(),
            ConnectionAdapter::Delayed(d) => d.wf(),
        }
    }

    /// Whether the names of a bundle were registered at init.
    pub open spec fn registered(self, solver: Seq<char>, test_set: Seq<char>) -> bool {
        idmap_contains(self.solvers_map(), solver) && idmap_contains(
            self.test_sets_map(),
            test_set,
        )
    }

    /// Insert one record: a direct adapter hands it to the database at once
    /// (the assigned row id comes back), a buffering wrapper accepts it into
    /// its buffer (the deferred sentinel comes back) and may drain. On
    /// success, exactly one more bundle is accepted.
    pub fn store(
        &mut self,
        metrics: TestMetrics,
        solver: String,
        test_set: String,
        target: &String,
    ) -> (r: Result<i64, ConnectionError>)
        requires
            old(self).wf(),
            old(self).registered(solver@, test_set@),
        ensures
            final(self).wf(),
            final(self).solvers_map() == old(self).solvers_map(),
            final(self).test_sets_map() == old(self).test_sets_map(),
            final(self).benchmark_id() == old(self).benchmark_id(),
            r is Ok ==> final(self).accepted() == old(self).accepted() + 1,
            r is Err ==> final(self).committed() == old(self).committed(),
            (*old(self)) is SQLite ==> (*final(self)) is SQLite && (r is Ok
                ==> final(self).handed().len() == old(self).handed().len() + 1 && final(self).handed().drop_last() == old(self).handed() && spec_run_row(
                final(self).handed().last(),
                metrics,
                idmap_get(old(self).solvers_map(), solver@).unwrap(),
                idmap_get(old(self).test_sets_map(), test_set@).unwrap(),
                old(self).benchmark_id(),
                target@,
            )) && (r is Err ==> final(self).handed() == old(self).handed() || final(self).handed()
                == final(self).committed()),
            (*old(self)) is Batched ==> (*final(self)) is Batched,
            (*old(self)) is Delayed ==> (*final(self)) is Delayed && r is Ok && final(self).buffered_bundles() == old(self).buffered_bundles().push(
                MetricsBundle { metrics, solver, test_set, target: *target },
            ),
    {
        match self {
            ConnectionAdapter::SQLite(c) => c.store(metrics, solver, test_set, target),
            ConnectionAdapter::Batched(b) => b.store(metrics, solver, test_set, target),
            ConnectionAdapter::Delayed(d) => d.store(metrics, solver, test_set, target),
        }
    }

    /// Flush any buffered records, commit, and release the underlying handle,
    /// retrying transient close failures. On success the ledger holds every
    /// row this stack committed over its lifetime: what was committed before,
    /// followed by one bulk row per bundle still buffered, in order. In
    /// particular, every accepted bundle was inserted.
    pub fn close(self) -> (r: (Result<(), ConnectionError>, Ghost<Seq<RunRow>>))
        requires
            self.wf(),
        ensures
            r.0 is Ok ==> r.1@.len() == self.committed().len() + self.buffered_bundles().len()
                && r.1@.take(self.committed().len() as int) == self.committed() && (forall|j: int|
                0 <= j < self.buffered_bundles().len() ==> spec_run_row(
                    r.1@[self.committed().len() + j],
                    (#[trigger] self.buffered_bundles()[j]).metrics,
                    idmap_get(self.solvers_map(), self.buffered_bundles()[j].solver@).unwrap(),
                    idmap_get(self.test_sets_map(), self.buffered_bundles()[j].test_set@).unwrap(),
                    self.benchmark_id(),
                    self.buffered_bundles()[j].target@,
                )),
        decreases self,
    {
        match self {
            ConnectionAdapter::SQLite(c) => {
                let ledger: Ghost<Seq<RunRow>> = Ghost(c.0.rows@);
                proof {
                    assert(ledger@.take(ledger@.len() as int) =~= ledger@);
                }
                (c.close(), ledger)
            },
            ConnectionAdapter::Batched(b) => b.close(),
            ConnectionAdapter::Delayed(d) => d.close(),
        }
    }

    /// Open the configured direct backend, without buffering wrappers. Only
    /// the SQLite backend is served by this build; the other configurations
    /// are refused.
    pub fn load_connection(config: &DatabaseConfig) -> (r: Result<Self, ConnectionError>)
        ensures
            r matches Ok(c) ==> c.is_direct() && c.wf() && c.committed() == Seq::<RunRow>::empty()
                && c.handed() == Seq::<RunRow>::empty() && c.buffered_bundles() == Seq::<
                MetricsBundle,
            >::empty() && c.solvers_map() == Seq::<(String, i32)>::empty() && c.test_sets_map()
                == Seq::<(String, i32)>::empty(),
            !(config.connection is SQLite) ==> (r matches Err(e) && e is ConfigError),
    {
        match &config.connection {
            ConnectionConfig::SQLite { .. } => match sqlite::SharedConnection::load(
                &config.connection,
            ) {
                Ok(c) => Ok(ConnectionAdapter::SQLite(c)),
                Err(e) => Err(e),
            },
            _ => Err(ConnectionError::ConfigError),
        }
    }

    /// Open the configured adapter stack: the delayed wrapper when the
    /// configuration asks for it, else the batched wrapper when a batch
    /// configuration is present, else the direct backend.
    pub fn load(config: &DatabaseConfig) -> (r: Result<Self, ConnectionError>)
        ensures
            r matches Ok(c) ==> c.wf() && c.committed() == Seq::<RunRow>::empty() && c.handed()
                == Seq::<RunRow>::empty() && c.buffered_bundles() == Seq::<MetricsBundle>::empty()
                && c.solvers_map() == Seq::<(String, i32)>::empty() && c.test_sets_map() == Seq::<
                (String, i32),
            >::empty(),
            r matches Ok(c) ==> (config.delayed ==> c is Delayed) && (!config.delayed
                && config.batched is Some ==> c is Batched && c.batched_size()
                == config.batched.unwrap().size) && (!config.delayed && config.batched is None
                ==> c.is_direct()),
    {
        if config.delayed {
            match Self::load_connection(config) {
                Ok(inner) => Ok(ConnectionAdapter::Delayed(DelayedConnection::load(inner))),
                Err(e) => Err(e),
            }
        } else {
            match &config.batched {
                Some(batched_config) => match Self::load_connection(config) {
                    Ok(inner) => Ok(
                        ConnectionAdapter::Batched(BatchedConnection::load(batched_config, inner)),
                    ),
                    Err(e) => Err(e),
                },
                None => Self::load_connection(config),
            }
        }
    }

    /// The configured batch size of a batched wrapper.
    pub open spec fn batched_size(self) -> u32 {
        match self {
            ConnectionAdapter::Batched(b) => b.size,
            _ => 0,
        }
    }

    /// Apply the schema idempotently, resolve or create the benchmark id, and
    /// register every configured solver and test set, reusing matching rows.
    pub fn init(
        &mut self,
        config: &SolverConfig,
        benchmark: Option<i32>,
        comment: Option<String>,
    ) -> (r: Result<(), ConnectionError>)
        requires
            old(self).wf(),
            old(self).buffered_bundles().len() == 0,
        ensures
            final(self).wf(),
            final(self).committed() == old(self).committed(),
            final(self).buffered_bundles() == old(self).buffered_bundles(),
            (*final(self)) is SQLite == (*old(self)) is SQLite,
            (*final(self)) is Batched == (*old(self)) is Batched,
            (*final(self)) is Delayed == (*old(self)) is Delayed,
            r is Ok ==> forall|j: int|
                0 <= j < config.solvers@.len() ==> idmap_contains(
                    final(self).solvers_map(),
                    (#[trigger] config.solvers@[j]).0@,
                ),
            r is Ok ==> forall|j: int|
                0 <= j < config.tests@.len() ==> idmap_contains(
                    final(self).test_sets_map(),
                    (#[trigger] config.tests@[j]).0@,
                ),
        decreases *old(self),
    {
        match self {
            ConnectionAdapter::SQLite(c) => c.init(config, benchmark, comment),
            ConnectionAdapter::Batched(b) => b.init(config, benchmark, comment),
            ConnectionAdapter::Delayed(d) => d.init(config, benchmark, comment),
        }
    }

    /// Bulk insert in one transaction; invoked only on direct adapters, by
    /// the buffering wrappers when they flush.
    pub fn store_iter(&mut self, metrics: Vec<MetricsBundle>) -> (r: Result<(), ConnectionError>)
        requires
            old(self).is_direct(),
            old(self).wf(),
            forall|j: int|
                0 <= j < metrics@.len() ==> idmap_contains(
                    old(self).solvers_map(),
                    (#[trigger] metrics@[j]).solver@,
                ) && idmap_contains(old(self).test_sets_map(), metrics@[j].test_set@),
        ensures
            final(self).wf(),
            (*final(self)) is SQLite,
            final(self).solvers_map() == old(self).solvers_map(),
            final(self).test_sets_map() == old(self).test_sets_map(),
            final(self).benchmark_id() == old(self).benchmark_id(),
            r is Ok ==> old(self).handed() == old(self).committed(),
            r is Ok ==> final(self).committed().len() == old(self).committed().len()
                + metrics@.len() && final(self).committed().take(old(self).committed().len() as int)
                == old(self).committed() && final(self).handed() == final(self).committed() && (
            forall|j: int|
                0 <= j < metrics@.len() ==> spec_run_row(
                    final(self).committed()[old(self).committed().len() + j],
                    (#[trigger] metrics@[j]).metrics,
                    idmap_get(old(self).solvers_map(), metrics@[j].solver@).unwrap(),
                    idmap_get(old(self).test_sets_map(), metrics@[j].test_set@).unwrap(),
                    old(self).benchmark_id(),
                    metrics@[j].target@,
                )),
            r is Err ==> final(self).committed() == old(self).committed(),
    {
        match self {
            ConnectionAdapter::SQLite(c) => c.store_iter(metrics),
            _ => {
                proof {
                    assert(false);
                }
                Err(ConnectionError::ConfigError)
            },
        }
    }
}

} // verus!
