use vstd::prelude::*;
use vstd::arithmetic::div_mod::lemma_fundamental_div_mod_converse;

use crate::collector::Collector;
use crate::config::{Solver, SolverConfig, TestSet};
use crate::database::{
    spec_failed_metrics, spec_run_row, ConnectionAdapter, ConnectionError, TestMetrics,
};
use crate::database::util::idmap_get;
use crate::executors::ExecutorError;
use crate::ingest::{IngestorError, IngestorMap};

verus! {

/// How many logical CPUs this machine offers.
///
/// Relies on affinity::get_core_num; the result depends on the machine, so
/// nothing is promised of it.
#[verifier::external_body]
pub fn core_count() -> usize {
    affinity::get_core_num()
}

/// Resolve the configured worker count: zero is corrected to the machine's
/// CPU count (with a warning at the call site), anything else is kept.
pub fn resolve_threads(threads: usize, cpus: usize) -> (r: usize)
    ensures
        threads != 0 ==> r == threads,
        threads == 0 ==> r == cpus,
{
    if threads == 0 {
        cpus
    } else {
        threads
    }
}

/// How many runs one test set contributes: paths times selected solvers times
/// iterations; `None` when that does not fit the counter. Zero iterations
/// yield zero runs.
pub fn set_run_total(n_paths: usize, n_solvers: usize, iterations: usize) -> (r: Option<u64>)
    ensures
        r matches Some(v) ==> v == n_paths * n_solvers * iterations,
        iterations == 0 ==> r == Some(0u64),
    decreases 0int,
{
    if iterations == 0 {
        proof {
            assert(n_paths * n_solvers * 0 == 0) by (nonlinear_arith);
        }
        return Some(0);
    }
    let tasks: u64 = match (n_paths as u64).checked_mul(n_solvers as u64) {
        Some(t) => t,
        None => {
            return None;
        },
    };
    match tasks.checked_mul(iterations as u64) {
        Some(v) => {
            proof {
                assert(v == n_paths * n_solvers * iterations) by (nonlinear_arith)
                    requires
                        tasks == n_paths as u64 * n_solvers as u64,
                        v == tasks * iterations as u64,
                ;
            }
            Some(v)
        },
        None => None,
    }
}

/// Append a copy of every parameter to the argument vector, in order.
#[verifier::loop_isolation(false)]
fn append_params(dst: &mut Vec<String>, src: &Vec<String>)
    ensures
        final(dst).deep_view() == old(dst).deep_view() + src.deep_view(),
{
    proof {
        assert(dst.deep_view() =~= old(dst).deep_view() + src.deep_view().take(0));
    }
    let mut i: usize = 0;
    while i < src.len()
        invariant
            0 <= i <= src@.len(),
            dst.deep_view() == old(dst).deep_view() + src.deep_view().take(i as int),
        decreases src@.len() - i,
    {
        let ghost predv = dst.deep_view();
        let element = src[i].clone();
        proof {
            assert(element@ == src.deep_view()[i as int]);
        }
        dst.push(element);
        proof {
            assert forall|q: int| 0 <= q < dst.deep_view().len() implies dst.deep_view()[q] == (
            old(dst).deep_view() + src.deep_view().take(i as int + 1))[q] by {
                if q < predv.len() {
                    assert(dst.deep_view()[q] == predv[q]);
                } else {
                    assert(dst.deep_view()[q] == element@);
                }
            }
            assert(dst.deep_view() =~= old(dst).deep_view() + src.deep_view().take(i as int + 1));
        }
        i = i + 1;
    }
    proof {
        assert(src.deep_view().take(src@.len() as int) =~= src.deep_view());
    }
}

/// The argument vector a solver child is spawned with: the solver's fixed
/// parameters, then the set's extra parameters, then the target path, in
/// exactly this order.
pub fn solver_argv(solver: &Solver, set: &TestSet, target: &String) -> (r: Vec<String>)
    ensures
        r.deep_view() == solver.params.deep_view() + set.params.deep_view() + seq![target@],
{
    let mut r: Vec<String> = Vec::new();
    append_params(&mut r, &solver.params);
    append_params(&mut r, &set.params);
    r.push(target.clone());
    proof {
        assert(r.deep_view() =~= solver.params.deep_view() + set.params.deep_view() + seq![
            target@,
        ]);
    }
    r
}

/// The per-path task walk: every run a test set owes one input path, as
/// `(solver index, iteration index)` pairs, solver-major, iterations in
/// order. Zero iterations plan no runs; `None` only when the product does not
/// fit the address space.
#[verifier::loop_isolation(false)]
pub fn plan_runs(n_solvers: usize, iterations: usize) -> (r: Option<Vec<(usize, usize)>>)
    ensures
        r matches Some(v) ==> v@.len() == n_solvers * iterations && (forall|k: int|
            0 <= k < v@.len() ==> (#[trigger] v@[k]).0 == k / (iterations as int) && v@[k].1 == k
                % (iterations as int)),
        iterations == 0 ==> (r matches Some(v) && v@.len() == 0),
        n_solvers * iterations <= usize::MAX ==> r is Some,
{
    if iterations == 0 {
        proof {
            assert(n_solvers * 0 == 0) by (nonlinear_arith);
        }
        return Some(Vec::new());
    }
    let total: usize = match n_solvers.checked_mul(iterations) {
        Some(t) => t,
        None => {
            return None;
        },
    };
    let mut v: Vec<(usize, usize)> = Vec::new();
    let mut s: usize = 0;
    while s < n_solvers
        invariant
            0 <= s <= n_solvers,
            total == n_solvers * iterations,
            iterations > 0,
            v@.len() == s * iterations,
            v@.len() <= total,
            forall|k: int|
                0 <= k < v@.len() ==> (#[trigger] v@[k]).0 == k / (iterations as int) && v@[k].1
                    == k % (iterations as int),
        decreases n_solvers - s,
    {
        proof {
            assert((s + 1) * iterations == s * iterations + iterations) by (nonlinear_arith);
            assert((s + 1) * iterations <= n_solvers * iterations) by (nonlinear_arith)
                requires
                    s + 1 <= n_solvers,
                    iterations > 0,
            ;
        }
        let mut j: usize = 0;
        while j < iterations
            invariant
                0 <= j <= iterations,
                v@.len() == s * iterations + j,
                v@.len() <= total,
                forall|k: int|
                    0 <= k < v@.len() ==> (#[trigger] v@[k]).0 == k / (iterations as int)
                        && v@[k].1 == k % (iterations as int),
            decreases iterations - j,
        {
            proof {
                lemma_fundamental_div_mod_converse(
                    s * iterations + j,
                    iterations as int,
                    s as int,
                    j as int,
                );
            }
            v.push((s, j));
            j = j + 1;
        }
        s = s + 1;
    }
    proof {
        assert(s * iterations == n_solvers * iterations);
    }
    Some(v)
}

/// The observed outcome of one planned run of a solver against one target.
pub enum RunEvent {
    /// The child exited and its output was ingested: the parsed metrics, or
    /// the error the ingestion ended in.
    Completed(Result<TestMetrics, IngestorError>),
    /// The child ran into the set's timeout and was killed.
    TimedOut,
    /// Waiting for the child failed.
    WaitFailed,
    /// The child could not be spawned.
    SpawnFailed,
}

/// Executor that runs the work product on a local worker pool. This is the
/// engine's state: the work is spawned outside and every observed outcome is
/// recorded here, so that for every run exactly one of three things happens:
/// its metrics bundle is accepted, a failure bundle is accepted, or the error
/// counter grows.
pub struct LocalExecutor {
    pub config: SolverConfig,
    pub connection: ConnectionAdapter,
    pub ingestors: IngestorMap,
    pub collectors: Vec<Collector>,
    pub total: u64,
    pub processed: u64,
    pub total_iterations: u64,
    pub errors: u64,
}

impl LocalExecutor {
    /// Create a new executor over a loaded adapter, configuration, ingestors
    /// and collectors; all progress counters start at zero.
    pub fn load(
        connection: ConnectionAdapter,
        config: SolverConfig,
        ingestors: IngestorMap,
        collectors: Vec<Collector>,
    ) -> (r: Result<Self, ExecutorError>)
        ensures
            r matches Ok(e) && e.connection == connection && e.config == config && e.ingestors
                == ingestors && e.collectors == collectors && e.total == 0 && e.processed == 0
                && e.total_iterations == 0 && e.errors == 0,
    {
        Ok(
            LocalExecutor {
                connection,
                config,
                ingestors,
                collectors,
                total: 0,
                processed: 0,
                total_iterations: 0,
                errors: 0,
            },
        )
    }

    /// Count a spawn failure: no record is written, the error counter grows.
    pub fn record_spawn_failure(&mut self)
        ensures
            final(self).errors == old(self).errors.wrapping_add(1),
            final(self).connection == old(self).connection,
            final(self).config == old(self).config,
            final(self).total == old(self).total,
            final(self).processed == old(self).processed,
            final(self).total_iterations == old(self).total_iterations,
    {
        self.errors = self.errors.wrapping_add(1);
    }

    /// Count an ingestion failure: the record is lost, the error counter
    /// grows.
    pub fn record_ingest_failure(&mut self)
        ensures
            final(self).errors == old(self).errors.wrapping_add(1),
            final(self).connection == old(self).connection,
            final(self).config == old(self).config,
            final(self).total == old(self).total,
            final(self).processed == old(self).processed,
            final(self).total_iterations == old(self).total_iterations,
    {
        self.errors = self.errors.wrapping_add(1);
    }

    /// Record a run that timed out: a failure bundle (all counters zero,
    /// unknown verdict) is submitted so the timeout stays observable. Exactly
    /// one of two things happens: the failure bundle is accepted and the
    /// error counter is untouched, or nothing is committed and the error
    /// counter grows.
    pub fn record_timeout(&mut self, set_name: &String, solver_name: &String, target: &String) -> (r:
        Result<i64, ConnectionError>)
        requires
            old(self).connection.wf(),
            old(self).connection.registered(solver_name@, set_name@),
        ensures
            final(self).connection.wf(),
            final(self).connection.solvers_map() == old(self).connection.solvers_map(),
            final(self).connection.test_sets_map() == old(self).connection.test_sets_map(),
            final(self).connection.benchmark_id() == old(self).connection.benchmark_id(),
            final(self).config == old(self).config,
            final(self).total == old(self).total,
            final(self).processed == old(self).processed,
            final(self).total_iterations == old(self).total_iterations,
            r is Ok ==> final(self).connection.accepted() == old(self).connection.accepted() + 1
                && final(self).errors == old(self).errors,
            r is Ok && old(self).connection is SQLite ==> spec_run_row(
                final(self).connection.handed().last(),
                spec_failed_metrics(),
                idmap_get(old(self).connection.solvers_map(), solver_name@).unwrap(),
                idmap_get(old(self).connection.test_sets_map(), set_name@).unwrap(),
                old(self).connection.benchmark_id(),
                target@,
            ),
            r is Err ==> final(self).connection.committed() == old(self).connection.committed()
                && final(self).errors == old(self).errors.wrapping_add(1),
    {
        match self.connection.store(
            TestMetrics::failed(),
            solver_name.clone(),
            set_name.clone(),
            target,
        ) {
            Ok(id) => Ok(id),
            Err(e) => {
                self.errors = self.errors.wrapping_add(1);
                Err(e)
            },
        }
    }

    /// Record successfully ingested metrics. Exactly one of two things
    /// happens: the metrics bundle is accepted and the error counter is
    /// untouched, or nothing is committed and the error counter grows.
    pub fn record_metrics(
        &mut self,
        metrics: TestMetrics,
        set_name: &String,
        solver_name: &String,
        target: &String,
    ) -> (r: Result<i64, ConnectionError>)
        requires
            old(self).connection.wf(),
            old(self).connection.registered(solver_name@, set_name@),
        ensures
            final(self).connection.wf(),
            final(self).connection.solvers_map() == old(self).connection.solvers_map(),
            final(self).connection.test_sets_map() == old(self).connection.test_sets_map(),
            final(self).connection.benchmark_id() == old(self).connection.benchmark_id(),
            final(self).config == old(self).config,
            final(self).total == old(self).total,
            final(self).processed == old(self).processed,
            final(self).total_iterations == old(self).total_iterations,
            r is Ok ==> final(self).connection.accepted() == old(self).connection.accepted() + 1
                && final(self).errors == old(self).errors,
            r is Ok && old(self).connection is SQLite ==> spec_run_row(
                final(self).connection.handed().last(),
                metrics,
                idmap_get(old(self).connection.solvers_map(), solver_name@).unwrap(),
                idmap_get(old(self).connection.test_sets_map(), set_name@).unwrap(),
                old(self).connection.benchmark_id(),
                target@,
            ),
            r is Err ==> final(self).connection.committed() == old(self).connection.committed()
                && final(self).errors == old(self).errors.wrapping_add(1),
    {
        match self.connection.store(metrics, solver_name.clone(), set_name.clone(), target) {
            Ok(id) => Ok(id),
            Err(e) => {
                self.errors = self.errors.wrapping_add(1);
                Err(e)
            },
        }
    }

    /// Record the decided ingestion of one completed run: parsed metrics are
    /// submitted, an ingestion error is counted. For every completed run
    /// exactly one of three things happens: the metrics bundle is accepted, or
    /// nothing is committed and the error counter grows (store failure), or
    /// nothing is stored and the error counter grows (ingest failure).
    pub fn record_ingest_result(
        &mut self,
        result: Result<TestMetrics, IngestorError>,
        set_name: &String,
        solver_name: &String,
        target: &String,
    )
        requires
            old(self).connection.wf(),
            old(self).connection.registered(solver_name@, set_name@),
        ensures
            final(self).connection.wf(),
            final(self).connection.solvers_map() == old(self).connection.solvers_map(),
            final(self).connection.test_sets_map() == old(self).connection.test_sets_map(),
            final(self).connection.benchmark_id() == old(self).connection.benchmark_id(),
            final(self).config == old(self).config,
            final(self).total == old(self).total,
            final(self).processed == old(self).processed,
            final(self).total_iterations == old(self).total_iterations,
            result is Err ==> final(self).connection == old(self).connection && final(self).errors
                == old(self).errors.wrapping_add(1),
            result matches Ok(m) ==> (final(self).errors == old(self).errors
                && old(self).connection is SQLite ==> spec_run_row(
                final(self).connection.handed().last(),
                m,
                idmap_get(old(self).connection.solvers_map(), solver_name@).unwrap(),
                idmap_get(old(self).connection.test_sets_map(), set_name@).unwrap(),
                old(self).connection.benchmark_id(),
                target@,
            )),
            result is Ok ==> ((final(self).connection.accepted() == old(self).connection.accepted()
                + 1 && final(self).errors == old(self).errors) || (final(self).connection.committed()
                == old(self).connection.committed() && final(self).errors == old(self).errors.wrapping_add(1))),
    {
        match result {
            Ok(metrics) => {
                let _ = self.record_metrics(metrics, set_name, solver_name, target);
            },
            Err(_) => {
                self.record_ingest_failure();
            },
        }
    }

    /// Record the observed outcome of one planned run. For every event
    /// exactly one of these holds afterwards: one more bundle was accepted
    /// (the parsed metrics of a completed run, or the failure bundle of a
    /// timeout), or nothing more was committed and the error counter grew by
    /// one.
    pub fn record_run_event(
        &mut self,
        event: RunEvent,
        set_name: &String,
        solver_name: &String,
        target: &String,
    )
        requires
            old(self).connection.wf(),
            old(self).connection.registered(solver_name@, set_name@),
        ensures
            final(self).connection.wf(),
            final(self).connection.solvers_map() == old(self).connection.solvers_map(),
            final(self).connection.test_sets_map() == old(self).connection.test_sets_map(),
            final(self).connection.benchmark_id() == old(self).connection.benchmark_id(),
            final(self).config == old(self).config,
            final(self).total == old(self).total,
            final(self).processed == old(self).processed,
            final(self).total_iterations == old(self).total_iterations,
            (final(self).connection.accepted() == old(self).connection.accepted() + 1
                && final(self).errors == old(self).errors) || (final(self).connection.committed()
                == old(self).connection.committed() && final(self).errors == old(self).errors.wrapping_add(1)),
            event is TimedOut && final(self).errors == old(self).errors && old(self).connection
                is SQLite ==> spec_run_row(
                final(self).connection.handed().last(),
                spec_failed_metrics(),
                idmap_get(old(self).connection.solvers_map(), solver_name@).unwrap(),
                idmap_get(old(self).connection.test_sets_map(), set_name@).unwrap(),
                old(self).connection.benchmark_id(),
                target@,
            ),
            event matches RunEvent::Completed(res) ==> (res matches Ok(m) ==> (final(self).errors
                == old(self).errors && old(self).connection is SQLite ==> spec_run_row(
                final(self).connection.handed().last(),
                m,
                idmap_get(old(self).connection.solvers_map(), solver_name@).unwrap(),
                idmap_get(old(self).connection.test_sets_map(), set_name@).unwrap(),
                old(self).connection.benchmark_id(),
                target@,
            ))),
            event matches RunEvent::Completed(res) && res is Err ==> final(self).connection
                == old(self).connection && final(self).errors == old(self).errors.wrapping_add(1),
            event is WaitFailed || event is SpawnFailed ==> final(self).connection
                == old(self).connection && final(self).errors == old(self).errors.wrapping_add(1),
    {
        match event {
            RunEvent::Completed(result) => {
                self.record_ingest_result(result, set_name, solver_name, target);
            },
            RunEvent::TimedOut => {
                let _ = self.record_timeout(set_name, solver_name, target);
            },
            RunEvent::WaitFailed => {
                self.record_spawn_failure();
            },
            RunEvent::SpawnFailed => {
                self.record_spawn_failure();
            },
        }
    }

    /// Grow the total-work counter by one set's contribution.
    pub fn count_total(&mut self, n: u64)
        ensures
            final(self).total == old(self).total.wrapping_add(n),
            final(self).connection == old(self).connection,
            final(self).errors == old(self).errors,
    {
        self.total = self.total.wrapping_add(n);
    }

    /// Count one finished iteration.
    pub fn count_iteration(&mut self)
        ensures
            final(self).total_iterations == old(self).total_iterations.wrapping_add(1),
            final(self).connection == old(self).connection,
            final(self).errors == old(self).errors,
    {
        self.total_iterations = self.total_iterations.wrapping_add(1);
    }

    /// Count one fully processed task.
    pub fn count_processed(&mut self)
        ensures
            final(self).processed == old(self).processed.wrapping_add(1),
            final(self).connection == old(self).connection,
            final(self).errors == old(self).errors,
    {
        self.processed = self.processed.wrapping_add(1);
    }

    /// Hand the adapter out at the end of a run so it can be closed: buffered
    /// adapters flush on close. The executor's summary counters come with it.
    pub fn into_connection(self) -> (r: (ConnectionAdapter, u64, u64, u64, u64))
        ensures
            r.0 == self.connection,
            r.1 == self.total,
            r.2 == self.processed,
            r.3 == self.total_iterations,
            r.4 == self.errors,
    {
        let LocalExecutor { connection, total, processed, total_iterations, errors, .. } = self;
        (connection, total, processed, total_iterations, errors)
    }
}

} // verus!
