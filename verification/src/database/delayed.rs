use vstd::prelude::*;

use crate::config::SolverConfig;
use crate::database::util::idmap_contains;
use crate::database::{spec_run_row, ConnectionAdapter, ConnectionError, MetricsBundle, TestMetrics};

verus! {

/// Buffers every metric bundle until `close`, which flushes them in one bulk
/// insert; for measurements that write latency must not perturb.
pub struct DelayedConnection {
    pub adapter: Box<ConnectionAdapter>,
    pub buffer: Vec<MetricsBundle>,
}

impl DelayedConnection {
    /// The inner adapter is a direct one in a good state, and every buffered
    /// bundle names a registered solver and test set.
    pub open spec fn wf(self) -> bool
        decreases self,
    {
        &&& self.adapter.is_direct()
        &&& self.adapter.wf()
        &&& forall|j: int|
            0 <= j < self.buffer@.len() ==> idmap_contains(
                self.adapter.solvers_map(),
                (#[trigger] self.buffer@[j]).solver@,
            ) && idmap_contains(self.adapter.test_sets_map(), self.buffer@[j].test_set@)
    }

    /// Initialize the inner adapter.
    pub fn init(
        &mut self,
        config: &SolverConfig,
        benchmark: Option<i32>,
        comment: Option<String>,
    ) -> (r: Result<(), ConnectionError>)
        requires
            old(self).wf(),
            old(self).buffer@.len() == 0,
        ensures
            final(self).wf(),
            final(self).buffer@ == old(self).buffer@,
            final(self).adapter.committed() == old(self).adapter.committed(),
            r is Ok ==> forall|j: int|
                0 <= j < config.solvers@.len() ==> idmap_contains(
                    final(self).adapter.solvers_map(),
                    (#[trigger] config.solvers@[j]).0@,
                ),
            r is Ok ==> forall|j: int|
                0 <= j < config.tests@.len() ==> idmap_contains(
                    final(self).adapter.test_sets_map(),
                    (#[trigger] config.tests@[j]).0@,
                ),
        decreases *old(self),
    {
        self.adapter.init(config, benchmark, comment)
    }

    /// Wrap a direct adapter with an unbounded buffer.
    pub fn load(connection: ConnectionAdapter) -> (r: Self)
        ensures
            r.buffer@ == Seq::<MetricsBundle>::empty(),
            *r.adapter == connection,
    {
        DelayedConnection { buffer: Vec::new(), adapter: Box::new(connection) }
    }

    /// How many bundles are buffered and not yet handed to the inner adapter.
    pub fn buffered(&self) -> (r: usize)
        ensures
            r == self.buffer@.len(),
    {
        self.buffer.len()
    }

    /// Flush the whole buffer in one bulk insert, then close the inner
    /// adapter. On success the rows this stack committed are the old
    /// committed rows followed by one bulk row per buffered bundle, in order.
    pub fn close(self) -> (r: (Result<(), ConnectionError>, Ghost<Seq<crate::database::RunRow>>))
        requires
            self.wf(),
        ensures
            r.0 is Ok ==> r.1@.len() == self.adapter.committed().len() + self.buffer@.len()
                && r.1@.take(self.adapter.committed().len() as int) == self.adapter.committed() && (
            forall|j: int|
                0 <= j < self.buffer@.len() ==> spec_run_row(
                    r.1@[self.adapter.committed().len() + j],
                    (#[trigger] self.buffer@[j]).metrics,
                    crate::database::util::idmap_get(
                        self.adapter.solvers_map(),
                        self.buffer@[j].solver@,
                    ).unwrap(),
                    crate::database::util::idmap_get(
                        self.adapter.test_sets_map(),
                        self.buffer@[j].test_set@,
                    ).unwrap(),
                    self.adapter.benchmark_id(),
                    self.buffer@[j].target@,
                )),
    {
        let DelayedConnection { adapter, buffer } = self;
        let mut inner = *adapter;
        if buffer.len() > 0 {
            match inner.store_iter(buffer) {
                Ok(()) => {},
                Err(e) => {
                    return (Err(e), Ghost(Seq::empty()));
                },
            }
        } else {
            proof {
                assert(inner.committed().take(inner.committed().len() as int) =~= inner.committed());
            }
        }
        match inner {
            ConnectionAdapter::SQLite(c) => {
                let ledger: Ghost<Seq<crate::database::RunRow>> = Ghost(c.0.rows@);
                proof {
                    assert(ledger@.take(ledger@.len() as int) =~= ledger@);
                }
                (c.close(), ledger)
            },
            _ => {
                proof {
                    assert(false);
                }
                (Err(ConnectionError::ConfigError), Ghost(Seq::empty()))
            },
        }
    }

    /// Buffer one bundle until close. The returned id is the deferred
    /// sentinel.
    pub fn store(
        &mut self,
        metrics: TestMetrics,
        solver: String,
        test_set: String,
        target: &String,
    ) -> (r: Result<i64, ConnectionError>)
        requires
            old(self).wf(),
            idmap_contains(old(self).adapter.solvers_map(), solver@),
            idmap_contains(old(self).adapter.test_sets_map(), test_set@),
        ensures
            final(self).wf(),
            final(self).adapter == old(self).adapter,
            r == Ok::<i64, ConnectionError>(i64::MIN),
            final(self).buffer@ == old(self).buffer@.push(
                MetricsBundle { metrics, solver, test_set, target: *target },
            ),
    {
        let bundle = MetricsBundle { metrics, solver, test_set, target: target.clone() };
        self.buffer.push(bundle);
        Ok(i64::MIN)
    }
}

} // verus!
