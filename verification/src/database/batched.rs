use vstd::prelude::*;

use crate::config::{BatchConfig, SolverConfig};
use crate::database::util::idmap_contains;
use crate::database::{spec_run_row, ConnectionAdapter, ConnectionError, MetricsBundle, TestMetrics};

verus! {

/// Buffers metric bundles and drains them into one bulk insert on the inner
/// adapter whenever the buffer reaches the configured size; `close` drains
/// whatever is left first.
pub struct BatchedConnection {
    pub connection: Box<ConnectionAdapter>,
    pub buffer: Vec<MetricsBundle>,
    pub size: u32,
}

impl BatchedConnection {
    /// The inner adapter is a direct one in a good state, and every buffered
    /// bundle names a registered solver and test set.
    pub open spec fn wf(self) -> bool
        decreases self,
    {
        &&& self.connection.is_direct()
        &&& self.connection.wf()
        &&& forall|j: int|
            0 <= j < self.buffer@.len() ==> idmap_contains(
                self.connection.solvers_map(),
                (#[trigger] self.buffer@[j]).solver@,
            ) && idmap_contains(self.connection.test_sets_map(), self.buffer@[j].test_set@)
    }

    /// Wrap a direct adapter with an empty buffer of the configured size.
    pub fn load(config: &BatchConfig, connection: ConnectionAdapter) -> (r: Self)
        ensures
            r.buffer@ == Seq::<MetricsBundle>::empty(),
            r.size == config.size,
            *r.connection == connection,
    {
        BatchedConnection { buffer: Vec::new(), size: config.size, connection: Box::new(connection) }
    }

    /// Initialize the inner adapter.
    pub fn init(
        &mut self,
        config: &SolverConfig,
        benchmark: Option<i32>,
        comment: Option<String>,
    ) -> (r: Result<(), ConnectionError>)
        requires
            old(self).wf(),
            old(self).buffer@.len() == 0,
        ensures
            final(self).wf(),
            final(self).buffer@ == old(self).buffer@,
            final(self).size == old(self).size,
            final(self).connection.committed() == old(self).connection.committed(),
            r is Ok ==> forall|j: int|
                0 <= j < config.solvers@.len() ==> idmap_contains(
                    final(self).connection.solvers_map(),
                    (#[trigger] config.solvers@[j]).0@,
                ),
            r is Ok ==> forall|j: int|
                0 <= j < config.tests@.len() ==> idmap_contains(
                    final(self).connection.test_sets_map(),
                    (#[trigger] config.tests@[j]).0@,
                ),
        decreases *old(self),
    {
        self.connection.init(config, benchmark, comment)
    }

    /// How many bundles are buffered and not yet handed to the inner adapter.
    pub fn buffered(&self) -> (r: usize)
        ensures
            r == self.buffer@.len(),
    {
        self.buffer.len()
    }

    /// Drain the buffer into one bulk insert on the inner adapter. On success
    /// exactly the buffered bundles became committed rows, in order; on
    /// failure the drained bundles are lost and nothing was committed.
    pub fn flush(&mut self) -> (r: Result<(), ConnectionError>)
        requires
            old(self).wf(),
        ensures
            final(self).wf(),
            final(self).size == old(self).size,
            final(self).buffer@ == Seq::<MetricsBundle>::empty(),
            final(self).connection.solvers_map() == old(self).connection.solvers_map(),
            final(self).connection.test_sets_map() == old(self).connection.test_sets_map(),
            final(self).connection.benchmark_id() == old(self).connection.benchmark_id(),
            r is Ok && old(self).buffer@.len() > 0 ==> old(self).connection.handed() == old(self).connection.committed() && final(self).connection.handed() == final(self).connection.committed(),
            old(self).buffer@.len() == 0 ==> final(self).connection.handed() == old(self).connection.handed(),
            r is Ok ==> final(self).connection.committed().len() == old(self).connection.committed().len() + old(self).buffer@.len() && final(self).connection.committed().take(old(self).connection.committed().len() as int) == old(self).connection.committed() && (forall|j: int|
                0 <= j < old(self).buffer@.len() ==> spec_run_row(
                    final(self).connection.committed()[old(self).connection.committed().len() + j],
                    (#[trigger] old(self).buffer@[j]).metrics,
                    crate::database::util::idmap_get(
                        old(self).connection.solvers_map(),
                        old(self).buffer@[j].solver@,
                    ).unwrap(),
                    crate::database::util::idmap_get(
                        old(self).connection.test_sets_map(),
                        old(self).buffer@[j].test_set@,
                    ).unwrap(),
                    old(self).connection.benchmark_id(),
                    old(self).buffer@[j].target@,
                )),
            r is Err ==> final(self).connection.committed() == old(self).connection.committed(),
    {
        if self.buffer.len() == 0 {
            proof {
                assert(self.connection.committed().take(self.connection.committed().len() as int)
                    =~= self.connection.committed());
            }
            return Ok(());
        }
        let mut drained: Vec<MetricsBundle> = Vec::new();
        core::mem::swap(&mut drained, &mut self.buffer);
        self.connection.store_iter(drained)
    }

    /// Drain any residual buffer, then close the inner adapter. On success
    /// the rows this stack committed are the old committed rows followed by
    /// one bulk row per bundle that was still buffered.
    pub fn close(self) -> (r: (Result<(), ConnectionError>, Ghost<Seq<crate::database::RunRow>>))
        requires
            self.wf(),
        ensures
            r.0 is Ok ==> r.1@.len() == self.connection.committed().len() + self.buffer@.len()
                && r.1@.take(self.connection.committed().len() as int)
                == self.connection.committed() && (forall|j: int|
                0 <= j < self.buffer@.len() ==> spec_run_row(
                    r.1@[self.connection.committed().len() + j],
                    (#[trigger] self.buffer@[j]).metrics,
                    crate::database::util::idmap_get(
                        self.connection.solvers_map(),
                        self.buffer@[j].solver@,
                    ).unwrap(),
                    crate::database::util::idmap_get(
                        self.connection.test_sets_map(),
                        self.buffer@[j].test_set@,
                    ).unwrap(),
                    self.connection.benchmark_id(),
                    self.buffer@[j].target@,
                )),
    {
        let mut this = self;
        match this.flush() {
            Ok(()) => {},
            Err(e) => {
                return (Err(e), Ghost(Seq::empty()));
            },
        }
        match *this.connection {
            ConnectionAdapter::SQLite(c) => {
                let ledger: Ghost<Seq<crate::database::RunRow>> = Ghost(c.0.rows@);
                proof {
                    assert(ledger@.take(ledger@.len() as int) =~= ledger@);
                }
                (c.close(), ledger)
            },
            _ => {
                proof {
                    assert(false);
                }
                (Err(ConnectionError::ConfigError), Ghost(Seq::empty()))
            },
        }
    }

    /// Buffer one bundle; when the buffer reaches the configured size, drain
    /// it into the inner adapter. The returned id is the deferred sentinel.
    pub fn store(
        &mut self,
        metrics: TestMetrics,
        solver: String,
        test_set: String,
        target: &String,
    ) -> (r: Result<i64, ConnectionError>)
        requires
            old(self).wf(),
            idmap_contains(old(self).connection.solvers_map(), solver@),
            idmap_contains(old(self).connection.test_sets_map(), test_set@),
        ensures
            final(self).wf(),
            final(self).size == old(self).size,
            final(self).connection.solvers_map() == old(self).connection.solvers_map(),
            final(self).connection.test_sets_map() == old(self).connection.test_sets_map(),
            final(self).connection.benchmark_id() == old(self).connection.benchmark_id(),
            r matches Ok(v) ==> v == i64::MIN,
            ({
                let pushed = old(self).buffer@.push(
                    MetricsBundle { metrics, solver, test_set, target: *target },
                );
                &&& (r is Ok && pushed.len() != old(self).size ==> final(self).buffer@ == pushed
                    && final(self).connection.committed() == old(self).connection.committed()
                    && final(self).connection.handed() == old(self).connection.handed())
                &&& (r is Ok && pushed.len() == old(self).size ==> final(self).buffer@ == Seq::<
                    MetricsBundle,
                >::empty() && old(self).connection.handed() == old(self).connection.committed()
                    && final(self).connection.handed() == final(self).connection.committed()
                    && final(self).connection.committed().len() == old(self).connection.committed().len() + pushed.len() && final(self).connection.committed().take(old(self).connection.committed().len() as int) == old(self).connection.committed() && (forall|j: int|
                    0 <= j < pushed.len() ==> spec_run_row(
                        final(self).connection.committed()[old(self).connection.committed().len() + j],
                        (#[trigger] pushed[j]).metrics,
                        crate::database::util::idmap_get(
                            old(self).connection.solvers_map(),
                            pushed[j].solver@,
                        ).unwrap(),
                        crate::database::util::idmap_get(
                            old(self).connection.test_sets_map(),
                            pushed[j].test_set@,
                        ).unwrap(),
                        old(self).connection.benchmark_id(),
                        pushed[j].target@,
                    )))
                &&& (r is Err ==> final(self).buffer@ == Seq::<MetricsBundle>::empty() && final(self).connection.committed() == old(self).connection.committed())
            }),
    {
        let bundle = MetricsBundle { metrics, solver, test_set, target: target.clone() };
        self.buffer.push(bundle);
        if self.buffer.len() == self.size as usize {
            match self.flush() {
                Ok(()) => {},
                Err(e) => {
                    return Err(e);
                },
            }
        }
        Ok(i64::MIN)
    }
}

} // verus!
