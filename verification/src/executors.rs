pub mod local;
pub mod slurm;

use vstd::prelude::*;

use crate::collector::Collector;
use crate::config::{ConfigErrors, ExecutorConfig, SolverConfig};
use crate::database::{ConnectionAdapter, ConnectionError};
use crate::executors::local::LocalExecutor;
use crate::ingest::{IngestorError, IngestorMap};
use crate::sync::locking::LockingExecutor;

verus! {

/// Errors of the execution stage.
#[derive(Debug)]
pub enum ExecutorError {
    /// The ingest step failed.
    IngestError(IngestorError),
    /// Storing a metric failed.
    ConnectionError(ConnectionError),
    /// A collector glob failed to build.
    GlobError(globset::Error),
    /// The coordinated distribution mode is reserved and cannot be driven.
    UnsupportedMode,
}

/// The available executors: the local worker pool, or the same pool elevated
/// with claim-based collectors for distributed runs.
pub enum Executors {
    Local(LocalExecutor),
    Distributed(LockingExecutor),
}

impl Executors {
    /// The engine behind either executor variant.
    pub open spec fn engine(self) -> LocalExecutor {
        match self {
            Executors::Local(l) => l,
            Executors::Distributed(d) => d.local,
        }
    }

    /// Whether the configuration asks for the distributed filesystem mode.
    pub open spec fn fs_mode(self) -> bool {
        match self.engine().config.executor {
            ExecutorConfig::Distributed { synchronization } => synchronization is FileSystem,
            _ => false,
        }
    }

    /// Whether the configuration asks for the reserved coordinated mode.
    pub open spec fn coordinated_mode(self) -> bool {
        match self.engine().config.executor {
            ExecutorConfig::Distributed { synchronization } => synchronization is Coordinated,
            _ => false,
        }
    }

    /// Resolve the engine that drives the run. A local configuration hands
    /// the engine back unchanged; the distributed filesystem mode first wraps
    /// every collector in the claim protocol, so each path is claimed by an
    /// atomic rename before it is yielded; the reserved coordinated mode is
    /// refused. The resolved engine's collectors are ready to iterate.
    #[verifier::loop_isolation(false)]
    pub fn execute(self) -> (r: Result<LocalExecutor, ExecutorError>)
        requires
            forall|i: int|
                0 <= i < self.engine().collectors@.len() ==> (
                #[trigger] self.engine().collectors@[i]).plain(),
        ensures
            r is Err <==> self.coordinated_mode(),
            r matches Ok(e) ==> e.config == self.engine().config && e.connection
                == self.engine().connection && e.ingestors == self.engine().ingestors && e.total
                == self.engine().total && e.processed == self.engine().processed
                && e.total_iterations == self.engine().total_iterations && e.errors
                == self.engine().errors,
            r matches Ok(e) ==> e.collectors@.len() == self.engine().collectors@.len(),
            !self.fs_mode() && !self.coordinated_mode() ==> (r matches Ok(e) && e.collectors
                == self.engine().collectors),
            self.fs_mode() ==> (r matches Ok(e) && forall|i: int|
                0 <= i < e.collectors@.len() ==> (#[trigger] e.collectors@[i]) is FS
                    && e.collectors@[i].fs_inner() == self.engine().collectors@[i]),
            r matches Ok(e) ==> forall|i: int|
                0 <= i < e.collectors@.len() ==> (#[trigger] e.collectors@[i]).runnable(),
    {
        let mut local = match self {
            Executors::Local(l) => l,
            Executors::Distributed(d) => d.local,
        };
        let fs_mode = match &local.config.executor {
            ExecutorConfig::Distributed { synchronization } => match synchronization {
                crate::distributed::SynchronizationTypes::FileSystem { .. } => true,
                crate::distributed::SynchronizationTypes::Coordinated => {
                    return Err(ExecutorError::UnsupportedMode);
                },
            },
            ExecutorConfig::Local { .. } => false,
        };
        if !fs_mode {
            proof {
                assert forall|i: int|
                    0 <= i < local.collectors@.len() implies (
                #[trigger] local.collectors@[i]).runnable() by {
                    crate::collector::lemma_plain_runnable(local.collectors@[i]);
                }
            }
            return Ok(local);
        }
        let mut plain: Vec<Collector> = Vec::new();
        core::mem::swap(&mut plain, &mut local.collectors);
        let ghost cs0 = plain@;
        let mut wrapped: Vec<Collector> = Vec::new();
        while plain.len() > 0
            invariant
                wrapped@.len() + plain@.len() == cs0.len(),
                plain@ == cs0.skip(wrapped@.len() as int),
                forall|i: int|
                    0 <= i < wrapped@.len() ==> (#[trigger] wrapped@[i]) is FS
                        && wrapped@[i].fs_inner() == cs0[i],
            decreases plain@.len(),
        {
            let ghost done = wrapped@.len() as int;
            let c = plain.remove(0);
            proof {
                assert(c == cs0[done]);
                assert(plain@ =~= cs0.skip(done + 1));
            }
            wrapped.push(Collector::fs(c));
        }
        local.collectors = wrapped;
        proof {
            assert forall|i: int|
                0 <= i < local.collectors@.len() implies (
            #[trigger] local.collectors@[i]).runnable() by {
                assert(local.collectors@[i].fs_inner() == cs0[i]);
            }
        }
        Ok(local)
    }

    /// Choose and build the executor the configuration names.
    pub fn load(
        connection: ConnectionAdapter,
        config: SolverConfig,
        ingestors: IngestorMap,
        collectors: Vec<Collector>,
    ) -> (r: Result<Self, ConfigErrors>)
        ensures
            config.executor is Local ==> (r matches Ok(e) && e matches Executors::Local(l)
                && l.connection == connection && l.errors == 0),
            config.executor is Distributed ==> (r matches Ok(e) && e matches Executors::Distributed(
                d,
            ) && d.local.connection == connection && d.local.errors == 0),
    {
        match &config.executor {
            ExecutorConfig::Local { .. } => match LocalExecutor::load(
                connection,
                config,
                ingestors,
                collectors,
            ) {
                Ok(local) => Ok(Executors::Local(local)),
                Err(e) => Err(ConfigErrors::FailedLoadExecutor(e)),
            },
            ExecutorConfig::Distributed { .. } => match LocalExecutor::load(
                connection,
                config,
                ingestors,
                collectors,
            ) {
                Ok(local) => Ok(Executors::Distributed(LockingExecutor { local })),
                Err(e) => Err(ConfigErrors::FailedLoadExecutor(e)),
            },
        }
    }
}

} // verus!
