use vstd::prelude::*;

use crate::collector::Collector;

verus! {

/// Coordinator of a future single-coordinator work distribution mode.
pub struct MPICoordinator {
    pub is_master: bool,
}

/// Collector stub for the coordinated distribution mode; it wraps an inner
/// collector that the coordinator would drain.
pub struct MPICollector {
    inner: Box<Collector>,
}

impl MPICollector {
    /// The wrapped collector.
    pub closed spec fn inner_spec(self) -> Collector {
        *self.inner
    }

    /// Wrap a collector for coordinated distribution.
    pub fn new(collector: Collector) -> (r: Self)
        ensures
            r.inner_spec() == collector,
    {
        MPICollector { inner: Box::new(collector) }
    }
}

/// Storage stub for the coordinated distribution mode.
pub struct MPIStorage {}

} // verus!
