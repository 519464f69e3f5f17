use vstd::prelude::*;

use crate::executors::local::LocalExecutor;

verus! {

/// The distributed executor: a local executor whose collectors claim their
/// files through the filesystem protocol.
pub struct LockingExecutor {
    pub local: LocalExecutor,
}

} // verus!
