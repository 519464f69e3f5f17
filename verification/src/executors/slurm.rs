use vstd::prelude::*;

use crate::database::ConnectionAdapter;

verus! {

/// Stub of a future executor that hands batches of runs to a cluster
/// scheduler instead of a local worker pool.
pub struct SlurmExecutor {
    pub connection: ConnectionAdapter,
}

} // verus!
