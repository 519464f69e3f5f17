pub mod fs;
pub mod mpi;
pub mod util;

use vstd::prelude::*;

verus! {

/// How distributed runners coordinate who works on which input file.
pub enum SynchronizationTypes {
    /// A single coordinator hands work out; reserved for a future variant.
    Coordinated,
    /// Runners race on a shared filesystem, claiming files by atomic rename.
    FileSystem { path: String },
}

} // verus!
