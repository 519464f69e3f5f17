use vstd::prelude::*;

use crate::config::{ConfigErrors, IngestorConfig};

verus! {

/// An external parser executable: it is spawned per record, the solver's
/// stdout is written to its stdin, and its stdout must be a metrics document.
pub struct ExecIngestor {
    pub ingestor: String,
    pub params: String,
    pub timeout: u64,
}

impl ExecIngestor {
    /// Load an exec ingestor from its configuration; other configurations are
    /// not for this ingestor.
    pub fn load(config: &IngestorConfig) -> (r: Result<Self, ConfigErrors>)
        requires
            config is Exec,
        ensures
            config matches IngestorConfig::Exec(c) ==> (r matches Ok(e) && e.ingestor@
                == c.executable@ && e.params@ == c.params@ && e.timeout == c.timeout),
    {
        match config {
            IngestorConfig::Exec(c) => Ok(
                ExecIngestor {
                    ingestor: c.executable.clone(),
                    params: c.params.clone(),
                    timeout: c.timeout,
                },
            ),
            _ => Err(ConfigErrors::FailedLoadIngestor),
        }
    }
}

} // verus!
