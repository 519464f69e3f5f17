pub mod exec;
pub mod metrics_doc;

use vstd::prelude::*;

use crate::config::{ConfigErrors, IngestorConfig};
use crate::database::TestMetrics;
use crate::ingest::exec::ExecIngestor;
use crate::ingest::metrics_doc::parse_metrics;

verus! {

/// Errors of the ingestion stage; each one is counted per record and never
/// cancels other runs.
#[derive(Debug)]
pub enum IngestorError {
    /// The ingestor executable could not be spawned.
    SpawnIngestor,
    /// The ingestor's output was not a parseable metrics document.
    DeserializeIngestor,
    /// Waiting for the ingestor child failed.
    ChildError,
    /// The ingestor ran into its timeout.
    ChildTimeout,
}

/// What a solver run produced: wall runtime, captured output and exit status.
pub struct RunOutput {
    pub runtime: u128,
    pub stdout: String,
    pub stderr: String,
    pub status: i32,
}

impl RunOutput {
    /// An empty run output, to be filled in as the run is observed.
    pub fn new() -> (r: Self)
        ensures
            r.runtime == 0,
            r.stdout@.len() == 0,
            r.stderr@.len() == 0,
            r.status == 0,
    {
        RunOutput { runtime: 0, stdout: String::new(), stderr: String::new(), status: 0 }
    }
}

/// The resolved context of one run: ids and names of the benchmark, solver
/// and test set.
pub struct RunContext {
    pub path: String,
    pub benchmark: i32,
    pub solver: (i32, String),
    pub testset: (i32, String),
}

/// The loaded ingestors, keyed by name.
pub type IngestorMap = Vec<(String, Ingestors)>;

/// An ingestor turns a solver's output into a metrics record.
pub enum Ingestors {
    /// An external parser executable is invoked per record.
    Exec(ExecIngestor),
    /// The solver's stdout is parsed directly as a metrics document.
    Null,
}

/// What the ingestion of one run output requires next: either the metrics
/// could be decided directly, or an external parser process must be run and
/// its outcome handed to `Ingestors::finish`.
pub enum IngestStep {
    /// Ingestion is decided: the parsed metrics or the error.
    Done(Result<TestMetrics, IngestorError>),
    /// Run this executable with these parameters, write `stdin` to its
    /// standard input, and wait at most `timeout` milliseconds.
    RunExternal { executable: String, params: String, stdin: String, timeout: u64 },
}

/// The observed outcome of running an external ingestor process.
pub enum ExternalOutcome {
    /// The process could not be spawned.
    SpawnFailed,
    /// The process did not exit within the timeout.
    TimedOut,
    /// Waiting for the process failed.
    WaitFailed,
    /// The process exited; its standard output.
    Exited { stdout: String },
}

impl Ingestors {
    /// Load an ingestor from its configuration.
    pub fn load(config: &IngestorConfig) -> (r: Result<Self, ConfigErrors>)
        ensures
            config is Null ==> (r matches Ok(i) && i is Null),
            config matches IngestorConfig::Exec(c) ==> (r matches Ok(i) && i matches Ingestors::Exec(e)
                && e.ingestor@ == c.executable@ && e.params@ == c.params@ && e.timeout == c.timeout),
    {
        match config {
            IngestorConfig::Null => Ok(Ingestors::Null),
            IngestorConfig::Exec(_) => match ExecIngestor::load(config) {
                Ok(e) => Ok(Ingestors::Exec(e)),
                Err(e) => Err(e),
            },
        }
    }

    /// Begin ingesting one run output: a `Null` ingestor parses the solver's
    /// stdout directly; an `Exec` ingestor asks for its external parser to be
    /// run with the solver's stdout on stdin.
    pub fn ingest(&self, output: RunOutput) -> (r: IngestStep)
        ensures
            self is Null ==> r == IngestStep::Done(parse_metrics_result(output.stdout@)),
            self matches Ingestors::Exec(e) ==> (r matches IngestStep::RunExternal {
                executable,
                params,
                stdin,
                timeout,
            } && executable@ == e.ingestor@ && params@ == e.params@ && stdin@ == output.stdout@
                && timeout == e.timeout),
    {
        match self {
            Ingestors::Null => IngestStep::Done(
                match parse_metrics(output.stdout.as_str()) {
                    Some(m) => Ok(m),
                    None => Err(IngestorError::DeserializeIngestor),
                },
            ),
            Ingestors::Exec(e) => IngestStep::RunExternal {
                executable: e.ingestor.clone(),
                params: e.params.clone(),
                stdin: output.stdout,
                timeout: e.timeout,
            },
        }
    }

    /// Decide the metrics from an external ingestor's outcome: a timeout, a
    /// spawn failure and a wait failure are the corresponding errors; an exit
    /// yields whatever its stdout parses to.
    pub fn finish(outcome: ExternalOutcome) -> (r: Result<TestMetrics, IngestorError>)
        ensures
            outcome is SpawnFailed ==> r == Err::<TestMetrics, _>(IngestorError::SpawnIngestor),
            outcome is TimedOut ==> r == Err::<TestMetrics, _>(IngestorError::ChildTimeout),
            outcome is WaitFailed ==> r == Err::<TestMetrics, _>(IngestorError::ChildError),
            outcome matches ExternalOutcome::Exited { stdout } ==> r == parse_metrics_result(
                stdout@,
            ),
    {
        match outcome {
            ExternalOutcome::SpawnFailed => Err(IngestorError::SpawnIngestor),
            ExternalOutcome::TimedOut => Err(IngestorError::ChildTimeout),
            ExternalOutcome::WaitFailed => Err(IngestorError::ChildError),
            ExternalOutcome::Exited { stdout } => match parse_metrics(stdout.as_str()) {
                Some(m) => Ok(m),
                None => Err(IngestorError::DeserializeIngestor),
            },
        }
    }
}

/// What parsing a metrics document yields at the ingestion stage: the metrics
/// it encodes, or the deserialization error.
pub open spec fn parse_metrics_result(s: Seq<char>) -> Result<TestMetrics, IngestorError> {
    match crate::ingest::metrics_doc::spec_parse_metrics(s) {
        Some(m) => Ok(m),
        None => Err(IngestorError::DeserializeIngestor),
    }
}

} // verus!
