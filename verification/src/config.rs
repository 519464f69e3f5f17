use vstd::prelude::*;
use vstd::string::StrSliceExecFns;

use crate::database::ConnectionError;
use crate::distributed::SynchronizationTypes;
use crate::executors::ExecutorError;

verus! {

/// Errors found while loading or validating a configuration.
#[derive(Debug)]
pub enum ConfigErrors {
    /// A glob pattern did not compile.
    InvalidGlobs(globset::Error),
    /// The executor failed to load.
    FailedLoadExecutor(ExecutorError),
    /// One or more ingestors failed to load.
    FailedLoadIngestor,
    /// A file's metadata could not be read.
    MetadataNotFound,
    /// The database connection failed.
    DatabaseError(ConnectionError),
}

#[verifier::external_type_specification]
#[verifier::external_body]
pub struct ExGlobsetError(globset::Error);

/// The whole configuration of a run. The maps of the configuration file are
/// held as key/value vectors whose keys are unique and sorted as the file
/// loader produced them.
pub struct SolverConfig {
    pub executor: ExecutorConfig,
    pub solvers: Vec<(String, Solver)>,
    pub tests: Vec<(String, TestSet)>,
    pub ingest: Vec<(String, IngestorConfig)>,
    pub database: DatabaseConfig,
    pub delayed: bool,
    pub tracing: TracingConfig,
}

/// Where log events go.
pub enum TracingConfig {
    OpenTelemetry,
    Stdio,
}

impl Default for TracingConfig {
    /// Logging defaults to standard output.
    fn default() -> (r: Self)
        ensures
            r is Stdio,
    {
        TracingConfig::Stdio
    }
}

/// Database selection and the optional buffering wrappers.
pub struct DatabaseConfig {
    pub delayed: bool,
    pub batched: Option<BatchConfig>,
    pub connection: ConnectionConfig,
}

/// Configuration of the batched adapter.
pub struct BatchConfig {
    pub size: u32,
    pub timeout: Option<u32>,
}

/// The concrete database backend to connect to.
pub enum ConnectionConfig {
    DuckDB { path: String },
    SQLite { path: String },
    ClickHouse {
        server: String,
        database: String,
        user: Option<String>,
        password: Option<String>,
        connections: Option<u32>,
        lz4: Option<bool>,
        lz4hc: Option<u8>,
    },
}

impl Default for ConnectionConfig {
    /// The default store is an SQLite file in the working directory.
    fn default() -> (r: Self)
        ensures
            r is SQLite,
    {
        ConnectionConfig::SQLite { path: String::from_str("./satan.db") }
    }
}

/// How a solver's output is turned into metrics.
pub enum IngestorConfig {
    /// An external parser executable.
    Exec(ExecIngestConfig),
    /// The solver output is itself the metrics document.
    Null,
}

/// Configuration of an external parser executable.
pub struct ExecIngestConfig {
    pub executable: String,
    pub params: String,
    pub timeout: u64,
}

/// How runs are executed.
pub enum ExecutorConfig {
    Local { threads: usize, pinned: bool },
    Distributed { synchronization: SynchronizationTypes },
}

/// Configuration of a collector.
pub enum CollectorConfig {
    Glob { paths: Vec<String>, glob: String, path: Option<String> },
    Grouped { collectors: Vec<String> },
    GDB { server: String, tmp_dir: Option<String> },
}

/// A named bundle of inputs, timeout, iteration count and selected solvers.
pub struct TestSet {
    pub timeout: u32,
    pub collector: CollectorConfig,
    pub iterations: usize,
    pub solvers: Vec<String>,
    pub params: Vec<String>,
}

/// An external solver executable with its fixed parameters and the name of
/// the ingestor that parses its output.
pub struct Solver {
    pub exec_path: String,
    pub params: Vec<String>,
    pub ingest: String,
}

/// The default batch size of the batched adapter.
pub fn default_batch_number() -> (r: u32)
    ensures
        r == 100,
{
    100
}

/// The default iteration count of a test set.
pub fn default_iter_number() -> (r: usize)
    ensures
        r == 1,
{
    1
}

/// The parameter list joined by single spaces.
pub open spec fn spec_joined_params(ps: Seq<Seq<char>>, i: int) -> Seq<char>
    decreases ps.len() - i,
{
    if 0 <= i < ps.len() {
        if i == ps.len() - 1 {
            ps[i]
        } else {
            ps[i] + " "@ + spec_joined_params(ps, i + 1)
        }
    } else {
        Seq::empty()
    }
}

/// Join a parameter list with single spaces.
fn join_params_from(ps: &Vec<String>, i: usize) -> (r: String)
    requires
        i <= ps@.len(),
    ensures
        r@ == spec_joined_params(ps.deep_view(), i as int),
    decreases ps@.len() - i,
{
    if i >= ps.len() {
        String::new()
    } else if i == ps.len() - 1 {
        ps[i].clone()
    } else {
        let mut r = ps[i].clone();
        r.append(" ");
        r.append(join_params_from(ps, i + 1).as_str());
        r
    }
}

impl Solver {
    /// The solver's fixed parameters joined by spaces, as persisted.
    pub fn get_params(&self) -> (r: String)
        ensures
            r@ == spec_joined_params(self.params.deep_view(), 0),
    {
        join_params_from(&self.params, 0)
    }
}

impl TestSet {
    /// The set's extra parameters joined by spaces, as persisted.
    pub fn get_params(&self) -> (r: String)
        ensures
            r@ == spec_joined_params(self.params.deep_view(), 0),
    {
        join_params_from(&self.params, 0)
    }
}

/// The names in a key/value vector, in order.
pub open spec fn spec_keys<X>(entries: Seq<(String, X)>) -> Seq<Seq<char>> {
    entries.map_values(|e: (String, X)| e.0@)
}

/// Whether a key/value vector holds an entry under `name`.
#[verifier::loop_isolation(false)]
pub fn has_key<X>(entries: &Vec<(String, X)>, name: &str) -> (r: bool)
    ensures
        r == spec_keys(entries@).contains(name@),
{
    let mut i: usize = 0;
    while i < entries.len()
        invariant
            0 <= i <= entries@.len(),
            forall|j: int| 0 <= j < i ==> spec_keys(entries@)[j] != name@,
        decreases entries@.len() - i,
    {
        if crate::paths::str_eq(entries[i].0.as_str(), name) {
            assert(spec_keys(entries@)[i as int] == name@);
            return true;
        }
        i = i + 1;
    }
    false
}

/// A mode taken from the filesystem says the path is no executable file:
/// either nothing could be read, or it is not a regular file, or no execute
/// bit is set.
pub open spec fn spec_executable_problem(mode: Option<u32>) -> bool {
    match mode {
        None => true,
        Some(m) => (m & 0o170000u32) != 0o100000u32 || (m & 0o111u32) == 0u32,
    }
}

/// Decide from a stat mode whether a path fails the executable check.
pub fn executable_problem(mode: Option<u32>) -> (r: bool)
    ensures
        r == spec_executable_problem(mode),
{
    match mode {
        None => true,
        Some(m) => (m & 0o170000u32) != 0o100000u32 || (m & 0o111u32) == 0u32,
    }
}

/// The file's mode bits, or None when the path cannot be inspected.
///
/// Relies on nix::sys::stat::stat; the result depends on the disk, so nothing
/// is promised of it.
#[verifier::external_body]
pub fn stat_mode(path: &String) -> (r: Option<u32>) {
    match nix::sys::stat::stat(std::path::Path::new(path.as_str())) {
        Ok(st) => Some(st.st_mode as u32),
        Err(_) => None,
    }
}

/// Whether the path fails the executable check: it cannot be read, is not a
/// regular file, or carries no execute bit. The verdict for each possible
/// mode is fixed by `spec_executable_problem`; which mode the disk yields is
/// not specified.
pub fn check_executable(path: &String) -> (r: bool) {
    executable_problem(stat_mode(path))
}

/// A mode taken from the filesystem says a database path is unusable: the
/// path exists but is not a regular file.
pub open spec fn spec_db_path_problem(mode: Option<u32>) -> bool {
    match mode {
        None => false,
        Some(m) => (m & 0o170000u32) != 0o100000u32,
    }
}

/// Decide from a stat mode whether a database path is unusable.
pub fn db_path_problem(mode: Option<u32>) -> (r: bool)
    ensures
        r == spec_db_path_problem(mode),
{
    match mode {
        None => false,
        Some(m) => (m & 0o170000u32) != 0o100000u32,
    }
}

/// The keys of a key/value vector, in order.
#[verifier::loop_isolation(false)]
pub fn key_names<X>(entries: &Vec<(String, X)>) -> (r: Vec<String>)
    ensures
        r.deep_view() == spec_keys(entries@),
{
    let mut r: Vec<String> = Vec::new();
    let mut i: usize = 0;
    while i < entries.len()
        invariant
            0 <= i <= entries@.len(),
            r.deep_view() =~= spec_keys(entries@).take(i as int),
        decreases entries@.len() - i,
    {
        r.push(entries[i].0.clone());
        i = i + 1;
    }
    proof {
        assert(spec_keys(entries@).take(entries@.len() as int) =~= spec_keys(entries@));
    }
    r
}

/// A solver references an ingestor that is not defined.
pub open spec fn spec_any_missing_ingest(
    solvers: Seq<(String, Solver)>,
    ingest: Seq<(String, IngestorConfig)>,
) -> bool {
    exists|i: int|
        0 <= i < solvers.len() && !spec_keys(ingest).contains((#[trigger] solvers[i]).1.ingest@)
}

/// Whether any solver references an undefined ingestor.
#[verifier::loop_isolation(false)]
pub fn any_missing_ingest(
    solvers: &Vec<(String, Solver)>,
    ingest: &Vec<(String, IngestorConfig)>,
) -> (r: bool)
    ensures
        r == spec_any_missing_ingest(solvers@, ingest@),
{
    let mut i: usize = 0;
    while i < solvers.len()
        invariant
            0 <= i <= solvers@.len(),
            forall|j: int|
                0 <= j < i ==> spec_keys(ingest@).contains((#[trigger] solvers@[j]).1.ingest@),
        decreases solvers@.len() - i,
    {
        if !has_key(ingest, solvers[i].1.ingest.as_str()) {
            return true;
        }
        i = i + 1;
    }
    false
}

/// The test-set names a grouped collector references; empty for the other
/// collector kinds.
pub open spec fn spec_grouped_refs(t: TestSet) -> Seq<Seq<char>> {
    match t.collector {
        CollectorConfig::Grouped { collectors } => collectors.deep_view(),
        _ => Seq::empty(),
    }
}

/// A grouped collector references a test set that is not defined.
pub open spec fn spec_any_bad_grouped_ref(tests: Seq<(String, TestSet)>) -> bool {
    exists|i: int, j: int|
        0 <= i < tests.len() && 0 <= j < spec_grouped_refs(tests[i].1).len() && !spec_keys(
            tests,
        ).contains(#[trigger] spec_grouped_refs(tests[i].1)[j])
}

/// Whether any grouped collector references an undefined test set.
#[verifier::loop_isolation(false)]
pub fn any_bad_grouped_ref(tests: &Vec<(String, TestSet)>) -> (r: bool)
    ensures
        r == spec_any_bad_grouped_ref(tests@),
{
    let mut i: usize = 0;
    while i < tests.len()
        invariant
            0 <= i <= tests@.len(),
            forall|ii: int, j: int|
                !(0 <= ii < i && 0 <= j < spec_grouped_refs(tests@[ii].1).len() && !spec_keys(
                    tests@,
                ).contains(#[trigger] spec_grouped_refs(tests@[ii].1)[j])),
        decreases tests@.len() - i,
    {
        match &tests[i].1.collector {
            CollectorConfig::Grouped { collectors } => {
                let mut j: usize = 0;
                while j < collectors.len()
                    invariant
                        0 <= j <= collectors@.len(),
                        forall|k: int|
                            0 <= k < j ==> spec_keys(tests@).contains(
                                #[trigger] spec_grouped_refs(tests@[i as int].1)[k],
                            ),
                    decreases collectors@.len() - j,
                {
                    if !has_key(tests, collectors[j].as_str()) {
                        assert(!spec_keys(tests@).contains(
                            spec_grouped_refs(tests@[i as int].1)[j as int],
                        ));
                        return true;
                    }
                    j = j + 1;
                }
            },
            _ => {},
        }
        i = i + 1;
    }
    false
}

/// A glob collector has neither a single path nor a path list: nothing to do.
pub open spec fn spec_any_empty_glob(tests: Seq<(String, TestSet)>) -> bool {
    exists|i: int|
        0 <= i < tests.len() && ((#[trigger] tests[i]).1.collector matches CollectorConfig::Glob {
            paths,
            path,
            ..
        } && paths@.len() == 0 && path is None)
}

/// Whether any glob collector names no input path at all.
#[verifier::loop_isolation(false)]
pub fn any_empty_glob(tests: &Vec<(String, TestSet)>) -> (r: bool)
    ensures
        r == spec_any_empty_glob(tests@),
{
    let mut i: usize = 0;
    while i < tests.len()
        invariant
            0 <= i <= tests@.len(),
            forall|ii: int|
                !(0 <= ii < i && ((#[trigger] tests@[ii]).1.collector matches
                CollectorConfig::Glob { paths, path, .. } && paths@.len() == 0 && path is None)),
        decreases tests@.len() - i,
    {
        match &tests[i].1.collector {
            CollectorConfig::Glob { paths, path, .. } => {
                if paths.len() == 0 && path.is_none() {
                    return true;
                }
            },
            _ => {},
        }
        i = i + 1;
    }
    false
}

/// A test set demands a zero timeout, which some metrics cannot live with.
pub open spec fn spec_any_zero_timeout(tests: Seq<(String, TestSet)>) -> bool {
    exists|i: int| 0 <= i < tests.len() && (#[trigger] tests[i]).1.timeout == 0
}

/// Whether any test set demands a zero timeout.
#[verifier::loop_isolation(false)]
pub fn any_zero_timeout(tests: &Vec<(String, TestSet)>) -> (r: bool)
    ensures
        r == spec_any_zero_timeout(tests@),
{
    let mut i: usize = 0;
    while i < tests.len()
        invariant
            0 <= i <= tests@.len(),
            forall|j: int| 0 <= j < i ==> (#[trigger] tests@[j]).1.timeout != 0,
        decreases tests@.len() - i,
    {
        if tests[i].1.timeout == 0 {
            return true;
        }
        i = i + 1;
    }
    false
}

/// A test set names a solver that is not defined.
pub open spec fn spec_any_unknown_solver(
    tests: Seq<(String, TestSet)>,
    solvers: Seq<(String, Solver)>,
) -> bool {
    exists|i: int, j: int|
        0 <= i < tests.len() && 0 <= j < tests[i].1.solvers.deep_view().len() && !spec_keys(
            solvers,
        ).contains(#[trigger] tests[i].1.solvers.deep_view()[j])
}

/// Whether any test set selects an undefined solver.
#[verifier::loop_isolation(false)]
pub fn any_unknown_solver(tests: &Vec<(String, TestSet)>, solvers: &Vec<(String, Solver)>) -> (r:
    bool)
    ensures
        r == spec_any_unknown_solver(tests@, solvers@),
{
    let mut i: usize = 0;
    while i < tests.len()
        invariant
            0 <= i <= tests@.len(),
            forall|ii: int, j: int|
                !(0 <= ii < i && 0 <= j < tests@[ii].1.solvers.deep_view().len() && !spec_keys(
                    solvers@,
                ).contains(#[trigger] tests@[ii].1.solvers.deep_view()[j])),
        decreases tests@.len() - i,
    {
        let names = &tests[i].1.solvers;
        let mut j: usize = 0;
        while j < names.len()
            invariant
                0 <= j <= names@.len(),
                forall|k: int|
                    0 <= k < j ==> spec_keys(solvers@).contains(
                        #[trigger] tests@[i as int].1.solvers.deep_view()[k],
                    ),
            decreases names@.len() - j,
        {
            if !has_key(solvers, names[j].as_str()) {
                proof {
                    assert(tests@[i as int].1.solvers.deep_view()[j as int] == names@[j as int]@);
                }
                return true;
            }
            j = j + 1;
        }
        i = i + 1;
    }
    false
}

/// ClickHouse credentials must be both set or both absent.
pub open spec fn spec_clickhouse_mismatch(c: ConnectionConfig) -> bool {
    match c {
        ConnectionConfig::ClickHouse { user, password, .. } => (user is Some) != (password is Some),
        _ => false,
    }
}

/// The configuration errors that depend on the configuration alone, not on
/// what is on disk: no solver defined, an unresolved ingestor or solver or
/// test-set reference, a glob with nothing to walk, a zero timeout, or
/// half-set ClickHouse credentials.
pub open spec fn spec_pure_preflight_error(c: SolverConfig) -> bool {
    ||| c.solvers@.len() == 0
    ||| spec_any_missing_ingest(c.solvers@, c.ingest@)
    ||| spec_any_bad_grouped_ref(c.tests@)
    ||| spec_any_empty_glob(c.tests@)
    ||| spec_any_zero_timeout(c.tests@)
    ||| spec_any_unknown_solver(c.tests@, c.solvers@)
    ||| spec_clickhouse_mismatch(c.database.connection)
}

/// The filesystem modes preflight consulted, in order: one slot per
/// configured ingestor (filled for the exec ones, which have an executable
/// to probe), one per solver executable, and one for a file-backed database
/// path.
pub ghost struct PreflightProbes {
    pub ingest_modes: Seq<Option<Option<u32>>>,
    pub solver_modes: Seq<Option<u32>>,
    pub db_mode: Option<Option<u32>>,
}

/// Some probed ingestor executable fails the executable check.
pub open spec fn spec_ingest_probe_failure(modes: Seq<Option<Option<u32>>>) -> bool {
    exists|j: int|
        0 <= j < modes.len() && (#[trigger] modes[j]) is Some && spec_executable_problem(
            modes[j].unwrap(),
        )
}

/// Some probed solver executable fails the executable check.
pub open spec fn spec_solver_probe_failure(modes: Seq<Option<u32>>) -> bool {
    exists|j: int| 0 <= j < modes.len() && spec_executable_problem(#[trigger] modes[j])
}

/// Whether any consulted mode fails its check: an executable probe finding
/// no executable file, or a database path that exists but is no regular
/// file.
pub open spec fn spec_probe_failure(p: PreflightProbes) -> bool {
    ||| spec_ingest_probe_failure(p.ingest_modes)
    ||| spec_solver_probe_failure(p.solver_modes)
    ||| p.db_mode is Some && spec_db_path_problem(p.db_mode.unwrap())
}

/// One more ingestor probe fails the grown record exactly when it failed the
/// record before, or the new mode itself fails.
proof fn lemma_ingest_probe_push(s: Seq<Option<Option<u32>>>, x: Option<Option<u32>>)
    ensures
        spec_ingest_probe_failure(s.push(x)) == (spec_ingest_probe_failure(s) || (x is Some
            && spec_executable_problem(x.unwrap()))),
{
    if spec_ingest_probe_failure(s) {
        let j = choose|j: int|
            0 <= j < s.len() && (#[trigger] s[j]) is Some && spec_executable_problem(s[j].unwrap());
        assert(s.push(x)[j] == s[j]);
    }
    if x is Some && spec_executable_problem(x.unwrap()) {
        assert(s.push(x)[s.len() as int] == x);
    }
    if spec_ingest_probe_failure(s.push(x)) {
        let j = choose|j: int|
            0 <= j < s.push(x).len() && (#[trigger] s.push(x)[j]) is Some
                && spec_executable_problem(s.push(x)[j].unwrap());
        if j < s.len() {
            assert(s[j] == s.push(x)[j]);
        } else {
            assert(s.push(x)[j] == x);
        }
    }
}

/// One more solver probe fails the grown record exactly when it failed the
/// record before, or the new mode itself fails.
proof fn lemma_solver_probe_push(s: Seq<Option<u32>>, x: Option<u32>)
    ensures
        spec_solver_probe_failure(s.push(x)) == (spec_solver_probe_failure(s)
            || spec_executable_problem(x)),
{
    if spec_solver_probe_failure(s) {
        let j = choose|j: int| 0 <= j < s.len() && spec_executable_problem(#[trigger] s[j]);
        assert(s.push(x)[j] == s[j]);
    }
    if spec_executable_problem(x) {
        assert(s.push(x)[s.len() as int] == x);
    }
    if spec_solver_probe_failure(s.push(x)) {
        let j = choose|j: int|
            0 <= j < s.push(x).len() && spec_executable_problem(#[trigger] s.push(x)[j]);
        if j < s.len() {
            assert(s[j] == s.push(x)[j]);
        } else {
            assert(s.push(x)[j] == x);
        }
    }
}

/// Whether the executor configuration asks for the distributed filesystem
/// mode, in which every host writes its own store.
pub open spec fn spec_fs_sync(e: ExecutorConfig) -> bool {
    match e {
        ExecutorConfig::Distributed { synchronization } => synchronization is FileSystem,
        _ => false,
    }
}

/// How preflight makes one database path host specific: the file name gains
/// a host prefix (on the default store name where the path has none), or the
/// path stays as it is because the host name could not be read.
pub open spec fn spec_db_host_specific(p_old: Seq<char>, p_new: Seq<char>) -> bool {
    p_new == p_old || exists|h: Seq<char>|
        p_new == crate::paths::dir_of(p_old) + h + crate::distributed::util::spec_db_file_name(
            p_old,
        )
}

/// How preflight treats the database connection in distributed filesystem
/// mode: a file-backed store's path is made host specific, anything else is
/// kept as it is.
pub open spec fn spec_connection_host_specific(
    c_old: ConnectionConfig,
    c_new: ConnectionConfig,
) -> bool {
    match c_old {
        ConnectionConfig::SQLite { path } => c_new matches ConnectionConfig::SQLite { path: p2 }
            && spec_db_host_specific(path@, p2@),
        ConnectionConfig::DuckDB { path } => c_new matches ConnectionConfig::DuckDB { path: p2 }
            && spec_db_host_specific(path@, p2@),
        ConnectionConfig::ClickHouse { .. } => c_new == c_old,
    }
}

/// Every glob collector among the test sets has a pattern that compiles; the
/// other collector kinds have nothing to compile.
pub open spec fn spec_all_globs_compile(tests: Seq<(String, TestSet)>) -> bool {
    forall|i: int|
        0 <= i < tests.len() ==> match (#[trigger] tests[i]).1.collector {
            CollectorConfig::Glob { glob, .. } => crate::collector::glob_compiles(glob@),
            _ => true,
        }
}

/// What loading one collector configuration yields: a glob collector whose
/// every path matches the configured glob; the GDB stub with nothing to
/// yield; an empty grouped collector awaiting resolution.
pub open spec fn spec_loaded_collector(
    config: CollectorConfig,
    loaded: crate::collector::Collector,
) -> bool {
    match config {
        CollectorConfig::Glob { glob, .. } => loaded is Glob && loaded.plain() && (forall|j: int|
            0 <= j < loaded.items().len() ==> crate::collector::glob_match(
                glob@,
                #[trigger] loaded.items()[j],
            )),
        CollectorConfig::Grouped { .. } => loaded is Grouped && loaded.grouped_children().len()
            == 0,
        CollectorConfig::GDB { .. } => loaded is GDB && loaded.items().len() == 0
            && loaded.size_spec() == 0,
    }
}

/// How preflight normalizes one collector configuration: a glob whose `path`
/// is set while `paths` is empty gets the path merged into the list; nothing
/// else changes.
pub open spec fn spec_collector_merged(c_old: CollectorConfig, c_new: CollectorConfig) -> bool {
    match c_old {
        CollectorConfig::Glob { paths, glob, path } => match c_new {
            CollectorConfig::Glob { paths: new_paths, glob: new_glob, path: new_path } => new_glob
                == glob && new_path == path && if paths@.len() == 0 && path is Some {
                new_paths.deep_view() == seq![path.unwrap()@]
            } else {
                new_paths == paths
            },
            _ => false,
        },
        _ => c_new == c_old,
    }
}

/// How preflight normalizes one test set: empty selected solvers fall back to
/// all defined solvers, the collector is merged, everything else is kept.
pub open spec fn spec_test_normalized(
    t_old: TestSet,
    t_new: TestSet,
    solver_keys: Seq<Seq<char>>,
) -> bool {
    &&& t_new.timeout == t_old.timeout
    &&& t_new.iterations == t_old.iterations
    &&& t_new.params == t_old.params
    &&& (t_old.solvers@.len() == 0 ==> t_new.solvers.deep_view() == solver_keys)
    &&& (t_old.solvers@.len() > 0 ==> t_new.solvers == t_old.solvers)
    &&& spec_collector_merged(t_old.collector, t_new.collector)
}

/// What loading one ingestor configuration yields: the null ingestor stays
/// null, an exec configuration becomes an exec ingestor with exactly the
/// configured executable, parameters and timeout.
pub open spec fn spec_loaded_ingestor(
    config: IngestorConfig,
    loaded: crate::ingest::Ingestors,
) -> bool {
    match config {
        IngestorConfig::Null => loaded is Null,
        IngestorConfig::Exec(c) => loaded matches crate::ingest::Ingestors::Exec(e) && e.ingestor@
            == c.executable@ && e.params@ == c.params@ && e.timeout == c.timeout,
    }
}

impl SolverConfig {
    /// Load every configured ingestor, keyed by name and in configuration
    /// order. Loading an ingestor cannot fail, so neither can this.
    #[verifier::loop_isolation(false)]
    pub fn load_ingestors(&self) -> (r: Result<crate::ingest::IngestorMap, ConfigErrors>)
        ensures
            r is Ok,
            r matches Ok(m) ==> m@.len() == self.ingest@.len() && (forall|i: int|
                0 <= i < m@.len() ==> (#[trigger] m@[i]).0@ == self.ingest@[i].0@
                    && spec_loaded_ingestor(self.ingest@[i].1, m@[i].1)),
    {
        let mut ingestors: crate::ingest::IngestorMap = Vec::new();
        let mut i: usize = 0;
        while i < self.ingest.len()
            invariant
                0 <= i <= self.ingest@.len(),
                ingestors@.len() == i,
                forall|j: int|
                    0 <= j < i ==> (#[trigger] ingestors@[j]).0@ == self.ingest@[j].0@
                        && spec_loaded_ingestor(self.ingest@[j].1, ingestors@[j].1),
            decreases self.ingest@.len() - i,
        {
            match crate::ingest::Ingestors::load(&self.ingest[i].1) {
                Ok(ingestor) => {
                    let name = self.ingest[i].0.clone();
                    ingestors.push((name, ingestor));
                },
                Err(_) => {
                    proof {
                        match self.ingest@[i as int].1 {
                            IngestorConfig::Null => {},
                            IngestorConfig::Exec(_) => {},
                        }
                        assert(false);
                    }
                    return Err(ConfigErrors::FailedLoadIngestor);
                },
            }
            i = i + 1;
        }
        Ok(ingestors)
    }

    /// Load one collector per test set, keyed by test-set name and in
    /// configuration order; the first failure names the set it came from.
    #[verifier::loop_isolation(false)]
    pub fn collectors(&mut self) -> (r: Result<
        crate::collector::CollectorMap,
        (String, ConfigErrors),
    >)
        requires
            forall|i: int|
                0 <= i < old(self).tests@.len() ==> ((#[trigger] old(self).tests@[i]).1.collector
                    matches CollectorConfig::Glob { paths, .. } ==> paths@.len() > 0),
        ensures
            *final(self) == *old(self),
            r is Ok <==> spec_all_globs_compile(old(self).tests@),
            r matches Err(p) ==> p.1 is InvalidGlobs,
            r matches Ok(m) ==> m@.len() == old(self).tests@.len() && (forall|i: int|
                0 <= i < m@.len() ==> (#[trigger] m@[i]).0@ == old(self).tests@[i].0@
                    && spec_loaded_collector(old(self).tests@[i].1.collector, m@[i].1)),
    {
        let mut collectors: crate::collector::CollectorMap = Vec::new();
        let mut i: usize = 0;
        while i < self.tests.len()
            invariant
                0 <= i <= self.tests@.len(),
                collectors@.len() == i,
                forall|j: int|
                    0 <= j < i ==> match (#[trigger] self.tests@[j]).1.collector {
                        CollectorConfig::Glob { glob, .. } => crate::collector::glob_compiles(
                            glob@,
                        ),
                        _ => true,
                    },
                forall|j: int|
                    0 <= j < i ==> (#[trigger] collectors@[j]).0@ == self.tests@[j].0@
                        && spec_loaded_collector(self.tests@[j].1.collector, collectors@[j].1),
            decreases self.tests@.len() - i,
        {
            match crate::collector::Collector::load(&self.tests[i].1.collector) {
                Ok(collector) => {
                    let name = self.tests[i].0.clone();
                    collectors.push((name, collector));
                },
                Err(e) => {
                    let name = self.tests[i].0.clone();
                    proof {
                        assert(!spec_all_globs_compile(self.tests@)) by {
                            assert(match self.tests@[i as int].1.collector {
                                CollectorConfig::Glob { glob, .. }
                                    => !crate::collector::glob_compiles(glob@),
                                _ => false,
                            });
                        }
                    }
                    return Err((name, e));
                },
            }
            i = i + 1;
        }
        Ok(collectors)
    }

    /// Validate and normalize the configuration before execution. All errors
    /// are accumulated so users see every problem at once; the result says
    /// whether any check failed: exactly when the configuration alone is bad,
    /// or one of the consulted filesystem modes — handed back as a ghost
    /// record — fails its check. Along the way, empty solver selections fall
    /// back to all solvers, a glob's lone `path` is merged into its empty
    /// `paths`, and in distributed filesystem mode the database path is made
    /// host specific.
    #[verifier::loop_isolation(false)]
    pub fn preflight_checks(&mut self) -> (r: (bool, Ghost<PreflightProbes>))
        ensures
            final(self).solvers == old(self).solvers,
            final(self).ingest == old(self).ingest,
            final(self).executor == old(self).executor,
            final(self).delayed == old(self).delayed,
            final(self).tests@.len() == old(self).tests@.len(),
            forall|i: int|
                0 <= i < old(self).tests@.len() ==> (#[trigger] final(self).tests@[i]).0 == old(
                    self,
                ).tests@[i].0 && spec_test_normalized(
                    old(self).tests@[i].1,
                    final(self).tests@[i].1,
                    spec_keys(old(self).solvers@),
                ),
            r.0 == (spec_pure_preflight_error(*old(self)) || spec_probe_failure(r.1@)),
            r.1@.ingest_modes.len() == old(self).ingest@.len(),
            forall|j: int|
                0 <= j < old(self).ingest@.len() ==> ((#[trigger] r.1@.ingest_modes[j]) is Some
                    <==> old(self).ingest@[j].1 is Exec),
            r.1@.solver_modes.len() == old(self).solvers@.len(),
            (r.1@.db_mode is Some) == !(final(self).database.connection is ClickHouse),
            !spec_fs_sync(old(self).executor) ==> final(self).database == old(self).database,
            spec_fs_sync(old(self).executor) ==> final(self).database.delayed == old(
                self,
            ).database.delayed && final(self).database.batched == old(self).database.batched
                && spec_connection_host_specific(
                old(self).database.connection,
                final(self).database.connection,
            ),
    {
        // the checks that depend on the configuration alone
        let clickhouse_mismatch = match &self.database.connection {
            ConnectionConfig::ClickHouse { user, password, .. } => user.is_some()
                != password.is_some(),
            _ => false,
        };
        let pure_error = self.solvers.len() == 0 || any_missing_ingest(&self.solvers, &self.ingest)
            || any_bad_grouped_ref(&self.tests) || any_empty_glob(&self.tests) || any_zero_timeout(
            &self.tests,
        ) || any_unknown_solver(&self.tests, &self.solvers) || clickhouse_mismatch;
        proof {
            assert(pure_error == spec_pure_preflight_error(*old(self)));
        }
        let mut contains_error = pure_error;
        // every exec ingestor's executable must be an executable file
        let ghost mut ingest_modes: Seq<Option<Option<u32>>> = Seq::empty();
        let mut i: usize = 0;
        while i < self.ingest.len()
            invariant
                *self == *old(self),
                0 <= i <= self.ingest@.len(),
                ingest_modes.len() == i,
                forall|j: int|
                    0 <= j < i ==> ((#[trigger] ingest_modes[j]) is Some <==> old(
                        self,
                    ).ingest@[j].1 is Exec),
                contains_error == (pure_error || spec_ingest_probe_failure(ingest_modes)),
            decreases self.ingest@.len() - i,
        {
            let ghost pre = ingest_modes;
            match &self.ingest[i].1 {
                IngestorConfig::Exec(exec_config) => {
                    let mode = stat_mode(&exec_config.executable);
                    proof {
                        lemma_ingest_probe_push(ingest_modes, Some(mode));
                        ingest_modes = ingest_modes.push(Some(mode));
                    }
                    if executable_problem(mode) {
                        contains_error = true;
                    }
                },
                IngestorConfig::Null => {
                    proof {
                        lemma_ingest_probe_push(ingest_modes, None);
                        ingest_modes = ingest_modes.push(None);
                    }
                },
            }
            proof {
                assert forall|j: int| 0 <= j < i implies ingest_modes[j] == pre[j] by {}
            }
            i = i + 1;
        }
        // every solver's executable must be an executable file
        let ghost ingest_failed = contains_error;
        let ghost mut solver_modes: Seq<Option<u32>> = Seq::empty();
        let mut i: usize = 0;
        while i < self.solvers.len()
            invariant
                *self == *old(self),
                0 <= i <= self.solvers@.len(),
                solver_modes.len() == i,
                contains_error == (ingest_failed || spec_solver_probe_failure(solver_modes)),
            decreases self.solvers@.len() - i,
        {
            let mode = stat_mode(&self.solvers[i].1.exec_path);
            proof {
                lemma_solver_probe_push(solver_modes, mode);
                solver_modes = solver_modes.push(mode);
            }
            if executable_problem(mode) {
                contains_error = true;
            }
            i = i + 1;
        }
        // normalize: solver fallback and glob path merge
        let ghost tests0 = self.tests@;
        let ghost solver_keys = spec_keys(old(self).solvers@);
        let mut i: usize = 0;
        while i < self.tests.len()
            invariant
                0 <= i <= tests0.len(),
                self.tests@.len() == tests0.len(),
                self.solvers == old(self).solvers,
                self.ingest == old(self).ingest,
                self.executor == old(self).executor,
                self.delayed == old(self).delayed,
                self.database == old(self).database,
                forall|j: int| i <= j < tests0.len() ==> (#[trigger] self.tests@[j]) == tests0[j],
                pure_error ==> contains_error,
                forall|j: int|
                    0 <= j < i ==> (#[trigger] self.tests@[j]).0 == tests0[j].0
                        && spec_test_normalized(tests0[j].1, self.tests@[j].1, solver_keys),
            decreases tests0.len() - i,
        {
            if self.tests[i].1.solvers.len() == 0 {
                let names = key_names(&self.solvers);
                let entry = &mut self.tests[i];
                entry.1.solvers = names;
            }
            let entry = &mut self.tests[i];
            match &mut entry.1.collector {
                CollectorConfig::Glob { paths, path, .. } => {
                    if paths.len() == 0 {
                        match path {
                            Some(p) => {
                                let merged = p.clone();
                                paths.push(merged);
                            },
                            None => {},
                        }
                    }
                },
                _ => {},
            }
            proof {
                let t_old = tests0[i as int].1;
                let t_new = self.tests@[i as int].1;
                match t_old.collector {
                    CollectorConfig::Glob { paths, glob, path } => {
                        if paths@.len() == 0 && path is Some {
                            match t_new.collector {
                                CollectorConfig::Glob { paths: np, .. } => {
                                    assert(np.deep_view() =~= seq![path.unwrap()@]);
                                },
                                _ => {},
                            }
                        }
                    },
                    _ => {},
                }
            }
            i = i + 1;
        }
        // distributed filesystem mode writes one store per host
        let fs_mode = match &self.executor {
            ExecutorConfig::Distributed { synchronization } => match synchronization {
                crate::distributed::SynchronizationTypes::FileSystem { .. } => true,
                _ => false,
            },
            _ => false,
        };
        if fs_mode {
            match &mut self.database.connection {
                ConnectionConfig::SQLite { path } => {
                    let _ = crate::distributed::util::prepend_hostname(path);
                },
                ConnectionConfig::DuckDB { path } => {
                    let _ = crate::distributed::util::prepend_hostname(path);
                },
                _ => {},
            }
        }
        // the database path must be a regular file or absent
        let ghost executables_failed = contains_error;
        let ghost mut db_mode: Option<Option<u32>> = None;
        match &self.database.connection {
            ConnectionConfig::SQLite { path } => {
                let mode = stat_mode(path);
                proof {
                    db_mode = Some(mode);
                }
                if db_path_problem(mode) {
                    contains_error = true;
                }
            },
            ConnectionConfig::DuckDB { path } => {
                let mode = stat_mode(path);
                proof {
                    db_mode = Some(mode);
                }
                if db_path_problem(mode) {
                    contains_error = true;
                }
            },
            ConnectionConfig::ClickHouse { .. } => {},
        }
        let ghost probes = PreflightProbes { ingest_modes, solver_modes, db_mode };
        proof {
            assert(contains_error == (spec_pure_preflight_error(*old(self)) || spec_probe_failure(
                probes,
            )));
        }
        (contains_error, Ghost(probes))
    }
}

} // verus!
