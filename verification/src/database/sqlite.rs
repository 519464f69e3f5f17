use vstd::prelude::*;

use crate::config::{ConnectionConfig, SolverConfig, Solver, TestSet};
use crate::database::util::{idmap_get, idmap_insert, idmap_lookup, lemma_idmap_push, IDMap};
use crate::database::{
    encode_runtime, ConnectionError, MetricsBundle, RunRow, TestMetrics,
};
use crate::paths::str_eq;

verus! {

#[verifier::external_type_specification]
#[verifier::external_body]
pub struct ExConnection(rusqlite::Connection);

/// The schema applied idempotently at init.
pub const SQL_SCHEMA: &'static str = "
create table if not exists benchmarks (
    id integer primary key,
    comment text
);
create table if not exists test_sets (
    id integer primary key,
    timeout uinteger not null,
    name text not null,
    params text not null
);
create table if not exists solvers (
    id integer primary key,
    name text not null,
    exec text not null,
    params text not null,
    ingest text not null
);
create table if not exists runs (
    id integer primary key,
    runtime ubigint,
    parse_time ubigint not null,
    satisfiable tinyint not null,
    memory_usage uinteger not null,
    restarts uinteger not null,
    conflicts uinteger not null,
    propagations uinteger not null,
    conflict_literals uinteger not null,
    number_of_variables uinteger not null,
    number_of_clauses uinteger not null,
    target string not null,
    solver integer not null references solvers (id),
    test integer not null references test_sets (id),
    benchmark integer not null references benchmarks (id)
);
";

/// The SQLite backend. The ghost fields model the run rows this handle has
/// given to the database: `rows` those inserted outside of or committed by a
/// transaction, `pending` those inserted inside the transaction that is still
/// open when `in_tx` holds.
pub struct InnerConnection {
    pub connection: rusqlite::Connection,
    pub solvers: IDMap,
    pub test_sets: IDMap,
    pub benchmark: i32,
    pub rows: Ghost<Seq<RunRow>>,
    pub pending: Ghost<Seq<RunRow>>,
    pub in_tx: Ghost<bool>,
}

impl InnerConnection {
    /// The run rows this handle has given to the database so far, committed
    /// or still inside an open transaction, in insertion order.
    pub open spec fn handed_over(self) -> Seq<RunRow> {
        self.rows@ + self.pending@
    }

    /// Open the database file named by an SQLite connection configuration.
    ///
    /// Relies on rusqlite::Connection::open.
    #[verifier::external_body]
    fn open_connection(path: &String) -> Result<rusqlite::Connection, rusqlite::Error> {
        rusqlite::Connection::open(std::path::Path::new(path.as_str()))
    }

    /// Apply the schema; creating the tables leaves existing rows alone.
    ///
    /// Relies on rusqlite::Connection::execute_batch.
    #[verifier::external_body]
    fn apply_schema(&mut self) -> (r: Result<(), rusqlite::Error>)
        ensures
            final(self).rows@ == old(self).rows@,
            final(self).pending@ == old(self).pending@,
            final(self).in_tx@ == old(self).in_tx@,
            final(self).solvers@ == old(self).solvers@,
            final(self).test_sets@ == old(self).test_sets@,
            final(self).benchmark == old(self).benchmark,
    {
        self.connection.execute_batch(SQL_SCHEMA)
    }

    /// Open a transaction. SQLite refuses a nested BEGIN, so success implies
    /// no transaction was open.
    ///
    /// Relies on rusqlite::Connection::execute with BEGIN.
    #[verifier::external_body]
    fn begin_tx(&mut self) -> (r: Result<(), rusqlite::Error>)
        ensures
            final(self).rows@ == old(self).rows@,
            final(self).solvers@ == old(self).solvers@,
            final(self).test_sets@ == old(self).test_sets@,
            final(self).benchmark == old(self).benchmark,
            r is Ok ==> old(self).in_tx@ == false && final(self).in_tx@ == true && final(self).pending@ == old(self).pending@,
            r is Err ==> final(self).in_tx@ == old(self).in_tx@ && final(self).pending@ == old(self).pending@,
    {
        self.connection.execute("BEGIN", []).map(|_| ())
    }

    /// Commit the open transaction: what was pending becomes durable, in
    /// order. On an error nothing becomes durable, but the database may have
    /// rolled the transaction back by itself (SQLite does so for certain
    /// commit failures), discarding the pending rows and closing the
    /// transaction; or the transaction survives untouched.
    ///
    /// Relies on rusqlite::Connection::execute with COMMIT.
    #[verifier::external_body]
    fn commit_tx(&mut self) -> (r: Result<(), rusqlite::Error>)
        ensures
            final(self).solvers@ == old(self).solvers@,
            final(self).test_sets@ == old(self).test_sets@,
            final(self).benchmark == old(self).benchmark,
            r is Ok ==> final(self).rows@ == old(self).rows@ + old(self).pending@ && final(self).pending@ == Seq::<RunRow>::empty() && final(self).in_tx@ == false,
            r is Err ==> final(self).rows@ == old(self).rows@ && ((final(self).pending@ == old(self).pending@ && final(self).in_tx@ == old(self).in_tx@) || (final(self).pending@ == Seq::<RunRow>::empty() && final(self).in_tx@ == false)),
    {
        self.connection.execute("COMMIT", []).map(|_| ())
    }

    /// Abort the open transaction: what was pending is discarded and nothing
    /// becomes durable. A failed ROLLBACK either left everything as it was,
    /// or found that the database had already rolled the transaction back by
    /// itself (after an earlier statement error), in which case the pending
    /// rows are gone and the transaction is closed.
    ///
    /// Relies on rusqlite::Connection::execute with ROLLBACK.
    #[verifier::external_body]
    fn rollback_tx(&mut self) -> (r: Result<(), rusqlite::Error>)
        ensures
            final(self).rows@ == old(self).rows@,
            final(self).solvers@ == old(self).solvers@,
            final(self).test_sets@ == old(self).test_sets@,
            final(self).benchmark == old(self).benchmark,
            r is Ok ==> final(self).pending@ == Seq::<RunRow>::empty() && final(self).in_tx@
                == false,
            r is Err ==> (final(self).pending@ == old(self).pending@ && final(self).in_tx@ == old(self).in_tx@) || (final(self).pending@ == Seq::<RunRow>::empty() && final(self).in_tx@ == false),
    {
        self.connection.execute("ROLLBACK", []).map(|_| ())
    }

    /// Insert one run row; on success exactly this row was handed to the
    /// database, joining the open transaction when there is one, and the
    /// returned id is the row's 64-bit rowid (reading it as such cannot
    /// fail). The unsigned counters bind through rusqlite's fallible u64
    /// conversion, so an unrepresentable value errors before anything runs.
    /// A failed insert inserts nothing, but an error inside a transaction
    /// may have made the database roll the whole transaction back by itself,
    /// discarding the pending rows and closing the transaction.
    ///
    /// Relies on rusqlite::Connection::query_row on an INSERT .. RETURNING
    /// statement, prepared through rusqlite::Connection::prepare_cached.
    #[verifier::external_body]
    fn insert_run_raw(&mut self, row: &RunRow) -> (r: Result<i64, rusqlite::Error>)
        ensures
            final(self).solvers@ == old(self).solvers@,
            final(self).test_sets@ == old(self).test_sets@,
            final(self).benchmark == old(self).benchmark,
            r is Ok ==> final(self).in_tx@ == old(self).in_tx@ && (if old(self).in_tx@ {
                final(self).pending@ == old(self).pending@.push(*row) && final(self).rows@ == old(self).rows@
            } else {
                final(self).rows@ == old(self).rows@.push(*row) && final(self).pending@ == old(self).pending@
            }),
            r is Err ==> final(self).rows@ == old(self).rows@ && ((final(self).pending@ == old(self).pending@ && final(self).in_tx@ == old(self).in_tx@) || (final(self).pending@ == Seq::<RunRow>::empty() && final(self).in_tx@ == false)),
    {
        let mut stmt = self.connection.prepare_cached(
            "insert into runs (runtime, parse_time, satisfiable, memory_usage, restarts, \
             conflicts, propagations, conflict_literals, number_of_variables, \
             number_of_clauses, target, solver, test, benchmark) \
             values (?, ?, ?, ?, ?, ?, ?, ?, ?, ?, ?, ?, ?, ?) returning id",
        )?;
        stmt.query_row(
            (row.runtime, row.parse_time, row.satisfiable,
             row.memory_usage, row.restarts, row.conflicts, row.propagations,
             row.conflict_literals, row.number_of_variables, row.number_of_clauses,
             row.target.as_str(), row.solver, row.test, row.benchmark),
            |r| r.get(0),
        )
    }

    /// The solver rows stored under a name: id, exec, params, ingest. A read,
    /// so the run-row model is untouched.
    ///
    /// Relies on rusqlite::Statement::query_map on a SELECT, prepared through
    /// rusqlite::Connection::prepare_cached.
    #[verifier::external_body]
    fn query_solver_rows(&mut self, name: &String) -> (r: Result<
        Vec<(i32, String, String, String)>,
        rusqlite::Error,
    >)
        ensures
            *final(self) == *old(self),
    {
        let mut stmt = self.connection.prepare_cached(
            "select id, exec, params, ingest from solvers where name = ?",
        )?;
        let rows = stmt.query_map((name.as_str(),), |row| {
            Ok((row.get(0)?, row.get(1)?, row.get(2)?, row.get(3)?))
        })?;
        rows.collect()
    }

    /// The test-set rows stored under a name: id, timeout, params. A read, so
    /// the run-row model is untouched.
    ///
    /// Relies on rusqlite::Statement::query_map on a SELECT, prepared through
    /// rusqlite::Connection::prepare_cached.
    #[verifier::external_body]
    fn query_test_set_rows(&mut self, name: &String) -> (r: Result<
        Vec<(i32, u32, String)>,
        rusqlite::Error,
    >)
        ensures
            *final(self) == *old(self),
    {
        let mut stmt = self.connection.prepare_cached(
            "select id, timeout, params from test_sets where name = ?",
        )?;
        let rows = stmt.query_map((name.as_str(),), |row| {
            Ok((row.get(0)?, row.get(1)?, row.get(2)?))
        })?;
        rows.collect()
    }

    /// Insert a solver row and return its assigned id. Touches the solvers
    /// table only, so the run-row model is untouched.
    ///
    /// Relies on rusqlite::Connection::query_row on an INSERT .. RETURNING
    /// statement, prepared through rusqlite::Connection::prepare_cached.
    #[verifier::external_body]
    fn insert_solver_row(
        &mut self,
        name: &String,
        exec: &String,
        params: &String,
        ingest: &String,
    ) -> (r: Result<i32, rusqlite::Error>)
        ensures
            final(self).rows@ == old(self).rows@,
            final(self).pending@ == old(self).pending@,
            final(self).in_tx@ == old(self).in_tx@,
            final(self).solvers@ == old(self).solvers@,
            final(self).test_sets@ == old(self).test_sets@,
            final(self).benchmark == old(self).benchmark,
    {
        let mut stmt = self.connection.prepare_cached(
            "insert into solvers (name, exec, params, ingest) values (?, ?, ?, ?) returning id",
        )?;
        stmt.query_row(
            (name.as_str(), exec.as_str(), params.as_str(), ingest.as_str()),
            |r| r.get(0),
        )
    }

    /// Insert a test-set row and return its assigned id. Touches the
    /// test_sets table only, so the run-row model is untouched.
    ///
    /// Relies on rusqlite::Connection::query_row on an INSERT .. RETURNING
    /// statement, prepared through rusqlite::Connection::prepare_cached.
    #[verifier::external_body]
    fn insert_test_set_row(&mut self, timeout: u32, name: &String, params: &String) -> (r: Result<
        i32,
        rusqlite::Error,
    >)
        ensures
            final(self).rows@ == old(self).rows@,
            final(self).pending@ == old(self).pending@,
            final(self).in_tx@ == old(self).in_tx@,
            final(self).solvers@ == old(self).solvers@,
            final(self).test_sets@ == old(self).test_sets@,
            final(self).benchmark == old(self).benchmark,
    {
        let mut stmt = self.connection.prepare_cached(
            "insert into test_sets (timeout, name, params) values (?, ?, ?) returning id",
        )?;
        stmt.query_row((timeout, name.as_str(), params.as_str()), |r| r.get(0))
    }

    /// Insert a benchmark row and return its assigned id. Touches the
    /// benchmarks table only, so the run-row model is untouched.
    ///
    /// Relies on rusqlite::Connection::query_row on an INSERT .. RETURNING
    /// statement, prepared through rusqlite::Connection::prepare_cached.
    #[verifier::external_body]
    fn insert_benchmark_row(&mut self, comment: &String) -> (r: Result<i32, rusqlite::Error>)
        ensures
            final(self).rows@ == old(self).rows@,
            final(self).pending@ == old(self).pending@,
            final(self).in_tx@ == old(self).in_tx@,
            final(self).solvers@ == old(self).solvers@,
            final(self).test_sets@ == old(self).test_sets@,
            final(self).benchmark == old(self).benchmark,
    {
        let mut stmt = self.connection.prepare_cached(
            "insert into benchmarks (comment) values (?) returning id",
        )?;
        stmt.query_row((comment.as_str(),), |r| r.get(0))
    }

    /// How many rows the runs table holds now; what the disk holds is not
    /// modeled, so nothing is promised of the count.
    ///
    /// Relies on rusqlite::Connection::query_row on a SELECT COUNT.
    #[verifier::external_body]
    fn count_runs_raw(&mut self) -> (r: Result<i64, rusqlite::Error>)
        ensures
            *final(self) == *old(self),
    {
        self.connection.query_row("select count(*) from runs", [], |row| row.get(0))
    }

    /// Close the raw connection; on failure the connection is handed back for
    /// a retry.
    ///
    /// Relies on rusqlite::Connection::close.
    #[verifier::external_body]
    fn close_connection(c: rusqlite::Connection) -> Result<
        (),
        (rusqlite::Connection, rusqlite::Error),
    > {
        c.close()
    }
}

/// The id of the first stored solver row matching a solver's exec, joined
/// params and ingest reference.
pub open spec fn spec_find_solver(
    rows: Seq<(i32, String, String, String)>,
    exec: Seq<char>,
    params: Seq<char>,
    ingest: Seq<char>,
) -> Option<i32>
    decreases rows.len(),
{
    if rows.len() == 0 {
        None
    } else if rows[0].1@ == exec && rows[0].2@ == params && rows[0].3@ == ingest {
        Some(rows[0].0)
    } else {
        spec_find_solver(rows.drop_first(), exec, params, ingest)
    }
}

/// The id of the first stored test-set row matching a set's timeout and
/// joined params.
pub open spec fn spec_find_test_set(rows: Seq<(i32, u32, String)>, timeout: u32, params: Seq<char>) -> Option<
    i32,
>
    decreases rows.len(),
{
    if rows.len() == 0 {
        None
    } else if rows[0].1 == timeout && rows[0].2@ == params {
        Some(rows[0].0)
    } else {
        spec_find_test_set(rows.drop_first(), timeout, params)
    }
}

/// A stored solver row is reused exactly when exec, params and ingest match.
#[verifier::loop_isolation(false)]
pub fn find_matching_solver(
    rows: &Vec<(i32, String, String, String)>,
    exec: &String,
    params: &String,
    ingest: &String,
) -> (r: Option<i32>)
    ensures
        r == spec_find_solver(rows@, exec@, params@, ingest@),
{
    assert(rows@.skip(0) =~= rows@);
    let mut i: usize = 0;
    while i < rows.len()
        invariant
            0 <= i <= rows@.len(),
            spec_find_solver(rows@, exec@, params@, ingest@) == spec_find_solver(
                rows@.skip(i as int),
                exec@,
                params@,
                ingest@,
            ),
        decreases rows@.len() - i,
    {
        proof {
            assert(rows@.skip(i as int)[0] == rows@[i as int]);
            assert(rows@.skip(i as int).drop_first() =~= rows@.skip(i as int + 1));
        }
        if str_eq(rows[i].1.as_str(), exec.as_str()) && str_eq(rows[i].2.as_str(), params.as_str())
            && str_eq(rows[i].3.as_str(), ingest.as_str()) {
            return Some(rows[i].0);
        }
        i = i + 1;
    }
    proof {
        assert(rows@.skip(rows@.len() as int).len() == 0);
    }
    None
}

/// A stored test-set row is reused exactly when timeout and params match.
#[verifier::loop_isolation(false)]
pub fn find_matching_test_set(rows: &Vec<(i32, u32, String)>, timeout: u32, params: &String) -> (r:
    Option<i32>)
    ensures
        r == spec_find_test_set(rows@, timeout, params@),
{
    assert(rows@.skip(0) =~= rows@);
    let mut i: usize = 0;
    while i < rows.len()
        invariant
            0 <= i <= rows@.len(),
            spec_find_test_set(rows@, timeout, params@) == spec_find_test_set(
                rows@.skip(i as int),
                timeout,
                params@,
            ),
        decreases rows@.len() - i,
    {
        proof {
            assert(rows@.skip(i as int)[0] == rows@[i as int]);
            assert(rows@.skip(i as int).drop_first() =~= rows@.skip(i as int + 1));
        }
        if rows[i].1 == timeout && str_eq(rows[i].2.as_str(), params.as_str()) {
            return Some(rows[i].0);
        }
        i = i + 1;
    }
    proof {
        assert(rows@.skip(rows@.len() as int).len() == 0);
    }
    None
}

impl InnerConnection {
    /// No transaction open means nothing pending.
    pub open spec fn wf(self) -> bool {
        self.in_tx@ == false ==> self.pending@ == Seq::<RunRow>::empty()
    }

    /// Open a connection to the SQLite file the configuration names. The new
    /// handle has handed nothing over yet; its id maps are empty and its
    /// benchmark id is the unset sentinel.
    pub fn load(config: &ConnectionConfig) -> (r: Result<Self, ConnectionError>)
        requires
            config is SQLite,
        ensures
            r matches Ok(c) ==> c.wf() && c.handed_over() == Seq::<RunRow>::empty() && c.solvers@
                == Seq::<(String, i32)>::empty() && c.test_sets@ == Seq::<(String, i32)>::empty()
                && c.benchmark == i32::MIN && c.in_tx@ == false,
    {
        match config {
            ConnectionConfig::SQLite { path } => match Self::open_connection(path) {
                Ok(connection) => {
                    let c = InnerConnection {
                        connection,
                        solvers: Vec::new(),
                        test_sets: Vec::new(),
                        benchmark: i32::MIN,
                        rows: Ghost(Seq::empty()),
                        pending: Ghost(Seq::empty()),
                        in_tx: Ghost(false),
                    };
                    proof {
                        assert(c.handed_over() =~= Seq::<RunRow>::empty());
                    }
                    Ok(c)
                },
                Err(e) => Err(ConnectionError::SQLite(e)),
            },
            _ => Err(ConnectionError::ConfigError),
        }
    }

    /// Create a fresh benchmark row, with the comment or an empty one.
    fn new_benchmark(&mut self, comment: Option<String>) -> (r: Result<i32, ConnectionError>)
        ensures
            final(self).rows@ == old(self).rows@,
            final(self).pending@ == old(self).pending@,
            final(self).in_tx@ == old(self).in_tx@,
            final(self).solvers@ == old(self).solvers@,
            final(self).test_sets@ == old(self).test_sets@,
            final(self).benchmark == old(self).benchmark,
    {
        let c = match comment {
            Some(c) => c,
            None => String::new(),
        };
        match self.insert_benchmark_row(&c) {
            Ok(id) => Ok(id),
            Err(e) => Err(ConnectionError::SQLite(e)),
        }
    }

    /// Apply the schema, resolve the benchmark id, and register every solver
    /// and test set: an existing row is reused when its descriptor matches
    /// exactly, else a fresh row is inserted; the assigned ids are remembered
    /// under the configured names. No run row is handed over.
    #[verifier::loop_isolation(false)]
    pub fn init(
        &mut self,
        config: &SolverConfig,
        benchmark: Option<i32>,
        comment: Option<String>,
    ) -> (r: Result<(), ConnectionError>)
        ensures
            final(self).rows@ == old(self).rows@,
            final(self).pending@ == old(self).pending@,
            final(self).in_tx@ == old(self).in_tx@,
            r is Ok ==> forall|j: int|
                0 <= j < config.solvers@.len() ==> crate::database::util::idmap_contains(
                    final(self).solvers@,
                    (#[trigger] config.solvers@[j]).0@,
                ),
            r is Ok ==> forall|j: int|
                0 <= j < config.tests@.len() ==> crate::database::util::idmap_contains(
                    final(self).test_sets@,
                    (#[trigger] config.tests@[j]).0@,
                ),
            r is Ok ==> (benchmark matches Some(b) ==> final(self).benchmark == b),
    {
        match self.apply_schema() {
            Ok(()) => {},
            Err(e) => {
                return Err(ConnectionError::SQLite(e));
            },
        }
        match benchmark {
            Some(b) => {
                self.benchmark = b;
            },
            None => {
                let id = match self.new_benchmark(comment) {
                    Ok(id) => id,
                    Err(e) => {
                        return Err(e);
                    },
                };
                self.benchmark = id;
            },
        }
        let ghost rows0 = self.rows@;
        let ghost pending0 = self.pending@;
        let ghost intx0 = self.in_tx@;
        let ghost bench = self.benchmark;
        let mut i: usize = 0;
        while i < config.solvers.len()
            invariant
                0 <= i <= config.solvers@.len(),
                self.rows@ == rows0,
                self.pending@ == pending0,
                self.in_tx@ == intx0,
                self.benchmark == bench,
                forall|j: int|
                    0 <= j < i ==> crate::database::util::idmap_contains(
                        self.solvers@,
                        (#[trigger] config.solvers@[j]).0@,
                    ),
            decreases config.solvers@.len() - i,
        {
            let name = config.solvers[i].0.clone();
            let solver: &Solver = &config.solvers[i].1;
            let rows = match self.query_solver_rows(&name) {
                Ok(rows) => rows,
                Err(e) => {
                    return Err(ConnectionError::SQLite(e));
                },
            };
            let params = solver.get_params();
            let id = match find_matching_solver(&rows, &solver.exec_path, &params, &solver.ingest) {
                Some(id) => id,
                None => match self.insert_solver_row(&name, &solver.exec_path, &params, &solver.ingest) {
                    Ok(id) => id,
                    Err(e) => {
                        return Err(ConnectionError::SQLite(e));
                    },
                },
            };
            proof {
                lemma_idmap_push(self.solvers@, name, id);
            }
            idmap_insert(&mut self.solvers, name, id);
            i = i + 1;
        }
        let mut i: usize = 0;
        while i < config.tests.len()
            invariant
                0 <= i <= config.tests@.len(),
                self.rows@ == rows0,
                self.pending@ == pending0,
                self.in_tx@ == intx0,
                self.benchmark == bench,
                forall|j: int|
                    0 <= j < config.solvers@.len() ==> crate::database::util::idmap_contains(
                        self.solvers@,
                        (#[trigger] config.solvers@[j]).0@,
                    ),
                forall|j: int|
                    0 <= j < i ==> crate::database::util::idmap_contains(
                        self.test_sets@,
                        (#[trigger] config.tests@[j]).0@,
                    ),
            decreases config.tests@.len() - i,
        {
            let name = config.tests[i].0.clone();
            let set: &TestSet = &config.tests[i].1;
            let rows = match self.query_test_set_rows(&name) {
                Ok(rows) => rows,
                Err(e) => {
                    return Err(ConnectionError::SQLite(e));
                },
            };
            let params = set.get_params();
            let id = match find_matching_test_set(&rows, set.timeout, &params) {
                Some(id) => id,
                None => match self.insert_test_set_row(set.timeout, &name, &params) {
                    Ok(id) => id,
                    Err(e) => {
                        return Err(ConnectionError::SQLite(e));
                    },
                },
            };
            proof {
                lemma_idmap_push(self.test_sets@, name, id);
            }
            idmap_insert(&mut self.test_sets, name, id);
            i = i + 1;
        }
        Ok(())
    }

    /// Insert one run: the metrics with their context, the runtime encoded
    /// through the zero-is-NULL rule, under the ids resolved at init. On
    /// success exactly that row was handed to the database.
    pub fn store(
        &mut self,
        metrics: TestMetrics,
        solver: String,
        test_set: String,
        target: &String,
    ) -> (r: Result<i64, ConnectionError>)
        requires
            old(self).wf(),
            crate::database::util::idmap_contains(old(self).solvers@, solver@),
            crate::database::util::idmap_contains(old(self).test_sets@, test_set@),
        ensures
            final(self).wf(),
            final(self).solvers@ == old(self).solvers@,
            final(self).test_sets@ == old(self).test_sets@,
            final(self).benchmark == old(self).benchmark,
            r is Ok ==> final(self).in_tx@ == old(self).in_tx@,
            r is Ok ==> final(self).handed_over().len() == old(self).handed_over().len() + 1
                && final(self).handed_over().drop_last() == old(self).handed_over()
                && crate::database::spec_run_row(
                final(self).handed_over().last(),
                metrics,
                idmap_get(old(self).solvers@, solver@).unwrap(),
                idmap_get(old(self).test_sets@, test_set@).unwrap(),
                old(self).benchmark,
                target@,
            ),
            r is Err ==> final(self).rows@ == old(self).rows@ && ((final(self).pending@ == old(self).pending@ && final(self).in_tx@ == old(self).in_tx@) || (final(self).pending@ == Seq::<RunRow>::empty() && final(self).in_tx@ == false)),
    {
        let sid = match idmap_lookup(&self.solvers, &solver) {
            Some(id) => id,
            None => {
                proof {
                    assert(false);
                }
                return Err(ConnectionError::ConfigError);
            },
        };
        let tid = match idmap_lookup(&self.test_sets, &test_set) {
            Some(id) => id,
            None => {
                proof {
                    assert(false);
                }
                return Err(ConnectionError::ConfigError);
            },
        };
        let row = RunRow {
            runtime: encode_runtime(metrics.runtime),
            parse_time: metrics.parse_time,
            satisfiable: metrics.satisfiable.code(),
            memory_usage: metrics.memory_usage,
            restarts: metrics.restarts,
            conflicts: metrics.conflicts,
            propagations: metrics.propagations,
            conflict_literals: metrics.conflict_literals,
            number_of_variables: metrics.number_of_variables,
            number_of_clauses: metrics.number_of_clauses,
            target: target.clone(),
            solver: sid,
            test: tid,
            benchmark: self.benchmark,
        };
        match self.insert_run_raw(&row) {
            Ok(id) => {
                proof {
                    assert(final(self).handed_over() =~= old(self).handed_over().push(row));
                    assert(final(self).handed_over().drop_last() =~= old(self).handed_over());
                }
                Ok(id)
            },
            Err(e) => Err(ConnectionError::SQLite(e)),
        }
    }

    /// Bulk insert the bundles in one transaction, in order; on success every
    /// bundle became a committed row, on failure none did.
    #[verifier::loop_isolation(false)]
    pub fn store_iter(&mut self, metrics: Vec<MetricsBundle>) -> (r: Result<(), ConnectionError>)
        requires
            old(self).wf(),
            forall|j: int|
                0 <= j < metrics@.len() ==> crate::database::util::idmap_contains(
                    old(self).solvers@,
                    (#[trigger] metrics@[j]).solver@,
                ) && crate::database::util::idmap_contains(
                    old(self).test_sets@,
                    metrics@[j].test_set@,
                ),
        ensures
            final(self).wf(),
            final(self).solvers@ == old(self).solvers@,
            final(self).test_sets@ == old(self).test_sets@,
            final(self).benchmark == old(self).benchmark,
            r is Ok ==> old(self).in_tx@ == false && final(self).in_tx@ == false && final(self).pending@ == Seq::<RunRow>::empty(),
            r is Ok ==> final(self).rows@.len() == old(self).rows@.len() + metrics@.len() && final(self).rows@.take(old(self).rows@.len() as int) == old(self).rows@ && (forall|j: int|
                0 <= j < metrics@.len() ==> crate::database::spec_run_row(
                    final(self).rows@[old(self).rows@.len() + j],
                    (#[trigger] metrics@[j]).metrics,
                    idmap_get(old(self).solvers@, metrics@[j].solver@).unwrap(),
                    idmap_get(old(self).test_sets@, metrics@[j].test_set@).unwrap(),
                    old(self).benchmark,
                    metrics@[j].target@,
                )),
            r is Err ==> final(self).rows@ == old(self).rows@,
    {
        match self.begin_tx() {
            Ok(()) => {},
            Err(e) => {
                return Err(ConnectionError::SQLite(e));
            },
        }
        let ghost rows0 = self.rows@;
        let ghost solvers0 = self.solvers@;
        let ghost tests0 = self.test_sets@;
        let ghost bench = self.benchmark;
        let mut i: usize = 0;
        while i < metrics.len()
            invariant
                0 <= i <= metrics@.len(),
                self.in_tx@ == true,
                self.rows@ == rows0,
                self.solvers@ == solvers0,
                self.test_sets@ == tests0,
                self.benchmark == bench,
                self.pending@.len() == i,
                forall|j: int|
                    0 <= j < i ==> crate::database::spec_run_row(
                        self.pending@[j],
                        (#[trigger] metrics@[j]).metrics,
                        idmap_get(solvers0, metrics@[j].solver@).unwrap(),
                        idmap_get(tests0, metrics@[j].test_set@).unwrap(),
                        bench,
                        metrics@[j].target@,
                    ),
            decreases metrics@.len() - i,
        {
            let bundle = &metrics[i];
            let sid = match idmap_lookup(&self.solvers, &bundle.solver) {
                Some(id) => id,
                None => {
                    proof {
                        assert(false);
                    }
                    return Err(ConnectionError::ConfigError);
                },
            };
            let tid = match idmap_lookup(&self.test_sets, &bundle.test_set) {
                Some(id) => id,
                None => {
                    proof {
                        assert(false);
                    }
                    return Err(ConnectionError::ConfigError);
                },
            };
            let row = RunRow {
                runtime: encode_runtime(bundle.metrics.runtime),
                parse_time: bundle.metrics.parse_time,
                satisfiable: bundle.metrics.satisfiable.code(),
                memory_usage: bundle.metrics.memory_usage,
                restarts: bundle.metrics.restarts,
                conflicts: bundle.metrics.conflicts,
                propagations: bundle.metrics.propagations,
                conflict_literals: bundle.metrics.conflict_literals,
                number_of_variables: bundle.metrics.number_of_variables,
                number_of_clauses: bundle.metrics.number_of_clauses,
                target: bundle.target.clone(),
                solver: sid,
                test: tid,
                benchmark: self.benchmark,
            };
            match self.insert_run_raw(&row) {
                Ok(_) => {},
                Err(e) => {
                    let _rollback = self.rollback_tx();
                    return Err(ConnectionError::SQLite(e));
                },
            }
            i = i + 1;
        }
        match self.commit_tx() {
            Ok(()) => {
                proof {
                    assert(final(self).rows@.take(rows0.len() as int) =~= rows0);
                }
                Ok(())
            },
            Err(e) => {
                // the failed commit may have auto-rolled the transaction
                // back; roll back explicitly so the handle is clean either way
                let _rollback = self.rollback_tx();
                Err(ConnectionError::SQLite(e))
            },
        }
    }

    /// How many rows the runs table currently holds.
    pub fn count_runs(&mut self) -> (r: Result<i64, ConnectionError>)
        ensures
            *final(self) == *old(self),
    {
        match self.count_runs_raw() {
            Ok(n) => Ok(n),
            Err(e) => Err(ConnectionError::SQLite(e)),
        }
    }

    /// Release the underlying handle, retrying up to three times on close
    /// failures before surfacing the error. An open transaction is not
    /// committed: what this handle committed is exactly `self.rows`.
    pub fn close(self) -> (r: Result<(), ConnectionError>) {
        let InnerConnection { connection, .. } = self;
        let mut conn = connection;
        let mut counter: u32 = 0;
        loop
            invariant
                counter <= 2,
            decreases 3 - counter,
        {
            match Self::close_connection(conn) {
                Ok(()) => {
                    return Ok(());
                },
                Err((c, e)) => {
                    counter = counter + 1;
                    if counter == 3 {
                        return Err(ConnectionError::SQLite(e));
                    }
                    conn = c;
                },
            }
        }
    }
}

/// The SQLite adapter handle: one connection written to by one caller at a
/// time.
pub struct SharedConnection(pub InnerConnection);

impl SharedConnection {
    /// Wrap an opened connection.
    pub fn new(inner_connection: InnerConnection) -> (r: Self)
        ensures
            r.0 == inner_connection,
    {
        SharedConnection(inner_connection)
    }

    /// Open the SQLite store the configuration names.
    pub fn load(config: &ConnectionConfig) -> (r: Result<Self, ConnectionError>)
        requires
            config is SQLite,
        ensures
            r matches Ok(c) ==> c.0.wf() && c.0.handed_over() == Seq::<RunRow>::empty() && c.0.in_tx@
                == false && c.0.solvers@ == Seq::<(String, i32)>::empty() && c.0.test_sets@ == Seq::<
                (String, i32),
            >::empty() && c.0.benchmark == i32::MIN,
    {
        match InnerConnection::load(config) {
            Ok(inner) => Ok(Self::new(inner)),
            Err(e) => Err(e),
        }
    }

    /// See `InnerConnection::init`.
    pub fn init(
        &mut self,
        config: &SolverConfig,
        benchmark: Option<i32>,
        comment: Option<String>,
    ) -> (r: Result<(), ConnectionError>)
        ensures
            final(self).0.rows@ == old(self).0.rows@,
            final(self).0.pending@ == old(self).0.pending@,
            final(self).0.in_tx@ == old(self).0.in_tx@,
            r is Ok ==> forall|j: int|
                0 <= j < config.solvers@.len() ==> crate::database::util::idmap_contains(
                    final(self).0.solvers@,
                    (#[trigger] config.solvers@[j]).0@,
                ),
            r is Ok ==> forall|j: int|
                0 <= j < config.tests@.len() ==> crate::database::util::idmap_contains(
                    final(self).0.test_sets@,
                    (#[trigger] config.tests@[j]).0@,
                ),
            r is Ok ==> (benchmark matches Some(b) ==> final(self).0.benchmark == b),
    {
        self.0.init(config, benchmark, comment)
    }

    /// See `InnerConnection::close`.
    pub fn close(self) -> (r: Result<(), ConnectionError>) {
        self.0.close()
    }

    /// See `InnerConnection::store`.
    pub fn store(
        &mut self,
        metrics: TestMetrics,
        solver: String,
        test_set: String,
        target: &String,
    ) -> (r: Result<i64, ConnectionError>)
        requires
            old(self).0.wf(),
            crate::database::util::idmap_contains(old(self).0.solvers@, solver@),
            crate::database::util::idmap_contains(old(self).0.test_sets@, test_set@),
        ensures
            final(self).0.wf(),
            final(self).0.solvers@ == old(self).0.solvers@,
            final(self).0.test_sets@ == old(self).0.test_sets@,
            final(self).0.benchmark == old(self).0.benchmark,
            r is Ok ==> final(self).0.in_tx@ == old(self).0.in_tx@,
            r is Ok ==> final(self).0.handed_over().len() == old(self).0.handed_over().len() + 1
                && final(self).0.handed_over().drop_last() == old(self).0.handed_over()
                && crate::database::spec_run_row(
                final(self).0.handed_over().last(),
                metrics,
                idmap_get(old(self).0.solvers@, solver@).unwrap(),
                idmap_get(old(self).0.test_sets@, test_set@).unwrap(),
                old(self).0.benchmark,
                target@,
            ),
            r is Err ==> final(self).0.rows@ == old(self).0.rows@ && ((final(self).0.pending@ == old(self).0.pending@ && final(self).0.in_tx@ == old(self).0.in_tx@) || (final(self).0.pending@ == Seq::<RunRow>::empty() && final(self).0.in_tx@ == false)),
    {
        self.0.store(metrics, solver, test_set, target)
    }

    /// See `InnerConnection::store_iter`.
    pub fn store_iter(&mut self, metrics: Vec<MetricsBundle>) -> (r: Result<(), ConnectionError>)
        requires
            old(self).0.wf(),
            forall|j: int|
                0 <= j < metrics@.len() ==> crate::database::util::idmap_contains(
                    old(self).0.solvers@,
                    (#[trigger] metrics@[j]).solver@,
                ) && crate::database::util::idmap_contains(
                    old(self).0.test_sets@,
                    metrics@[j].test_set@,
                ),
        ensures
            final(self).0.wf(),
            final(self).0.solvers@ == old(self).0.solvers@,
            final(self).0.test_sets@ == old(self).0.test_sets@,
            final(self).0.benchmark == old(self).0.benchmark,
            r is Ok ==> old(self).0.in_tx@ == false && final(self).0.in_tx@ == false && final(self).0.pending@ == Seq::<RunRow>::empty(),
            r is Ok ==> final(self).0.rows@.len() == old(self).0.rows@.len() + metrics@.len()
                && final(self).0.rows@.take(old(self).0.rows@.len() as int) == old(self).0.rows@ && (
            forall|j: int|
                0 <= j < metrics@.len() ==> crate::database::spec_run_row(
                    final(self).0.rows@[old(self).0.rows@.len() + j],
                    (#[trigger] metrics@[j]).metrics,
                    idmap_get(old(self).0.solvers@, metrics@[j].solver@).unwrap(),
                    idmap_get(old(self).0.test_sets@, metrics@[j].test_set@).unwrap(),
                    old(self).0.benchmark,
                    metrics@[j].target@,
                )),
            r is Err ==> final(self).0.rows@ == old(self).0.rows@,
    {
        self.0.store_iter(metrics)
    }
}

} // verus!
