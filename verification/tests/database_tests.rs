use satan_runner::config::{
    BatchConfig, CollectorConfig, ConnectionConfig, DatabaseConfig, ExecutorConfig,
    IngestorConfig, Solver, SolverConfig, TestSet, TracingConfig,
};
use satan_runner::database::batched::BatchedConnection;
use satan_runner::database::delayed::DelayedConnection;
use satan_runner::database::{
    encode_runtime, ConnectionAdapter, ConnectionError, Satisfiability, TestMetrics,
};

fn small_config(db: ConnectionConfig, batched: Option<BatchConfig>, delayed: bool) -> SolverConfig {
    SolverConfig {
        executor: ExecutorConfig::Local { threads: 1, pinned: false },
        solvers: vec![(
            "minisat".to_string(),
            Solver {
                exec_path: "/bin/sh".to_string(),
                params: vec!["-q".to_string()],
                ingest: "null".to_string(),
            },
        )],
        tests: vec![(
            "basic".to_string(),
            TestSet {
                timeout: 1000,
                collector: CollectorConfig::Glob {
                    paths: vec!["/tmp".to_string()],
                    glob: "*.cnf".to_string(),
                    path: None,
                },
                iterations: 1,
                solvers: vec!["minisat".to_string()],
                params: vec![],
            },
        )],
        ingest: vec![("null".to_string(), IngestorConfig::Null)],
        database: DatabaseConfig { delayed, batched, connection: db },
        delayed: false,
        tracing: TracingConfig::Stdio,
    }
}

fn memory_db() -> DatabaseConfig {
    DatabaseConfig {
        delayed: false,
        batched: None,
        connection: ConnectionConfig::SQLite { path: ":memory:".to_string() },
    }
}

fn metrics(runtime: u64) -> TestMetrics {
    TestMetrics {
        runtime,
        satisfiable: Satisfiability::Satisfiable,
        parse_time: 2,
        memory_usage: 3,
        restarts: 4,
        conflicts: 5,
        propagations: 6,
        conflict_literals: 7,
        number_of_variables: 8,
        number_of_clauses: 9,
    }
}

fn count_rows(adapter: &mut ConnectionAdapter) -> i64 {
    match adapter {
        ConnectionAdapter::SQLite(shared) => shared.0.count_runs().unwrap(),
        _ => panic!("not a direct adapter"),
    }
}

#[test]
fn runtime_zero_encodes_as_null() {
    assert_eq!(encode_runtime(0), None);
    assert_eq!(encode_runtime(17), Some(17));
}

#[test]
fn failed_metrics_are_all_zero_and_unknown() {
    let m = TestMetrics::failed();
    assert_eq!(m.runtime, 0);
    assert_eq!(m.satisfiable, Satisfiability::Unknown);
    assert_eq!(m.parse_time, 0);
    assert_eq!(m.memory_usage, 0);
    assert_eq!(m.number_of_clauses, 0);
}

#[test]
fn satisfiability_codes() {
    assert_eq!(Satisfiability::Unsatisfiable.code(), -1);
    assert_eq!(Satisfiability::Unknown.code(), 0);
    assert_eq!(Satisfiability::Satisfiable.code(), 1);
}

#[test]
fn direct_adapter_stores_rows() {
    let config = small_config(
        ConnectionConfig::SQLite { path: ":memory:".to_string() },
        None,
        false,
    );
    let mut adapter = ConnectionAdapter::load_connection(&memory_db()).unwrap();
    adapter.init(&config, None, Some("direct test".to_string())).unwrap();
    let target = "/tmp/a.cnf".to_string();
    let id1 = adapter
        .store(metrics(0), "minisat".to_string(), "basic".to_string(), &target)
        .unwrap();
    let id2 = adapter
        .store(metrics(1500), "minisat".to_string(), "basic".to_string(), &target)
        .unwrap();
    assert_ne!(id1, id2);
    assert_eq!(count_rows(&mut adapter), 2);
    let (closed, _ledger) = adapter.close();
    closed.unwrap();
}

#[test]
fn unsupported_backends_are_refused() {
    let cfg = DatabaseConfig {
        delayed: false,
        batched: None,
        connection: ConnectionConfig::DuckDB { path: ":memory:".to_string() },
    };
    match ConnectionAdapter::load_connection(&cfg) {
        Err(ConnectionError::ConfigError) => {},
        _ => panic!("the DuckDB backend is not served by this build"),
    }
}

#[test]
fn load_composes_the_configured_wrappers() {
    let mut delayed_cfg = memory_db();
    delayed_cfg.delayed = true;
    match ConnectionAdapter::load(&delayed_cfg).unwrap() {
        ConnectionAdapter::Delayed(_) => {},
        _ => panic!("delayed configuration must produce the delayed wrapper"),
    }

    let mut batched_cfg = memory_db();
    batched_cfg.batched = Some(BatchConfig { size: 4, timeout: None });
    match ConnectionAdapter::load(&batched_cfg).unwrap() {
        ConnectionAdapter::Batched(b) => assert_eq!(b.buffered(), 0),
        _ => panic!("batched configuration must produce the batched wrapper"),
    }

    match ConnectionAdapter::load(&memory_db()).unwrap() {
        ConnectionAdapter::SQLite(_) => {},
        _ => panic!("plain configuration must produce the direct adapter"),
    }
}

fn unique_db_path(tag: &str) -> String {
    let stamp = std::time::SystemTime::now()
        .duration_since(std::time::UNIX_EPOCH)
        .unwrap()
        .as_nanos();
    format!("/tmp/satan_runner_{tag}_{stamp}.db")
}

#[test]
fn batched_adapter_flushes_full_batches_and_the_residue_at_close() {
    let path = unique_db_path("batched");
    let db = DatabaseConfig {
        delayed: false,
        batched: Some(BatchConfig { size: 4, timeout: None }),
        connection: ConnectionConfig::SQLite { path: path.clone() },
    };
    let config = small_config(clone_conn(&db.connection), None, false);
    let inner = ConnectionAdapter::load_connection(&db).unwrap();
    let mut batched = BatchedConnection::load(&BatchConfig { size: 4, timeout: None }, inner);
    batched.init(&config, None, None).unwrap();

    let target = "/tmp/a.cnf".to_string();
    let mut expected = [1usize, 2, 3, 0, 1, 2, 3, 0, 1, 2].iter();
    for i in 0..10u64 {
        let id = batched
            .store(metrics(i + 1), "minisat".to_string(), "basic".to_string(), &target)
            .unwrap();
        assert_eq!(id, i64::MIN);
        // two full batches drain during the run, the residue stays buffered
        assert_eq!(batched.buffered(), *expected.next().unwrap());
    }
    let (closed, _ledger) = batched.close();
    closed.unwrap();

    // every accepted bundle was inserted: 4 + 4 + the residual 2
    let mut reopened = ConnectionAdapter::load_connection(&db).unwrap();
    assert_eq!(count_rows(&mut reopened), 10);
}

#[test]
fn bulk_flush_encodes_a_zero_runtime_as_null() {
    // a failure bundle flushed through a buffering wrapper lands with a NULL
    // runtime, exactly as a direct store would encode it
    let path = unique_db_path("bulk_null");
    let db = DatabaseConfig {
        delayed: true,
        batched: None,
        connection: ConnectionConfig::SQLite { path: path.clone() },
    };
    let config = small_config(clone_conn(&db.connection), None, true);
    let inner = ConnectionAdapter::load_connection(&db).unwrap();
    let mut delayed = DelayedConnection::load(inner);
    delayed.init(&config, None, None).unwrap();

    let target = "/tmp/a.cnf".to_string();
    delayed
        .store(metrics(0), "minisat".to_string(), "basic".to_string(), &target)
        .unwrap();
    delayed
        .store(metrics(42), "minisat".to_string(), "basic".to_string(), &target)
        .unwrap();
    let (closed, _ledger) = delayed.close();
    closed.unwrap();

    let raw = rusqlite::Connection::open(&path).unwrap();
    let nulls: i64 = raw
        .query_row("select count(*) from runs where runtime is null", [], |r| r.get(0))
        .unwrap();
    let kept: i64 = raw
        .query_row("select count(*) from runs where runtime = 42", [], |r| r.get(0))
        .unwrap();
    assert_eq!(nulls, 1);
    assert_eq!(kept, 1);
}

#[test]
fn delayed_adapter_buffers_everything_until_close() {
    let path = unique_db_path("delayed");
    let db = DatabaseConfig {
        delayed: true,
        batched: None,
        connection: ConnectionConfig::SQLite { path: path.clone() },
    };
    let config = small_config(clone_conn(&db.connection), None, true);
    let inner = ConnectionAdapter::load_connection(&db).unwrap();
    let mut delayed = DelayedConnection::load(inner);
    delayed.init(&config, None, None).unwrap();

    let target = "/tmp/a.cnf".to_string();
    for i in 0..5u64 {
        delayed
            .store(metrics(i), "minisat".to_string(), "basic".to_string(), &target)
            .unwrap();
        assert_eq!(delayed.buffered() as u64, i + 1);
    }
    let (closed, _ledger) = delayed.close();
    closed.unwrap();

    let mut reopened = ConnectionAdapter::load_connection(&db).unwrap();
    assert_eq!(count_rows(&mut reopened), 5);
}

#[test]
fn init_reuses_matching_rows_on_a_second_run() {
    let path = unique_db_path("reuse");
    let db = DatabaseConfig {
        delayed: false,
        batched: None,
        connection: ConnectionConfig::SQLite { path: path.clone() },
    };
    let config = small_config(clone_conn(&db.connection), None, false);

    let mut first = ConnectionAdapter::load_connection(&db).unwrap();
    first.init(&config, None, None).unwrap();
    let ids_first = match &first {
        ConnectionAdapter::SQLite(shared) => shared.0.solvers.clone(),
        _ => panic!("not a direct adapter"),
    };
    let (closed, _) = first.close();
    closed.unwrap();

    let mut second = ConnectionAdapter::load_connection(&db).unwrap();
    second.init(&config, None, None).unwrap();
    let ids_second = match &second {
        ConnectionAdapter::SQLite(shared) => shared.0.solvers.clone(),
        _ => panic!("not a direct adapter"),
    };
    // the id assigned at the first init is reused verbatim
    assert_eq!(ids_first, ids_second);
}

fn clone_conn(c: &ConnectionConfig) -> ConnectionConfig {
    match c {
        ConnectionConfig::SQLite { path } => ConnectionConfig::SQLite { path: path.clone() },
        ConnectionConfig::DuckDB { path } => ConnectionConfig::DuckDB { path: path.clone() },
        ConnectionConfig::ClickHouse { .. } => panic!("not needed here"),
    }
}
