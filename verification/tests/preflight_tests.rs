use satan_runner::config::{
    check_executable, default_batch_number, default_iter_number, CollectorConfig,
    ConnectionConfig, DatabaseConfig, ExecutorConfig, IngestorConfig, Solver, SolverConfig,
    TestSet, TracingConfig,
};

fn base_config() -> SolverConfig {
    SolverConfig {
        executor: ExecutorConfig::Local { threads: 2, pinned: false },
        solvers: vec![
            (
                "cadical".to_string(),
                Solver {
                    exec_path: "/bin/sh".to_string(),
                    params: vec![],
                    ingest: "null".to_string(),
                },
            ),
            (
                "minisat".to_string(),
                Solver {
                    exec_path: "/bin/sh".to_string(),
                    params: vec![],
                    ingest: "null".to_string(),
                },
            ),
        ],
        tests: vec![(
            "basic".to_string(),
            TestSet {
                timeout: 1000,
                collector: CollectorConfig::Glob {
                    paths: vec!["/tmp".to_string()],
                    glob: "*.cnf".to_string(),
                    path: None,
                },
                iterations: 1,
                solvers: vec!["minisat".to_string()],
                params: vec![],
            },
        )],
        ingest: vec![("null".to_string(), IngestorConfig::Null)],
        database: DatabaseConfig {
            delayed: false,
            batched: None,
            connection: ConnectionConfig::SQLite { path: "/tmp/satan-missing.db".to_string() },
        },
        delayed: false,
        tracing: TracingConfig::Stdio,
    }
}

#[test]
fn a_well_formed_config_passes_preflight() {
    let mut cfg = base_config();
    assert!(!cfg.preflight_checks().0);
}

#[test]
fn empty_solver_selection_falls_back_to_all_solvers() {
    let mut cfg = base_config();
    cfg.tests[0].1.solvers = vec![];
    assert!(!cfg.preflight_checks().0);
    assert_eq!(
        cfg.tests[0].1.solvers,
        vec!["cadical".to_string(), "minisat".to_string()]
    );
}

#[test]
fn a_nonempty_solver_selection_is_kept() {
    let mut cfg = base_config();
    assert!(!cfg.preflight_checks().0);
    assert_eq!(cfg.tests[0].1.solvers, vec!["minisat".to_string()]);
}

#[test]
fn a_lone_path_is_merged_into_the_path_list() {
    let mut cfg = base_config();
    cfg.tests[0].1.collector = CollectorConfig::Glob {
        paths: vec![],
        glob: "*.cnf".to_string(),
        path: Some("/tmp".to_string()),
    };
    assert!(!cfg.preflight_checks().0);
    match &cfg.tests[0].1.collector {
        CollectorConfig::Glob { paths, .. } => assert_eq!(paths, &vec!["/tmp".to_string()]),
        _ => panic!("the collector kind never changes"),
    }
}

#[test]
fn zero_timeout_is_rejected() {
    let mut cfg = base_config();
    cfg.tests[0].1.timeout = 0;
    assert!(cfg.preflight_checks().0);
}

#[test]
fn no_solvers_is_rejected() {
    let mut cfg = base_config();
    cfg.solvers = vec![];
    assert!(cfg.preflight_checks().0);
}

#[test]
fn unresolved_references_are_rejected() {
    let mut cfg = base_config();
    cfg.solvers[0].1.ingest = "nosuch".to_string();
    assert!(cfg.preflight_checks().0);

    let mut cfg = base_config();
    cfg.tests[0].1.solvers = vec!["nosuch".to_string()];
    assert!(cfg.preflight_checks().0);

    let mut cfg = base_config();
    cfg.tests[0].1.collector = CollectorConfig::Grouped { collectors: vec!["nosuch".to_string()] };
    assert!(cfg.preflight_checks().0);
}

#[test]
fn a_glob_without_any_path_is_rejected() {
    let mut cfg = base_config();
    cfg.tests[0].1.collector =
        CollectorConfig::Glob { paths: vec![], glob: "*.cnf".to_string(), path: None };
    assert!(cfg.preflight_checks().0);
}

#[test]
fn a_missing_solver_executable_is_rejected() {
    let mut cfg = base_config();
    cfg.solvers[0].1.exec_path = "/nonexistent-satan-solver".to_string();
    assert!(cfg.preflight_checks().0);
}

#[test]
fn half_set_clickhouse_credentials_are_rejected() {
    let mut cfg = base_config();
    cfg.database.connection = ConnectionConfig::ClickHouse {
        server: "http://ch.example".to_string(),
        database: "satan".to_string(),
        user: Some("bench".to_string()),
        password: None,
        connections: None,
        lz4: None,
        lz4hc: None,
    };
    assert!(cfg.preflight_checks().0);
}

#[test]
fn executable_check_consults_the_mode_bits() {
    assert!(!check_executable(&"/bin/sh".to_string()));
    assert!(check_executable(&"/nonexistent-satan-file".to_string()));
    // a directory is not an executable file
    assert!(check_executable(&"/tmp".to_string()));
}

#[test]
fn defaults() {
    assert_eq!(default_batch_number(), 100);
    assert_eq!(default_iter_number(), 1);
}

#[test]
fn params_join_with_single_spaces() {
    let solver = Solver {
        exec_path: "/bin/sh".to_string(),
        params: vec!["-a".to_string(), "-b".to_string(), "7".to_string()],
        ingest: "null".to_string(),
    };
    assert_eq!(solver.get_params(), "-a -b 7");
    let set = TestSet {
        timeout: 1,
        collector: CollectorConfig::GDB { server: "s".to_string(), tmp_dir: None },
        iterations: 1,
        solvers: vec![],
        params: vec![],
    };
    assert_eq!(set.get_params(), "");
}

#[test]
fn load_ingestors_loads_every_configured_ingestor() {
    let cfg = base_config();
    let ingestors = cfg.load_ingestors().unwrap();
    assert_eq!(ingestors.len(), 1);
    assert_eq!(ingestors[0].0, "null");
}

#[test]
fn collectors_load_one_collector_per_test_set() {
    let mut cfg = base_config();
    let collectors = cfg.collectors().unwrap();
    assert_eq!(collectors.len(), 1);
    assert_eq!(collectors[0].0, "basic");
}
