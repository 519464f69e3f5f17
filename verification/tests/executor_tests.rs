use satan_runner::config::{
    CollectorConfig, ConnectionConfig, DatabaseConfig, ExecIngestConfig, ExecutorConfig,
    IngestorConfig, Solver, SolverConfig, TestSet, TracingConfig,
};
use satan_runner::database::{ConnectionAdapter, Satisfiability, TestMetrics};
use satan_runner::distributed::SynchronizationTypes;
use satan_runner::collector::Collector;
use satan_runner::executors::local::{
    plan_runs, resolve_threads, set_run_total, solver_argv, LocalExecutor, RunEvent,
};
use satan_runner::executors::Executors;
use satan_runner::ingest::{ExternalOutcome, IngestStep, IngestorError, Ingestors, RunOutput};

fn config(executor: ExecutorConfig) -> SolverConfig {
    SolverConfig {
        executor,
        solvers: vec![(
            "minisat".to_string(),
            Solver {
                exec_path: "/bin/sh".to_string(),
                params: vec![],
                ingest: "null".to_string(),
            },
        )],
        tests: vec![(
            "basic".to_string(),
            TestSet {
                timeout: 50,
                collector: CollectorConfig::Glob {
                    paths: vec!["/tmp".to_string()],
                    glob: "*.cnf".to_string(),
                    path: None,
                },
                iterations: 1,
                solvers: vec!["minisat".to_string()],
                params: vec![],
            },
        )],
        ingest: vec![("null".to_string(), IngestorConfig::Null)],
        database: DatabaseConfig {
            delayed: false,
            batched: None,
            connection: ConnectionConfig::SQLite { path: ":memory:".to_string() },
        },
        delayed: false,
        tracing: TracingConfig::Stdio,
    }
}

fn loaded_executor() -> LocalExecutor {
    let cfg = config(ExecutorConfig::Local { threads: 1, pinned: false });
    let mut adapter = ConnectionAdapter::load(&cfg.database).unwrap();
    adapter.init(&cfg, None, None).unwrap();
    LocalExecutor::load(adapter, cfg, Vec::new(), Vec::new()).unwrap()
}

fn rows(executor: &mut LocalExecutor) -> i64 {
    match &mut executor.connection {
        ConnectionAdapter::SQLite(shared) => shared.0.count_runs().unwrap(),
        _ => panic!("not a direct adapter"),
    }
}

#[test]
fn zero_threads_fall_back_to_the_cpu_count() {
    assert_eq!(resolve_threads(0, 42), 42);
    assert_eq!(resolve_threads(8, 42), 8);
}

#[test]
fn zero_iterations_produce_no_runs() {
    assert_eq!(set_run_total(10, 3, 0), Some(0));
    assert_eq!(set_run_total(10, 3, 2), Some(60));
    assert_eq!(set_run_total(0, 3, 2), Some(0));
}

#[test]
fn timeout_records_a_failed_bundle() {
    // a killed run leaves one row: the failure bundle with the zero runtime
    // sentinel and an unknown verdict
    let mut executor = loaded_executor();
    let target = "/tmp/a.cnf".to_string();
    executor
        .record_timeout(&"basic".to_string(), &"minisat".to_string(), &target)
        .unwrap();
    assert_eq!(rows(&mut executor), 1);
    assert_eq!(executor.errors, 0);
}

#[test]
fn spawn_failure_counts_an_error_and_writes_nothing() {
    let mut executor = loaded_executor();
    executor.record_spawn_failure();
    assert_eq!(executor.errors, 1);
    assert_eq!(rows(&mut executor), 0);
}

#[test]
fn every_task_has_exactly_one_disposition() {
    let mut executor = loaded_executor();
    let target = "/tmp/a.cnf".to_string();
    let set = "basic".to_string();
    let solver = "minisat".to_string();

    // stored
    executor
        .record_ingest_result(Ok(TestMetrics::failed()), &set, &solver, &target)
        ;
    assert_eq!(rows(&mut executor), 1);
    assert_eq!(executor.errors, 0);

    // error counted, nothing stored
    executor.record_ingest_result(Err(IngestorError::DeserializeIngestor), &set, &solver, &target);
    assert_eq!(rows(&mut executor), 1);
    assert_eq!(executor.errors, 1);

    // timeout: failure bundle stored, no error counted
    executor.record_timeout(&set, &solver, &target).unwrap();
    assert_eq!(rows(&mut executor), 2);
    assert_eq!(executor.errors, 1);
}

#[test]
fn bad_ingestor_loses_every_row_and_counts_every_error() {
    // the ingestor prints non-parseable text: every row is lost and the error
    // counter equals the task total
    let mut executor = loaded_executor();
    let target = "/tmp/a.cnf".to_string();
    let set = "basic".to_string();
    let solver = "minisat".to_string();
    let ingestor = Ingestors::Null;
    let total_tasks: u64 = 3;
    for _ in 0..total_tasks {
        let mut output = RunOutput::new();
        output.stdout = "this is not a metrics document".to_string();
        match ingestor.ingest(output) {
            IngestStep::Done(result) => {
                executor.record_ingest_result(result, &set, &solver, &target)
            },
            IngestStep::RunExternal { .. } => panic!("the null ingestor never runs a process"),
        }
    }
    assert_eq!(executor.errors, total_tasks);
    assert_eq!(rows(&mut executor), 0);
}

#[test]
fn null_ingestor_parses_the_solver_output_directly() {
    let mut output = RunOutput::new();
    output.stdout = [
        "runtime: 7",
        "satisfiable: 0",
        "parse_time: 1",
        "memory_usage: 2",
        "restarts: 3",
        "conflicts: 4",
        "propagations: 5",
        "conflict_literals: 6",
        "number_of_variables: 7",
        "number_of_clauses: 8",
    ]
    .join("\n");
    match Ingestors::Null.ingest(output) {
        IngestStep::Done(Ok(m)) => {
            assert_eq!(m.runtime, 7);
            assert_eq!(m.satisfiable, Satisfiability::Unknown);
        },
        _ => panic!("a valid document must parse"),
    }
}

#[test]
fn exec_ingestor_requests_its_external_process() {
    let cfg = IngestorConfig::Exec(ExecIngestConfig {
        executable: "/bin/cat".to_string(),
        params: "-u".to_string(),
        timeout: 250,
    });
    let ingestor = Ingestors::load(&cfg).unwrap();
    let mut output = RunOutput::new();
    output.stdout = "solver says hi".to_string();
    match ingestor.ingest(output) {
        IngestStep::RunExternal { executable, params, stdin, timeout } => {
            assert_eq!(executable, "/bin/cat");
            assert_eq!(params, "-u");
            assert_eq!(stdin, "solver says hi");
            assert_eq!(timeout, 250);
        },
        IngestStep::Done(_) => panic!("the exec ingestor always runs its process"),
    }
}

#[test]
fn external_outcomes_map_to_their_errors() {
    assert!(matches!(
        Ingestors::finish(ExternalOutcome::SpawnFailed),
        Err(IngestorError::SpawnIngestor)
    ));
    assert!(matches!(
        Ingestors::finish(ExternalOutcome::TimedOut),
        Err(IngestorError::ChildTimeout)
    ));
    assert!(matches!(
        Ingestors::finish(ExternalOutcome::WaitFailed),
        Err(IngestorError::ChildError)
    ));
    assert!(matches!(
        Ingestors::finish(ExternalOutcome::Exited { stdout: "garbage".to_string() }),
        Err(IngestorError::DeserializeIngestor)
    ));
}

#[test]
fn plan_runs_walks_the_product_solver_major() {
    assert_eq!(
        plan_runs(2, 3).unwrap(),
        vec![(0, 0), (0, 1), (0, 2), (1, 0), (1, 1), (1, 2)]
    );
    assert_eq!(plan_runs(3, 1).unwrap(), vec![(0, 0), (1, 0), (2, 0)]);
}

#[test]
fn zero_iterations_plan_no_runs() {
    assert_eq!(plan_runs(5, 0).unwrap(), Vec::<(usize, usize)>::new());
    assert_eq!(plan_runs(0, 7).unwrap(), Vec::<(usize, usize)>::new());
}

#[test]
fn solver_argv_is_solver_params_then_set_params_then_target() {
    let solver = Solver {
        exec_path: "/bin/solver".to_string(),
        params: vec!["-a".to_string(), "-b".to_string()],
        ingest: "null".to_string(),
    };
    let set = TestSet {
        timeout: 100,
        collector: CollectorConfig::GDB { server: String::new(), tmp_dir: None },
        iterations: 1,
        solvers: vec![],
        params: vec!["-x".to_string()],
    };
    let target = "/tmp/a.cnf".to_string();
    assert_eq!(solver_argv(&solver, &set, &target), vec!["-a", "-b", "-x", "/tmp/a.cnf"]);
}

#[test]
fn every_run_event_has_exactly_one_disposition() {
    let mut executor = loaded_executor();
    let target = "/tmp/a.cnf".to_string();
    let set = "basic".to_string();
    let solver = "minisat".to_string();

    // a completed run with parsed metrics: stored, no error
    executor.record_run_event(
        RunEvent::Completed(Ok(TestMetrics::failed())),
        &set,
        &solver,
        &target,
    );
    assert_eq!(rows(&mut executor), 1);
    assert_eq!(executor.errors, 0);

    // a timeout: the failure bundle is stored, no error
    executor.record_run_event(RunEvent::TimedOut, &set, &solver, &target);
    assert_eq!(rows(&mut executor), 2);
    assert_eq!(executor.errors, 0);

    // a failed ingestion: nothing stored, one error
    executor.record_run_event(
        RunEvent::Completed(Err(IngestorError::DeserializeIngestor)),
        &set,
        &solver,
        &target,
    );
    assert_eq!(rows(&mut executor), 2);
    assert_eq!(executor.errors, 1);

    // a spawn failure and a wait failure: nothing stored, one error each
    executor.record_run_event(RunEvent::SpawnFailed, &set, &solver, &target);
    executor.record_run_event(RunEvent::WaitFailed, &set, &solver, &target);
    assert_eq!(rows(&mut executor), 2);
    assert_eq!(executor.errors, 3);
}

#[test]
fn execute_hands_the_local_engine_back_unchanged() {
    let cfg = config(ExecutorConfig::Local { threads: 1, pinned: false });
    let adapter = ConnectionAdapter::load(&cfg.database).unwrap();
    let collectors = vec![Collector::Glob { paths: vec!["a".to_string()] }];
    let executor = Executors::load(adapter, cfg, Vec::new(), collectors).unwrap();
    let engine = executor.execute().unwrap();
    assert_eq!(engine.collectors.len(), 1);
    assert!(matches!(engine.collectors[0], Collector::Glob { .. }));
}

#[test]
fn execute_wraps_collectors_for_the_filesystem_mode() {
    let cfg = config(ExecutorConfig::Distributed {
        synchronization: SynchronizationTypes::FileSystem { path: "/tmp".to_string() },
    });
    let adapter = ConnectionAdapter::load(&cfg.database).unwrap();
    let collectors = vec![Collector::Glob { paths: vec![] }];
    let executor = Executors::load(adapter, cfg, Vec::new(), collectors).unwrap();
    let engine = executor.execute().unwrap();
    assert_eq!(engine.collectors.len(), 1);
    assert!(matches!(engine.collectors[0], Collector::FS { .. }));
}

#[test]
fn execute_refuses_the_coordinated_mode() {
    let cfg = config(ExecutorConfig::Distributed {
        synchronization: SynchronizationTypes::Coordinated,
    });
    let adapter = ConnectionAdapter::load(&cfg.database).unwrap();
    let executor = Executors::load(adapter, cfg, Vec::new(), Vec::new()).unwrap();
    assert!(executor.execute().is_err());
}

#[test]
fn executors_load_dispatches_on_the_configuration() {
    let cfg = config(ExecutorConfig::Local { threads: 2, pinned: false });
    let adapter = ConnectionAdapter::load(&cfg.database).unwrap();
    match Executors::load(adapter, cfg, Vec::new(), Vec::new()).unwrap() {
        Executors::Local(_) => {},
        _ => panic!("a local configuration loads the local executor"),
    }

    let cfg = config(ExecutorConfig::Distributed {
        synchronization: SynchronizationTypes::FileSystem { path: "/tmp".to_string() },
    });
    let adapter = ConnectionAdapter::load(&cfg.database).unwrap();
    match Executors::load(adapter, cfg, Vec::new(), Vec::new()).unwrap() {
        Executors::Distributed(_) => {},
        _ => panic!("a distributed configuration loads the locking executor"),
    }
}
