use satan_runner::collector::{filter_matching, resolve_grouped, Collector, PathValue};
use satan_runner::config::CollectorConfig;

fn glob_of(paths: &[&str]) -> Collector {
    Collector::Glob { paths: paths.iter().map(|p| p.to_string()).collect() }
}

fn drain(c: &mut Collector) -> Vec<String> {
    let mut out = Vec::new();
    while let Some(pv) = c.next() {
        out.push(pv.path().clone());
    }
    out
}

#[test]
fn glob_collector_yields_back_to_front_exactly_once() {
    let mut c = glob_of(&["a.cnf", "b.cnf", "c.cnf"]);
    assert_eq!(drain(&mut c), vec!["c.cnf", "b.cnf", "a.cnf"]);
    assert_eq!(c.next().map(|p| p.path().clone()), None);
}

#[test]
fn size_hints_are_exact() {
    let glob = glob_of(&["a", "b"]);
    assert_eq!(glob.size_hint(), (2, Some(2)));
    let gdb = Collector::GDB { paths: Vec::new() };
    assert_eq!(gdb.size_hint(), (0, Some(0)));
    let grouped = Collector::Grouped { collectors: vec![glob_of(&["a", "b"]), glob_of(&["c"])] };
    assert_eq!(grouped.size_hint(), (3, Some(3)));
    let fs = Collector::fs(glob_of(&["a", "b", "c", "d"]));
    assert_eq!(fs.size_hint(), (4, Some(4)));
}

#[test]
fn grouped_yields_first_child_then_second() {
    // a grouped collector over B and C yields B's items in order, then C's
    let b = glob_of(&["b2", "b1"]);
    let c = glob_of(&["c1"]);
    let mut grouped = Collector::Grouped { collectors: vec![b, c] };
    assert_eq!(drain(&mut grouped), vec!["b1", "b2", "c1"]);
}

#[test]
fn join_flattens_to_one_grouped_level() {
    let a = glob_of(&["a"]);
    let b = glob_of(&["b"]);
    let c = glob_of(&["c"]);
    let ab = a.join(b);
    match &ab {
        Collector::Grouped { collectors } => assert_eq!(collectors.len(), 2),
        _ => panic!("join must produce a grouped collector"),
    }
    let ab_c = ab.join(c);
    match &ab_c {
        Collector::Grouped { collectors } => assert_eq!(collectors.len(), 3),
        _ => panic!("join must produce a grouped collector"),
    }
}

#[test]
fn join_is_associative_at_the_flat_level() {
    let flat = |c: &Collector| match c {
        Collector::Grouped { collectors } => collectors.len(),
        _ => 1,
    };
    let mk = || (glob_of(&["a"]), glob_of(&["b1", "b2"]), glob_of(&["c"]));

    let (a, b, c) = mk();
    let left = a.join(b).join(c);
    let (a, b, c) = mk();
    let right = a.join(b.join(c));
    assert_eq!(flat(&left), flat(&right));
    assert_eq!(flat(&left), 3);
}

#[test]
fn join_absorbs_existing_grouped_children() {
    let grouped = Collector::Grouped { collectors: vec![glob_of(&["a"]), glob_of(&["b"])] };
    let single = glob_of(&["c"]);
    let joined = grouped.join(single);
    match &joined {
        Collector::Grouped { collectors } => assert_eq!(collectors.len(), 3),
        _ => panic!("join must produce a grouped collector"),
    }
}

#[test]
fn saturating_size_hint_matches_the_exact_one() {
    let glob = glob_of(&["a", "b"]);
    assert_eq!(glob.size_hint_saturating(), glob.size_hint().0);
    let grouped = Collector::Grouped {
        collectors: vec![glob_of(&["a"]), glob_of(&["b", "c"]), Collector::GDB { paths: vec![] }],
    };
    assert_eq!(grouped.size_hint_saturating(), 3);
    let fs = Collector::fs(glob_of(&["a", "b", "c", "d"]));
    assert_eq!(fs.size_hint_saturating(), 4);
}

#[test]
fn join_keeps_the_left_side_first() {
    // left non-grouped, right grouped: the left collector's items still come
    // out first
    let single = glob_of(&["a2", "a1"]);
    let grouped = Collector::Grouped { collectors: vec![glob_of(&["b1"]), glob_of(&["c1"])] };
    let mut joined = single.join(grouped);
    assert_eq!(drain(&mut joined), vec!["a1", "a2", "b1", "c1"]);

    // left grouped, right non-grouped
    let grouped = Collector::Grouped { collectors: vec![glob_of(&["b1"]), glob_of(&["c1"])] };
    let single = glob_of(&["a1"]);
    let mut joined = grouped.join(single);
    assert_eq!(drain(&mut joined), vec!["b1", "c1", "a1"]);

    // neither grouped
    let mut joined = glob_of(&["a1"]).join(glob_of(&["b1"]));
    assert_eq!(drain(&mut joined), vec!["a1", "b1"]);
}

fn test_set_with(collector: CollectorConfig) -> satan_runner::config::TestSet {
    satan_runner::config::TestSet {
        timeout: 1000,
        collector,
        iterations: 1,
        solvers: vec!["minisat".to_string()],
        params: Vec::new(),
    }
}

#[test]
fn resolve_grouped_yields_the_referenced_sets_in_order() {
    // set A is Grouped[B, C]: iterating A's resolved collector yields B's
    // items in order, then C's
    let tests = vec![
        (
            "A".to_string(),
            test_set_with(CollectorConfig::Grouped {
                collectors: vec!["B".to_string(), "C".to_string()],
            }),
        ),
        (
            "B".to_string(),
            test_set_with(CollectorConfig::Glob {
                paths: vec!["/tmp".to_string()],
                glob: "*".to_string(),
                path: None,
            }),
        ),
        (
            "C".to_string(),
            test_set_with(CollectorConfig::Glob {
                paths: vec!["/tmp".to_string()],
                glob: "*".to_string(),
                path: None,
            }),
        ),
    ];
    let map = vec![
        ("A".to_string(), Collector::Grouped { collectors: Vec::new() }),
        ("B".to_string(), glob_of(&["b2", "b1"])),
        ("C".to_string(), glob_of(&["c2", "c1"])),
    ];
    let resolved = resolve_grouped(&map, &tests);
    assert_eq!(resolved.len(), 3);
    assert_eq!(resolved[0].0, "A");
    let mut a = match resolved.into_iter().next().unwrap() {
        (_, c) => c,
    };
    assert_eq!(drain(&mut a), vec!["b1", "b2", "c1", "c2"]);
}

#[test]
fn resolve_grouped_keeps_plain_entries() {
    let tests = vec![(
        "B".to_string(),
        test_set_with(CollectorConfig::Glob {
            paths: vec!["/tmp".to_string()],
            glob: "*".to_string(),
            path: None,
        }),
    )];
    let map = vec![("B".to_string(), glob_of(&["b2", "b1"]))];
    let resolved = resolve_grouped(&map, &tests);
    assert_eq!(resolved.len(), 1);
    let mut b = resolved.into_iter().next().unwrap().1;
    assert_eq!(drain(&mut b), vec!["b1", "b2"]);
}

#[test]
fn glob_filter_keeps_only_matches() {
    let candidates = vec![
        "dir/a.cnf".to_string(),
        "dir/readme.txt".to_string(),
        "dir/b.cnf".to_string(),
    ];
    let kept = filter_matching("*.cnf", candidates).unwrap();
    assert_eq!(kept, vec!["dir/a.cnf".to_string(), "dir/b.cnf".to_string()]);
}

#[test]
fn invalid_glob_is_rejected() {
    let r = filter_matching("a{", vec!["a".to_string()]);
    assert!(r.is_err());
}

#[test]
fn load_gdb_and_grouped_start_empty() {
    let gdb = CollectorConfig::GDB { server: "http://db.example".to_string(), tmp_dir: None };
    let mut c = Collector::load(&gdb).unwrap();
    assert_eq!(c.size_hint(), (0, Some(0)));
    assert!(c.next().is_none());

    let grouped = CollectorConfig::Grouped { collectors: vec!["other".to_string()] };
    let c = Collector::load(&grouped).unwrap();
    match c {
        Collector::Grouped { collectors } => assert_eq!(collectors.len(), 0),
        _ => panic!("grouped configuration must load a grouped stub"),
    }
}

#[test]
fn load_glob_over_missing_directory_is_empty() {
    let cfg = CollectorConfig::Glob {
        paths: vec!["/nonexistent-satan-test-dir".to_string()],
        glob: "*.cnf".to_string(),
        path: None,
    };
    let mut c = Collector::load(&cfg).unwrap();
    assert!(c.next().is_none());
}

#[test]
fn fs_collector_skips_missing_files() {
    // every inner path is missing on disk, so every claim is skipped
    let mut fs = Collector::fs(glob_of(&["/nonexistent-satan-a.cnf", "/nonexistent-satan-b.cnf"]));
    assert!(fs.next().is_none());
}

#[test]
fn path_value_names_its_path() {
    let pv = PathValue::Buf("x.cnf".to_string());
    assert_eq!(pv.path(), "x.cnf");
}

fn unique_stamp() -> u128 {
    std::time::SystemTime::now()
        .duration_since(std::time::UNIX_EPOCH)
        .unwrap()
        .as_nanos()
}

fn create_file(path: &str) {
    // an SQLite connection creates the file at the given path
    let conn = rusqlite::Connection::open(path).unwrap();
    conn.execute_batch("create table if not exists t (x integer);").unwrap();
    conn.close().unwrap();
}

#[test]
fn glob_over_a_two_file_directory_yields_both_files() {
    // one glob collector over a directory holding two matching files
    let stamp = unique_stamp();
    let a = format!("/tmp/satan_glob_{stamp}_a.cnf");
    let b = format!("/tmp/satan_glob_{stamp}_b.cnf");
    create_file(&a);
    create_file(&b);
    let cfg = CollectorConfig::Glob {
        paths: vec!["/tmp".to_string()],
        glob: format!("*satan_glob_{stamp}_*.cnf"),
        path: None,
    };
    let mut c = Collector::load(&cfg).unwrap();
    let mut found = Vec::new();
    while let Some(pv) = c.next() {
        found.push(pv.path().clone());
    }
    found.sort();
    assert_eq!(found, vec![a, b]);
}
