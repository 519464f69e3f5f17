use satan_runner::collector::{Collector, PathValue};

fn create_file(path: &str) {
    // an SQLite connection creates the file at the given path
    let conn = rusqlite::Connection::open(path).unwrap();
    conn.execute_batch("create table if not exists t (x integer);").unwrap();
    conn.close().unwrap();
}

fn on_disk(path: &str) -> bool {
    nix::sys::stat::stat(std::path::Path::new(path)).is_ok()
}

fn unique_stamp() -> u128 {
    std::time::SystemTime::now()
        .duration_since(std::time::UNIX_EPOCH)
        .unwrap()
        .as_nanos()
}

fn fresh_inputs(tag: &str, stamp: u128, n: usize) -> Vec<String> {
    let mut paths = Vec::new();
    for i in 0..n {
        let p = format!("/tmp/satan_claim_{tag}_{stamp}_{i}.cnf");
        create_file(&p);
        paths.push(p);
    }
    paths
}

fn drain_claims(c: &mut Collector) -> Vec<String> {
    let mut claimed = Vec::new();
    while let Some(pv) = c.next() {
        claimed.push(pv.path().clone());
    }
    claimed
}

#[test]
fn claiming_renames_to_the_processing_prefix() {
    let stamp = unique_stamp();
    let paths = fresh_inputs("single", stamp, 1);
    let mut fs = Collector::fs(Collector::Glob { paths: paths.clone() });
    let pv = fs.next().unwrap();
    let claimed = pv.path().clone();
    assert_eq!(claimed, format!("/tmp/[processing]_satan_claim_single_{stamp}_0.cnf"));
    // while the receipt is alive the on-disk name carries the processing prefix
    assert!(on_disk(&claimed));
    assert!(!on_disk(&paths[0]));
    // releasing renames to the done prefix in the same directory
    match pv {
        PathValue::Wrapped(w) => w.release().0.unwrap(),
        PathValue::Buf(_) => panic!("a filesystem collector yields receipts"),
    }
    let done = format!("/tmp/[done]_satan_claim_single_{stamp}_0.cnf");
    assert!(on_disk(&done));
    assert!(!on_disk(&claimed));
    // a rescan skips files already in the done state
    let mut rescan = Collector::fs(Collector::Glob { paths: vec![done] });
    assert!(rescan.next().is_none());
}

#[test]
fn two_racers_split_the_work_without_overlap() {
    // two runners share ten files; every file is claimed by exactly one
    let paths = fresh_inputs("race", unique_stamp(), 10);
    let mut first = Collector::fs(Collector::Glob { paths: paths.clone() });
    let mut second = Collector::fs(Collector::Glob { paths: paths.clone() });

    let mut from_first = Vec::new();
    let mut from_second = Vec::new();
    loop {
        let a = first.next();
        let b = second.next();
        if let Some(pv) = &a {
            from_first.push(pv.path().clone());
        }
        if let Some(pv) = &b {
            from_second.push(pv.path().clone());
        }
        if a.is_none() && b.is_none() {
            break;
        }
    }

    // union of the two claim sets covers all ten files ...
    assert_eq!(from_first.len() + from_second.len(), 10);
    // ... and the intersection is empty
    for p in &from_first {
        assert!(!from_second.contains(p));
    }
    let mut all: Vec<String> = from_first.iter().chain(from_second.iter()).cloned().collect();
    all.sort();
    all.dedup();
    assert_eq!(all.len(), 10);
}

#[test]
fn vanished_files_are_skipped_silently() {
    let stamp = unique_stamp();
    let missing = vec![
        format!("/tmp/satan_claim_missing_{stamp}_0.cnf"),
        format!("/tmp/satan_claim_missing_{stamp}_1.cnf"),
    ];
    let mut fs = Collector::fs(Collector::Glob { paths: missing });
    assert!(fs.next().is_none());
}

#[test]
fn claim_sequences_consume_the_inner_collector() {
    let paths = fresh_inputs("drain", unique_stamp(), 3);
    let mut fs = Collector::fs(Collector::Glob { paths });
    let claimed = drain_claims(&mut fs);
    assert_eq!(claimed.len(), 3);
    assert!(fs.next().is_none());
}
