use satan_runner::database::{Satisfiability, TestMetrics};
use satan_runner::ingest::metrics_doc::{parse_metrics, parse_sat, parse_u32, parse_u64, split_lines};

fn valid_doc() -> String {
    [
        "runtime: 1500",
        "satisfiable: 1",
        "parse_time: 12",
        "memory_usage: 4096",
        "restarts: 3",
        "conflicts: 17",
        "propagations: 99",
        "conflict_literals: 5",
        "number_of_variables: 100",
        "number_of_clauses: 420",
        "",
    ]
    .join("\n")
}

#[test]
fn parses_a_full_metrics_document() {
    let m = parse_metrics(valid_doc().as_str()).unwrap();
    let expected = TestMetrics {
        runtime: 1500,
        satisfiable: Satisfiability::Satisfiable,
        parse_time: 12,
        memory_usage: 4096,
        restarts: 3,
        conflicts: 17,
        propagations: 99,
        conflict_literals: 5,
        number_of_variables: 100,
        number_of_clauses: 420,
    };
    assert_eq!(m, expected);
}

#[test]
fn key_order_does_not_matter() {
    let doc = [
        "number_of_clauses: 420",
        "number_of_variables: 100",
        "conflict_literals: 5",
        "propagations: 99",
        "conflicts: 17",
        "restarts: 3",
        "memory_usage: 4096",
        "parse_time: 12",
        "satisfiable: -1",
        "runtime: 1500",
    ]
    .join("\n");
    let m = parse_metrics(doc.as_str()).unwrap();
    assert_eq!(m.satisfiable, Satisfiability::Unsatisfiable);
    assert_eq!(m.runtime, 1500);
}

#[test]
fn garbage_is_rejected() {
    // a bad ingestor prints non-parseable text: every such record is lost
    assert!(parse_metrics("some random chatter").is_none());
    assert!(parse_metrics("").is_none());
}

#[test]
fn missing_and_unknown_and_duplicate_keys_are_rejected() {
    let missing = valid_doc().replace("parse_time: 12\n", "");
    assert!(parse_metrics(missing.as_str()).is_none());

    let unknown = format!("{}\nwall_clock: 9", valid_doc().trim_end());
    assert!(parse_metrics(unknown.as_str()).is_none());

    let duplicate = format!("{}\nruntime: 2", valid_doc().trim_end());
    assert!(parse_metrics(duplicate.as_str()).is_none());
}

#[test]
fn malformed_lines_and_bad_values_are_rejected() {
    let no_separator = valid_doc().replace("restarts: 3", "restarts 3");
    assert!(parse_metrics(no_separator.as_str()).is_none());

    let negative_counter = valid_doc().replace("restarts: 3", "restarts: -3");
    assert!(parse_metrics(negative_counter.as_str()).is_none());

    let bad_verdict = valid_doc().replace("satisfiable: 1", "satisfiable: 2");
    assert!(parse_metrics(bad_verdict.as_str()).is_none());
}

#[test]
fn satisfiable_is_the_integer_trichotomy() {
    assert_eq!(parse_sat("-1"), Some(Satisfiability::Unsatisfiable));
    assert_eq!(parse_sat("0"), Some(Satisfiability::Unknown));
    assert_eq!(parse_sat("1"), Some(Satisfiability::Satisfiable));
    assert_eq!(parse_sat("2"), None);
    assert_eq!(parse_sat(""), None);
}

#[test]
fn decimal_parsing_bounds() {
    assert_eq!(parse_u64("0"), Some(0));
    assert_eq!(parse_u64("18446744073709551615"), Some(u64::MAX));
    assert_eq!(parse_u64("18446744073709551616"), None);
    assert_eq!(parse_u64("12x"), None);
    assert_eq!(parse_u64(""), None);
    assert_eq!(parse_u32("4294967295"), Some(u32::MAX));
    assert_eq!(parse_u32("4294967296"), None);
}

#[test]
fn line_splitting() {
    assert_eq!(split_lines(""), Vec::<String>::new());
    assert_eq!(split_lines("a"), vec!["a".to_string()]);
    assert_eq!(split_lines("a\nb\n"), vec!["a".to_string(), "b".to_string()]);
    assert_eq!(split_lines("a\n\nb"), vec!["a".to_string(), "".to_string(), "b".to_string()]);
}
