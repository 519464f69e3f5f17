use satan_runner::distributed::fs::{done_path, done_prefix, processing_path, processing_prefix};
use satan_runner::distributed::util::{hostname, prepend_hostname, prepend_hostname_to, reprefix, strip_prefix};
use satan_runner::paths::{file_name, has_prefix, str_eq, with_file_name};

#[test]
pub fn reprefix_done() {
    let prefix = done_prefix();
    let file_name = String::from("test.cnf");
    let mut joined = done_prefix();
    joined.push_str(&file_name);

    let mut new_joined = processing_prefix();
    new_joined.push_str(&file_name);

    assert_eq!(reprefix(&joined, &prefix, processing_prefix()), new_joined);
    assert_eq!(file_name, strip_prefix(joined, prefix, String::new()));
}

#[test]
pub fn strip_prefix_done() {
    let file_name = String::from("[done]_aj;sdkjf.cnf");
    let prefix = done_prefix();

    assert_eq!(
        String::from("aj;sdkjf.cnf"),
        strip_prefix(file_name, prefix, String::new())
    );
}

#[test]
pub fn strip_prefix_processing() {
    let file_name = String::from("[processing]_aj;sdkjf.cnf");
    let prefix = processing_prefix();

    assert_eq!(
        String::from("aj;sdkjf.cnf"),
        strip_prefix(file_name, prefix, String::new())
    );
}

#[test]
fn file_name_splits_after_last_slash() {
    assert_eq!(file_name("/data/tests/a.cnf"), "a.cnf");
    assert_eq!(file_name("a.cnf"), "a.cnf");
    assert_eq!(file_name("/data/tests/"), "");
    assert_eq!(file_name(""), "");
}

#[test]
fn with_file_name_keeps_directory() {
    assert_eq!(with_file_name("/data/tests/a.cnf", "b.cnf"), "/data/tests/b.cnf");
    assert_eq!(with_file_name("a.cnf", "b.cnf"), "b.cnf");
}

#[test]
fn prefixes_and_claim_names() {
    assert_eq!(processing_prefix(), "[processing]_");
    assert_eq!(done_prefix(), "[done]_");
    // claiming prefixes the file name in the same directory
    assert_eq!(processing_path("/work/x.cnf"), "/work/[processing]_x.cnf");
    // releasing replaces the processing prefix with the done prefix
    assert_eq!(done_path("/work/[processing]_x.cnf"), "/work/[done]_x.cnf");
}

#[test]
fn prefix_tests() {
    assert!(has_prefix("[done]_x", "[done]_"));
    assert!(!has_prefix("[d1]_x", "[done]_"));
    assert!(!has_prefix("x", "[done]_"));
    assert!(has_prefix("anything", ""));
    assert!(str_eq("abc", "abc"));
    assert!(!str_eq("abc", "abd"));
}

#[test]
fn hostname_prepending_keeps_directory_and_name() {
    assert_eq!(prepend_hostname_to("/var/db/satan.db", "node1-"), "/var/db/node1-satan.db");
}

#[test]
fn hostname_prepending_falls_back_to_the_default_store_name() {
    let Some(host) = hostname() else {
        // without a readable host name the path must stay untouched
        let mut path = "/var/db/".to_string();
        assert!(prepend_hostname(&mut path).0.is_err());
        assert_eq!(path, "/var/db/");
        return;
    };
    let mut path = "/var/db/".to_string();
    prepend_hostname(&mut path).0.unwrap();
    assert_eq!(path, format!("/var/db/{host}satan.db"));

    let mut path = "/var/db/metrics.db".to_string();
    prepend_hostname(&mut path).0.unwrap();
    assert_eq!(path, format!("/var/db/{host}metrics.db"));
}
