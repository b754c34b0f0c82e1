use std::path::PathBuf;
use ui_test::tally::{visit, Visit};
use ui_test::{Config, Error, Errors, Failure, Mode, OutputConflictHandling, Tally, TestPath};

fn config(filters: &[&str]) -> Config {
    Config {
        args: vec![],
        target: None,
        stderr_filters: vec![],
        stdout_filters: vec![],
        root_dir: PathBuf::from("tests"),
        mode: Mode::Pass,
        program: PathBuf::from("rustc"),
        output_conflict_handling: OutputConflictHandling::Error,
        path_filter: filters.iter().map(|f| f.to_string()).collect(),
    }
}

fn file(name: &str) -> TestPath {
    TestPath::new("tests/pass/".to_string(), "tests/pass".to_string(), name.to_string())
}

fn run(name: &str, errors: Errors) -> Failure {
    Failure {
        path: file(name),
        command: "rustc".to_string(),
        revision: String::new(),
        errors,
        stderr: String::new(),
    }
}

#[test]
fn directories_are_expanded() {
    assert_eq!(visit(true, None, &config(&[])), Visit::Expand);
    assert_eq!(visit(true, Some(&file("a.rs")), &config(&["x"])), Visit::Expand);
}

#[test]
fn only_source_files_are_tests() {
    assert_eq!(visit(false, Some(&file("a.rs")), &config(&[])), Visit::Inspect);
    assert_eq!(visit(false, Some(&file("a.stderr")), &config(&[])), Visit::Skip);
    assert_eq!(visit(false, Some(&file("rs")), &config(&[])), Visit::Skip);
    assert_eq!(visit(false, Some(&file(".rs")), &config(&[])), Visit::Skip);
    assert_eq!(visit(false, None, &config(&[])), Visit::Skip);
}

#[test]
fn filters_select_tests_by_their_path() {
    assert_eq!(visit(false, Some(&file("a.rs")), &config(&["pass/a"])), Visit::Inspect);
    assert_eq!(visit(false, Some(&file("a.rs")), &config(&["b", "a.rs"])), Visit::Inspect);
    assert_eq!(visit(false, Some(&file("a.rs")), &config(&["b"])), Visit::Filtered);
    assert_eq!(visit(false, Some(&file("a.txt")), &config(&["b"])), Visit::Skip);
}

#[test]
fn events_are_counted_once() {
    let mut tally = Tally::new();
    assert!(tally.is_ok());
    tally.count_filtered();
    tally.count_ignored();
    tally.count_ignored();
    assert!(tally.count_run(run("a.rs", vec![])));
    assert!(tally.is_ok());
    assert!(!tally.count_run(run("b.rs", vec![Error::NoPatternsFound])));
    assert!(!tally.count_run(run("c.rs", vec![Error::NoPatternsFound])));
    assert!(tally.count_run(run("d.rs", vec![])));
    assert!(!tally.is_ok());
    assert_eq!((tally.succeeded, tally.ignored, tally.filtered), (2, 2, 1));
    let names: Vec<&str> = tally.failures.iter().map(|f| f.path.file_name()).collect();
    assert_eq!(names, vec!["b.rs", "c.rs"]);
}

#[test]
fn counters_wrap_around() {
    let mut tally = Tally::new();
    tally.filtered = usize::MAX;
    tally.count_filtered();
    assert_eq!(tally.filtered, 0);
}

#[test]
fn the_order_of_events_does_not_matter() {
    let mut one = Tally::new();
    one.count_filtered();
    one.count_run(run("b.rs", vec![Error::NoPatternsFound]));
    one.count_run(run("a.rs", vec![]));
    one.count_ignored();
    one.count_run(run("c.rs", vec![Error::PatternFoundInPassTest]));
    let mut other = Tally::new();
    other.count_run(run("c.rs", vec![Error::PatternFoundInPassTest]));
    other.count_ignored();
    other.count_run(run("a.rs", vec![]));
    other.count_run(run("b.rs", vec![Error::NoPatternsFound]));
    other.count_filtered();
    let sum_up = |tally: &Tally| {
        let mut names: Vec<String> =
            tally.failures.iter().map(|f| f.path.file_name().to_string()).collect();
        names.sort();
        (names, tally.succeeded, tally.ignored, tally.filtered, tally.is_ok())
    };
    assert_eq!(sum_up(&one), sum_up(&other));
    assert_eq!(sum_up(&one), (vec!["b.rs".to_string(), "c.rs".to_string()], 1, 1, 1, false));
}
