use std::path::PathBuf;
use ui_test::style::Report;
use ui_test::worker::{take_path, Step};
use ui_test::{Comments, Config, Error, Mode, OutputConflictHandling, Tally, TestPath};

const LINUX: &str = "x86_64-unknown-linux-gnu";

fn config(filters: &[&str]) -> Config {
    Config {
        args: vec![],
        target: None,
        stderr_filters: vec![],
        stdout_filters: vec![],
        root_dir: PathBuf::from("tests"),
        mode: Mode::Pass,
        program: PathBuf::from("rustc"),
        output_conflict_handling: OutputConflictHandling::Error,
        path_filter: filters.iter().map(|f| f.to_string()).collect(),
    }
}

fn comments(revisions: Option<Vec<&str>>, ignore: &[&str]) -> Comments {
    Comments {
        revisions: revisions.map(|names| names.iter().map(|name| name.to_string()).collect()),
        ignore: ignore.iter().map(|rule| rule.to_string()).collect(),
        only: vec![],
        stderr_per_bitwidth: false,
        compile_flags: vec!["-O".to_string()],
        env_vars: vec![],
        normalize_stderr: vec![],
        error_pattern: None,
        error_matches: vec![],
    }
}

fn file(name: &str) -> TestPath {
    TestPath::new("tests/".to_string(), "tests".to_string(), name.to_string())
}

fn text(report: &Report) -> String {
    report.spans.iter().map(|span| span.text.as_str()).collect()
}

/// Works on one test to its end, with errors in the revisions in `bad`. The result is the list of
/// the revisions that were run and what was shown.
fn work(revisions: Option<Vec<&str>>, ignore: &[&str], bad: &[&str], tally: &mut Tally) -> (Vec<String>, String) {
    let mut ran: Vec<String> = vec![];
    let mut shown = String::new();
    let mut step = take_path(false, Some(file("a.rs")), &config(&[]), tally);
    loop {
        let (next, report) = match step {
            Step::Next => return (ran, shown),
            Step::Expand => panic!("no directory"),
            Step::Read(reading) => {
                assert_eq!(reading.path().display(), "tests/a.rs");
                reading.finish(comments(revisions.clone(), ignore), LINUX, tally)
            }
            Step::Run(running) => {
                let revision = running.revision().to_string();
                assert_eq!(running.path().display(), "tests/a.rs");
                assert_eq!(running.comments().compile_flags, vec!["-O"]);
                let errors = if bad.contains(&revision.as_str()) {
                    vec![Error::NoPatternsFound]
                } else {
                    vec![]
                };
                ran.push(revision);
                running.finish("cmd".to_string(), errors, "err".to_string(), tally)
            }
        };
        shown.push_str(&text(&report));
        step = next;
    }
}

#[test]
fn a_test_without_revisions_is_run_once() {
    let mut tally = Tally::new();
    let (ran, shown) = work(None, &[], &[], &mut tally);
    assert_eq!(ran, vec![""]);
    assert_eq!(shown, "tests/a.rs ... ok\n");
    assert_eq!(tally.succeeded, 1);
}

#[test]
fn every_revision_is_run_once_in_order() {
    let mut tally = Tally::new();
    let (ran, shown) = work(Some(vec!["x", "y", "z"]), &["windows"], &["y"], &mut tally);
    assert_eq!(ran, vec!["x", "y", "z"]);
    assert_eq!(
        shown,
        "tests/a.rs (revision `x`) ... ok\n\
tests/a.rs (revision `y`) ... FAILED\n\
tests/a.rs (revision `z`) ... ok\n"
    );
    assert_eq!(tally.succeeded, 2);
    assert_eq!(tally.failures.len(), 1);
    assert_eq!(tally.failures[0].revision, "y");
    assert_eq!(tally.failures[0].command, "cmd");
    assert_eq!(tally.failures[0].stderr, "err");
}

#[test]
fn a_test_with_no_revision_at_all_is_not_run() {
    let mut tally = Tally::new();
    let (ran, shown) = work(Some(vec![]), &[], &[], &mut tally);
    assert!(ran.is_empty());
    assert_eq!(shown, "");
    assert_eq!((tally.succeeded, tally.ignored, tally.filtered), (0, 0, 0));
}

#[test]
fn an_ignored_test_is_not_run() {
    let mut tally = Tally::new();
    let (ran, shown) = work(Some(vec!["x"]), &["linux"], &[], &mut tally);
    assert!(ran.is_empty());
    assert_eq!(shown, "tests/a.rs ... ignored (in-test comment)\n");
    assert_eq!(tally.ignored, 1);
}

#[test]
fn paths_are_sorted_out() {
    let mut tally = Tally::new();
    assert!(matches!(take_path(true, None, &config(&["x"]), &mut tally), Step::Expand));
    assert!(matches!(take_path(false, None, &config(&[]), &mut tally), Step::Next));
    assert!(matches!(take_path(false, Some(file("a.stderr")), &config(&["x"]), &mut tally), Step::Next));
    assert_eq!(tally.filtered, 0);
    assert!(matches!(take_path(false, Some(file("a.rs")), &config(&["x"]), &mut tally), Step::Next));
    assert_eq!(tally.filtered, 1);
    assert!(matches!(take_path(false, Some(file("a.rs")), &config(&["a"]), &mut tally), Step::Read(_)));
    assert_eq!(tally.filtered, 1);
}

/// Works on four files, with the steps of all of them done in turns. `picks` says, step by step,
/// which of the files that are not done comes next. The result is what was counted in the end.
fn work_in_turns(picks: &[usize]) -> (Vec<(String, String)>, usize, usize, usize, bool) {
    let mut tally = Tally::new();
    let mut steps: Vec<(&str, Step)> = vec![];
    for name in ["a.rs", "b.rs", "c.rs", "x.rs"] {
        steps.push((name, take_path(false, Some(file(name)), &config(&["a.", "b.", "c."]), &mut tally)));
    }
    let mut turn: usize = 0;
    loop {
        steps.retain(|(_, step)| !matches!(step, Step::Next));
        if steps.is_empty() {
            break;
        }
        let (name, step) = steps.remove(picks[turn % picks.len()] % steps.len());
        turn += 1;
        let (next, _) = match step {
            Step::Read(reading) => {
                let found = match name {
                    "a.rs" => comments(Some(vec!["x", "y"]), &[]),
                    "b.rs" => comments(None, &[]),
                    _ => comments(None, &["linux"]),
                };
                reading.finish(found, LINUX, &mut tally)
            }
            Step::Run(running) => {
                let bad = name == "b.rs" || running.revision() == "y";
                let errors = if bad { vec![Error::NoPatternsFound] } else { vec![] };
                running.finish("cmd".to_string(), errors, "err".to_string(), &mut tally)
            }
            _ => panic!("only files that are not done"),
        };
        steps.push((name, next));
    }
    let mut failures: Vec<(String, String)> = tally
        .failures
        .iter()
        .map(|f| (f.path.file_name().to_string(), f.revision.clone()))
        .collect();
    failures.sort();
    (failures, tally.succeeded, tally.ignored, tally.filtered, tally.is_ok())
}

#[test]
fn the_schedule_does_not_matter() {
    let expected = (
        vec![("a.rs".to_string(), "y".to_string()), ("b.rs".to_string(), String::new())],
        1,
        1,
        1,
        false,
    );
    assert_eq!(work_in_turns(&[0]), expected);
    assert_eq!(work_in_turns(&[2]), expected);
    assert_eq!(work_in_turns(&[1, 0, 2]), expected);
    assert_eq!(work_in_turns(&[2, 2, 0, 1]), expected);
}
