use regex::Regex;
use std::path::PathBuf;
use ui_test::output::{
    check_normalized_output, check_output, normalize, output_path, strip_paths, OutputAction,
};
use ui_test::{Comments, Config, Error, Errors, Mode, OutputConflictHandling, TestPath};

fn config(handling: OutputConflictHandling) -> Config {
    Config {
        args: vec![],
        target: None,
        stderr_filters: vec![],
        stdout_filters: vec![],
        root_dir: PathBuf::from("tests"),
        mode: Mode::Pass,
        program: PathBuf::from("rustc"),
        output_conflict_handling: handling,
        path_filter: vec![],
    }
}

fn comments() -> Comments {
    Comments {
        revisions: None,
        ignore: vec![],
        only: vec![],
        stderr_per_bitwidth: false,
        compile_flags: vec![],
        env_vars: vec![],
        normalize_stderr: vec![],
        error_pattern: None,
        error_matches: vec![],
    }
}

fn path() -> TestPath {
    TestPath::new("/src/tests/".to_string(), "/src/tests".to_string(), "foo.rs".to_string())
}

#[test]
fn machine_paths_are_taken_out() {
    assert_eq!(
        strip_paths(&path(), "at /src/tests/foo.rs and /lib/core", Some("/lib")),
        "at $DIR/foo.rs and RUSTLIB/core"
    );
    assert_eq!(strip_paths(&path(), "at /lib/core", None), "at /lib/core");
}

#[test]
fn filters_are_applied_in_order() {
    let filters = vec![
        (Regex::new("[0-9]+").unwrap(), "N"),
        (Regex::new("line (N)").unwrap(), "row $1$1"),
    ];
    let mut c = comments();
    c.normalize_stderr.push((Regex::new("row").unwrap(), "ROW".to_string()));
    assert_eq!(normalize(&path(), "line 17, line x", &filters, &c, None), "ROW NN, line x");
}

#[test]
fn paths_are_taken_out_before_filters_are_applied() {
    let filters = vec![(Regex::new(r"\$DIR").unwrap(), "HERE")];
    assert_eq!(normalize(&path(), "/src/tests/a", &filters, &comments(), None), "HERE/a");
}

#[test]
fn neutral_output_is_compared_as_it_is() {
    assert_eq!(normalize(&path(), "nothing special\n", &vec![], &comments(), Some("/lib")), "nothing special\n");
}

#[test]
fn output_files_stand_beside_the_test() {
    let file = output_path(&path(), &comments(), "stderr", "avr");
    assert_eq!(file.display(), "/src/tests/foo.stderr");
    let mut c = comments();
    c.stderr_per_bitwidth = true;
    assert_eq!(
        output_path(&path(), &c, "r.stdout", "x86_64-unknown-linux-gnu").display(),
        "/src/tests/foo.64bit.r.stdout"
    );
    assert_eq!(output_path(&path(), &c, "stderr", "avr").display(), "/src/tests/foo.16bit.stderr");
}

fn settle(
    output: &str,
    handling: OutputConflictHandling,
    expected: Option<&str>,
) -> (OutputAction, Errors) {
    let mut errors: Errors = vec![];
    let action = check_normalized_output(
        output.to_string(),
        path().with_extension("stderr"),
        &mut errors,
        handling,
        expected.map(|e| e.to_string()),
    );
    (action, errors)
}

#[test]
fn differing_output_is_an_error() {
    let (action, errors) = settle("new", OutputConflictHandling::Error, Some("old"));
    assert!(matches!(action, OutputAction::Keep));
    assert_eq!(errors.len(), 1);
    match &errors[0] {
        Error::OutputDiffers { path, actual, expected } => {
            assert_eq!(path.display(), "/src/tests/foo.stderr");
            assert_eq!(actual, "new");
            assert_eq!(expected, "old");
        }
        other => panic!("{:?}", other),
    }
}

#[test]
fn a_missing_file_expects_no_output() {
    assert!(settle("", OutputConflictHandling::Error, None).1.is_empty());
    assert_eq!(settle("x", OutputConflictHandling::Error, None).1.len(), 1);
    assert!(settle("same", OutputConflictHandling::Error, Some("same")).1.is_empty());
}

#[test]
fn differing_output_may_be_ignored() {
    let (action, errors) = settle("new", OutputConflictHandling::Ignore, Some("old"));
    assert!(matches!(action, OutputAction::Keep));
    assert!(errors.is_empty());
}

#[test]
fn blessed_output_is_what_is_expected() {
    let (action, errors) = settle("new", OutputConflictHandling::Bless, Some("old"));
    assert!(errors.is_empty());
    match action {
        OutputAction::Write(file, text) => {
            assert_eq!(file.display(), "/src/tests/foo.stderr");
            assert!(settle("new", OutputConflictHandling::Error, Some(text.as_str())).1.is_empty());
        }
        other => panic!("{:?}", other),
    }
    let (action, errors) = settle("", OutputConflictHandling::Bless, Some("old"));
    assert!(errors.is_empty());
    assert!(matches!(action, OutputAction::Remove(_)));
    assert!(settle("", OutputConflictHandling::Error, None).1.is_empty());
}

#[test]
fn output_is_checked_after_normalization() {
    let mut errors: Errors = vec![];
    let filters = vec![(Regex::new("[0-9]+").unwrap(), "N")];
    let action = check_output(
        "/src/tests/foo.rs:12",
        &path(),
        &mut errors,
        "stderr",
        "avr",
        &filters,
        &config(OutputConflictHandling::Error),
        &comments(),
        None,
        Some("$DIR/foo.rs:N".to_string()),
    );
    assert!(matches!(action, OutputAction::Keep));
    assert!(errors.is_empty());
}
