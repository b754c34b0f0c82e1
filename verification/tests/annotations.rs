use std::path::PathBuf;
use ui_test::annotations::check_annotations;
use ui_test::{
    Comments, Config, Error, ErrorMatch, Errors, Level, Message, Mode, OutputConflictHandling,
    TestPath,
};

fn config(mode: Mode) -> Config {
    Config {
        args: vec![],
        target: None,
        stderr_filters: vec![],
        stdout_filters: vec![],
        root_dir: PathBuf::from("tests"),
        mode,
        program: PathBuf::from("rustc"),
        output_conflict_handling: OutputConflictHandling::Error,
        path_filter: vec![],
    }
}

fn comments(error_pattern: Option<(&str, usize)>, error_matches: Vec<ErrorMatch>) -> Comments {
    Comments {
        revisions: None,
        ignore: vec![],
        only: vec![],
        stderr_per_bitwidth: false,
        compile_flags: vec![],
        env_vars: vec![],
        normalize_stderr: vec![],
        error_pattern: error_pattern.map(|(pattern, line)| (pattern.to_string(), line)),
        error_matches,
    }
}

fn annotation(matched: &str, line: usize, level: Option<Level>) -> ErrorMatch {
    ErrorMatch {
        matched: matched.to_string(),
        revision: None,
        definition_line: line + 100,
        line,
        level,
    }
}

fn message(level: Level, message: &str) -> Message {
    Message { level, message: message.to_string() }
}

fn path() -> TestPath {
    TestPath::new("tests/".to_string(), "tests".to_string(), "moobar.rs".to_string())
}

fn check(
    messages: Vec<Vec<Message>>,
    unknown: Vec<Message>,
    mode: Mode,
    revision: &str,
    comments: &Comments,
) -> Errors {
    let mut errors: Errors = vec![];
    check_annotations(messages, unknown, &path(), &mut errors, &config(mode), revision, comments);
    errors
}

#[test]
fn announced_error_is_accepted() {
    let c = comments(None, vec![annotation("mismatched", 1, Some(Level::Error))]);
    let errors =
        check(vec![vec![], vec![message(Level::Error, "mismatched types")]], vec![], Mode::Fail, "", &c);
    assert!(errors.is_empty());
}

#[test]
fn error_needs_to_be_announced_as_one() {
    let c = comments(None, vec![annotation("mismatched", 1, None)]);
    let errors =
        check(vec![vec![], vec![message(Level::Error, "mismatched types")]], vec![], Mode::Fail, "", &c);
    assert_eq!(errors.len(), 1);
    match &errors[0] {
        Error::ErrorPatternWithoutErrorAnnotation(file, line) => {
            assert_eq!(file.display(), "tests/moobar.rs");
            assert_eq!(*line, 1);
        }
        other => panic!("{:?}", other),
    }
}

#[test]
fn annotation_without_a_diagnostic_is_a_fault() {
    let c = comments(None, vec![annotation("mismatched", 7, Some(Level::Warn))]);
    let errors = check(vec![vec![], vec![message(Level::Note, "mismatched")]], vec![], Mode::Fail, "", &c);
    assert_eq!(errors.len(), 1);
    match &errors[0] {
        Error::PatternNotFound { pattern, definition_line } => {
            assert_eq!(pattern, "mismatched");
            assert_eq!(*definition_line, 107);
        }
        other => panic!("{:?}", other),
    }
}

#[test]
fn every_diagnostic_of_the_lowest_level_needs_an_annotation() {
    let c = comments(None, vec![annotation("first", 1, Some(Level::Warn))]);
    let errors = check(
        vec![
            vec![message(Level::Note, "a note")],
            vec![message(Level::Warn, "first"), message(Level::Warn, "second")],
        ],
        vec![message(Level::Error, "elsewhere"), message(Level::Help, "some help")],
        Mode::Fail,
        "",
        &c,
    );
    assert_eq!(errors.len(), 2);
    match &errors[0] {
        Error::ErrorsWithoutPattern { msgs, path: None } => {
            assert_eq!(msgs.len(), 1);
            assert_eq!(msgs[0].message, "elsewhere");
        }
        other => panic!("{:?}", other),
    }
    match &errors[1] {
        Error::ErrorsWithoutPattern { msgs, path: Some((file, 1)) } => {
            assert_eq!(file.file_name(), "moobar.rs");
            assert_eq!(msgs.len(), 1);
            assert_eq!(msgs[0].message, "second");
            assert_eq!(msgs[0].level, Level::Warn);
        }
        other => panic!("{:?}", other),
    }
}

#[test]
fn a_level_counts_even_if_nothing_is_found() {
    let c = comments(None, vec![annotation("absent", 0, Some(Level::Note))]);
    let errors = check(vec![vec![message(Level::Note, "a note")]], vec![], Mode::Fail, "", &c);
    assert_eq!(errors.len(), 2);
    assert!(matches!(errors[0], Error::PatternNotFound { .. }));
    assert!(matches!(errors[1], Error::ErrorsWithoutPattern { path: Some((_, 0)), .. }));
}

#[test]
fn warnings_need_no_annotation_by_themselves() {
    let errors =
        check(vec![vec![message(Level::Warn, "unused")]], vec![], Mode::Pass, "", &comments(None, vec![]));
    assert!(errors.is_empty());
}

#[test]
fn unannounced_error_is_a_fault_in_every_mode() {
    for mode in [Mode::Pass, Mode::Panic] {
        let errors =
            check(vec![vec![message(Level::Error, "boom")]], vec![], mode, "", &comments(None, vec![]));
        assert_eq!(errors.len(), 1);
        assert!(matches!(errors[0], Error::ErrorsWithoutPattern { .. }));
    }
}

#[test]
fn each_annotation_claims_one_diagnostic() {
    let twice = || vec![vec![message(Level::Error, "same"), message(Level::Error, "same")]];
    let one = comments(None, vec![annotation("same", 0, Some(Level::Error))]);
    assert_eq!(check(twice(), vec![], Mode::Fail, "", &one).len(), 1);
    let two = comments(
        None,
        vec![annotation("same", 0, Some(Level::Error)), annotation("same", 0, Some(Level::Error))],
    );
    assert!(check(twice(), vec![], Mode::Fail, "", &two).is_empty());
}

#[test]
fn annotations_of_other_revisions_do_not_count() {
    let mut other = annotation("other", 0, Some(Level::Note));
    other.revision = Some("b".to_string());
    let mut own = annotation("own", 0, Some(Level::Error));
    own.revision = Some("a".to_string());
    let c = comments(None, vec![other, own]);
    let messages = || vec![vec![message(Level::Error, "own"), message(Level::Note, "other")]];
    assert!(check(messages(), vec![], Mode::Fail, "a", &c).is_empty());
    let errors = check(messages(), vec![], Mode::Fail, "b", &c);
    assert_eq!(errors.len(), 1);
    match &errors[0] {
        Error::ErrorsWithoutPattern { msgs, .. } => assert_eq!(msgs[0].message, "own"),
        error => panic!("{:?}", error),
    }
}

#[test]
fn error_pattern_prefers_diagnostics_without_a_line() {
    let c = comments(Some(("leak", 3)), vec![annotation("leak", 0, Some(Level::Error))]);
    let errors = check(
        vec![vec![message(Level::Error, "leak here")]],
        vec![message(Level::Error, "some leak")],
        Mode::Fail,
        "",
        &c,
    );
    assert!(errors.is_empty());
}

#[test]
fn error_pattern_falls_back_to_lines() {
    let c = comments(Some(("leak", 3)), vec![]);
    let errors = check(
        vec![vec![message(Level::Note, "fine")], vec![message(Level::Error, "a leak")]],
        vec![],
        Mode::Fail,
        "",
        &c,
    );
    assert!(errors.is_empty());
}

#[test]
fn missing_error_pattern_is_a_fault() {
    let c = comments(Some(("leak", 3)), vec![]);
    let errors = check(vec![], vec![], Mode::Fail, "", &c);
    assert_eq!(errors.len(), 1);
    match &errors[0] {
        Error::PatternNotFound { pattern, definition_line } => {
            assert_eq!(pattern, "leak");
            assert_eq!(*definition_line, 3);
        }
        other => panic!("{:?}", other),
    }
}

#[test]
fn failing_tests_announce_something() {
    let errors = check(vec![], vec![], Mode::Fail, "", &comments(None, vec![]));
    assert_eq!(errors.len(), 1);
    assert!(matches!(errors[0], Error::NoPatternsFound));
}

#[test]
fn passing_tests_announce_nothing() {
    for mode in [Mode::Pass, Mode::Panic] {
        let c = comments(None, vec![annotation("a", 0, Some(Level::Warn))]);
        let errors = check(vec![vec![message(Level::Warn, "a")]], vec![], mode, "", &c);
        assert_eq!(errors.len(), 1);
        assert!(matches!(errors[0], Error::PatternFoundInPassTest));
    }
}

#[test]
fn earlier_errors_are_kept() {
    let mut errors: Errors = vec![Error::NoPatternsFound];
    check_annotations(
        vec![],
        vec![],
        &path(),
        &mut errors,
        &config(Mode::Fail),
        "",
        &comments(Some(("x", 1)), vec![]),
    );
    assert_eq!(errors.len(), 2);
    assert!(matches!(errors[0], Error::NoPatternsFound));
    assert!(matches!(errors[1], Error::PatternNotFound { .. }));
}

#[test]
fn levels_are_ordered_by_severity() {
    let levels = [Level::FailureNote, Level::Note, Level::Help, Level::Warn, Level::Error];
    for (i, a) in levels.iter().enumerate() {
        for (j, b) in levels.iter().enumerate() {
            assert_eq!(a.at_least(*b), i >= j);
            assert_eq!(a >= b, i >= j);
        }
    }
}
