use ui_test::report::{
    dump_stderr, ignored_line, progress_line, record_ignored, record_run, summary, summary_with,
};
use ui_test::style::{Report, Style};
use ui_test::{Error, Errors, ExitStatus, Failure, Level, Message, Mode, Tally, TestPath};

fn file(name: &str) -> TestPath {
    TestPath::new("tests/".to_string(), "tests".to_string(), name.to_string())
}

fn text(report: &Report) -> String {
    report.spans.iter().map(|span| span.text.as_str()).collect()
}

fn failure(revision: &str, errors: Errors) -> Failure {
    Failure {
        path: file("a.rs"),
        command: "\"rustc\" \"tests/a.rs\"".to_string(),
        revision: revision.to_string(),
        errors,
        stderr: "all of stderr".to_string(),
    }
}

fn differs(name: &str) -> Error {
    Error::OutputDiffers {
        path: file(name),
        actual: "actual".to_string(),
        expected: "expected".to_string(),
    }
}

fn not_found() -> Error {
    Error::PatternNotFound { pattern: "leak".to_string(), definition_line: 12 }
}

#[test]
fn progress_is_shown_in_one_line() {
    let report = progress_line(&file("a.rs"), "", true);
    assert_eq!(text(&report), "tests/a.rs ... ok\n");
    assert_eq!(report.spans[1].style, Style::Green);
    let report = progress_line(&file("a.rs"), "tree", false);
    assert_eq!(text(&report), "tests/a.rs (revision `tree`) ... FAILED\n");
    assert_eq!(report.spans[1].style, Style::RedBold);
    let report = ignored_line(&file("a.rs"));
    assert_eq!(text(&report), "tests/a.rs ... ignored (in-test comment)\n");
    assert_eq!(report.spans[1].style, Style::Yellow);
}

#[test]
fn what_is_counted_is_reported() {
    let mut tally = Tally::new();
    assert_eq!(text(&record_run(&mut tally, failure("", vec![]))), "tests/a.rs ... ok\n");
    assert_eq!(
        text(&record_run(&mut tally, failure("r", vec![Error::NoPatternsFound]))),
        "tests/a.rs (revision `r`) ... FAILED\n"
    );
    record_ignored(&mut tally, &file("b.rs"));
    assert_eq!((tally.succeeded, tally.failures.len(), tally.ignored), (1, 1, 1));
}

#[test]
fn success_is_summed_up() {
    let tally = Tally { failures: vec![], succeeded: 12, ignored: 3, filtered: 400 };
    assert_eq!(
        text(&summary(&tally)),
        "\ntest result: ok. 12 tests passed, 3 ignored, 400 filtered out\n\n"
    );
}

#[test]
fn failures_are_explained() {
    let errors = vec![
        Error::ExitStatus(
            Mode::Fail,
            ExitStatus { code: Some(0), description: "exit status: 0".to_string() },
        ),
        not_found(),
        Error::NoPatternsFound,
        Error::PatternFoundInPassTest,
        differs("a.stdout"),
        Error::ErrorsWithoutPattern {
            msgs: vec![
                Message { level: Level::Error, message: "boom".to_string() },
                Message { level: Level::FailureNote, message: "see".to_string() },
            ],
            path: None,
        },
        Error::ErrorsWithoutPattern {
            msgs: vec![Message { level: Level::Warn, message: "hm".to_string() }],
            path: Some((file("a.rs"), 7)),
        },
        Error::ErrorPatternWithoutErrorAnnotation(file("a.rs"), 8),
    ];
    let tally =
        Tally { failures: vec![failure("r", errors)], succeeded: 1, ignored: 0, filtered: 0 };
    let mut comparisons = vec![String::new(); 8];
    comparisons[4] = "<diff>".to_string();
    let report = summary_with(&tally, &vec![comparisons]);
    assert_eq!(
        text(&report),
        "\n\
tests/a.rs (revision `r`) FAILED\n\
command: \"rustc\" \"tests/a.rs\"\n\
\n\
Fail got exit status: 0\n\
\n\
`leak` not found in stderr output\n\
expected because of pattern here: tests/a.rs:12\n\
\n\
no error patterns found in failure test\n\
\n\
error pattern found in success test\n\
\n\
actual output differed from expected tests/a.stdout\n\
<diff>\n\
\n\
\n\
There were 2 unmatched diagnostics that occurred outside the testfile and had not pattern\n\
\x20   Error: boom\n\
\x20   FailureNote: see\n\
\n\
There were 1 unmatched diagnostics at tests/a.rs:7\n\
\x20   Warn: hm\n\
\n\
Annotation at tests/a.rs:8 matched an error diagnostic but did not have `ERROR` before its message\n\
\n\
actual stderr:\n\
all of stderr\n\
\n\
failures:\n\
\x20   tests/a.rs\n\
\n\
test result: FAIL. 1 tests failed, 1 tests passed, 0 ignored, 0 filtered out\n"
    );
}

#[test]
fn differing_texts_are_compared() {
    let tally = Tally {
        failures: vec![failure("", vec![differs("a.stderr")])],
        succeeded: 0,
        ignored: 0,
        filtered: 0,
    };
    let shown = text(&summary(&tally));
    let comparison = pretty_assertions::StrComparison::new("expected", "actual").to_string();
    assert!(shown.contains(&format!(
        "actual output differed from expected tests/a.stderr\n{}\n\n\n",
        comparison
    )));
}

#[test]
fn stderr_is_dumped_where_a_pattern_is_missing_in_it() {
    assert!(!dump_stderr(&vec![]));
    assert!(!dump_stderr(&vec![Error::NoPatternsFound, differs("a.stdout")]));
    assert!(dump_stderr(&vec![Error::NoPatternsFound, not_found()]));
    assert!(dump_stderr(&vec![not_found(), differs("a.stdout")]));
}

#[test]
fn stderr_is_not_dumped_where_a_diff_shows_it() {
    assert!(!dump_stderr(&vec![not_found(), differs("a.r.stderr")]));
    assert!(!dump_stderr(&vec![differs("a.stderr"), not_found()]));
}

fn in_all_styles() -> Report {
    let mut report = Report::new();
    report.plain("p");
    report.styled(Style::Green, "g");
    report.styled(Style::Yellow, "y");
    report.styled(Style::Red, "r");
    report.styled(Style::Bold, "b");
    report.styled(Style::Underline, "u");
    report.styled(Style::RedBold, "R");
    report.styled(Style::RedUnderline, "U");
    report
}

// The override holds for the whole process, so everything that sets it stands in one test.
#[test]
fn styles_are_terminal_codes() {
    colored::control::set_override(true);
    assert_eq!(
        in_all_styles().render(),
        "p\x1B[32mg\x1B[0m\x1B[33my\x1B[0m\x1B[31mr\x1B[0m\x1B[1mb\x1B[0m\x1B[4mu\x1B[0m\
\x1B[1;31mR\x1B[0m\x1B[4;31mU\x1B[0m"
    );
    // A style goes on behind a reset.
    let mut report = Report::new();
    report.styled(Style::RedBold, "a\x1B[0mb\x1B[0m");
    assert_eq!(
        report.render(),
        "\x1B[1;31ma\x1B[0m\x1B[1;31mb\x1B[0m\x1B[1;31m\x1B[0m"
    );
    // Styles are left out where nothing is painted.
    colored::control::set_override(false);
    assert_eq!(in_all_styles().render(), "pgyrbuRU");
}
