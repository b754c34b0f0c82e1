use std::path::PathBuf;
use ui_test::output::OutputAction;
use ui_test::run::{check_test_result, command_arguments, expected_extensions, judge, Argument, ExpectedOutput};
use ui_test::{
    Comments, Config, Diagnostics, Error, ErrorMatch, Errors, ExitStatus, Level, Message, Mode,
    OutputConflictHandling, TestPath,
};

const LINUX: &str = "x86_64-unknown-linux-gnu";

fn config(mode: Mode, handling: OutputConflictHandling) -> Config {
    Config {
        args: vec!["-Zui".to_string(), "--edition=2021".to_string()],
        target: None,
        stderr_filters: vec![],
        stdout_filters: vec![],
        root_dir: PathBuf::from("tests"),
        mode,
        program: PathBuf::from("rustc"),
        output_conflict_handling: handling,
        path_filter: vec![],
    }
}

fn comments() -> Comments {
    Comments {
        revisions: None,
        ignore: vec![],
        only: vec![],
        stderr_per_bitwidth: false,
        compile_flags: vec!["-O".to_string()],
        env_vars: vec![],
        normalize_stderr: vec![],
        error_pattern: None,
        error_matches: vec![],
    }
}

fn path() -> TestPath {
    TestPath::new("tests/".to_string(), "tests".to_string(), "foo.rs".to_string())
}

fn texts(arguments: Vec<Argument>) -> Vec<String> {
    arguments
        .into_iter()
        .map(|argument| match argument {
            Argument::TestFile => "<file>".to_string(),
            Argument::Text(text) => text,
        })
        .collect()
}

fn status(code: i32) -> ExitStatus {
    ExitStatus { code: Some(code), description: format!("exit status: {}", code) }
}

fn diagnostics(rendered: &str) -> Diagnostics {
    Diagnostics {
        rendered: rendered.to_string(),
        messages: vec![],
        messages_from_unknown_file_or_line: vec![],
    }
}

fn expecting(stderr: Option<&str>, stdout: Option<&str>) -> ExpectedOutput {
    ExpectedOutput {
        stderr: stderr.map(|text| text.to_string()),
        stdout: stdout.map(|text| text.to_string()),
    }
}

#[test]
fn commands_have_their_arguments_in_order() {
    let config = config(Mode::Pass, OutputConflictHandling::Error);
    assert_eq!(
        texts(command_arguments(&config, "", &comments())),
        vec!["-Zui", "--edition=2021", "<file>", "--error-format=json", "-O"]
    );
    assert_eq!(
        texts(command_arguments(&config, "stack", &comments())),
        vec!["-Zui", "--edition=2021", "<file>", "--cfg=stack", "--error-format=json", "-O"]
    );
}

#[test]
fn exit_codes_are_those_of_the_modes() {
    for (mode, code) in [(Mode::Pass, 0), (Mode::Panic, 101), (Mode::Fail, 1)] {
        for actual in [0, 1, 2, 101] {
            let errors = mode.ok(status(actual));
            if actual == code {
                assert!(errors.is_empty());
            } else {
                assert_eq!(errors.len(), 1);
                match &errors[0] {
                    Error::ExitStatus(m, s) => {
                        assert_eq!(*m, mode);
                        assert_eq!(s.code, Some(actual));
                    }
                    other => panic!("{:?}", other),
                }
            }
        }
    }
}

#[test]
fn revisions_have_files_of_their_own() {
    let (stderr, stdout) = expected_extensions(&comments(), "", LINUX);
    assert_eq!(path().with_extension(&stderr).display(), "tests/foo.stderr");
    assert_eq!(path().with_extension(&stdout).display(), "tests/foo.stdout");
    let (stderr, stdout) = expected_extensions(&comments(), "tree", LINUX);
    assert_eq!(path().with_extension(&stderr).display(), "tests/foo.tree.stderr");
    assert_eq!(path().with_extension(&stdout).display(), "tests/foo.tree.stdout");
    assert_eq!(path().with_extension(&stderr).extension(), Some("stderr".to_string()));
    let mut c = comments();
    c.stderr_per_bitwidth = true;
    let (stderr, stdout) = expected_extensions(&c, "tree", LINUX);
    assert_eq!(stderr, "64bit.tree.stderr");
    assert_eq!(stdout, "64bit.tree.stdout");
}

#[test]
fn a_quiet_test_passes() {
    let (errors, aftermath) = judge(
        &path(),
        &config(Mode::Pass, OutputConflictHandling::Error),
        LINUX,
        "",
        &comments(),
        status(0),
        b"",
        diagnostics(""),
        expecting(None, None),
        None,
    );
    assert!(errors.is_empty());
    assert_eq!(aftermath.rendered, "");
}

#[test]
fn everything_that_is_wrong_is_found_in_order() {
    let (errors, aftermath) = judge(
        &path(),
        &config(Mode::Fail, OutputConflictHandling::Error),
        LINUX,
        "r",
        &comments(),
        status(101),
        "gr\u{fc}n".as_bytes(),
        diagnostics("some error"),
        expecting(None, Some("other")),
        None,
    );
    assert_eq!(aftermath.rendered, "some error");
    assert!(matches!(aftermath.stderr, OutputAction::Keep));
    assert_eq!(errors.len(), 4);
    assert!(matches!(errors[0], Error::ExitStatus(Mode::Fail, _)));
    match &errors[1] {
        Error::OutputDiffers { path, actual, expected } => {
            assert_eq!(path.display(), "tests/foo.r.stderr");
            assert_eq!(actual, "some error");
            assert_eq!(expected, "");
        }
        other => panic!("{:?}", other),
    }
    match &errors[2] {
        Error::OutputDiffers { path, actual, expected } => {
            assert_eq!(path.display(), "tests/foo.r.stdout");
            assert_eq!(actual, "gr\u{fc}n");
            assert_eq!(expected, "other");
        }
        other => panic!("{:?}", other),
    }
    assert!(matches!(errors[3], Error::NoPatternsFound));
}

#[test]
fn an_announced_failure_passes() {
    let mut c = comments();
    c.error_matches.push(ErrorMatch {
        matched: "mismatched".to_string(),
        revision: None,
        definition_line: 1,
        line: 1,
        level: Some(Level::Error),
    });
    let printed = Diagnostics {
        rendered: "error: mismatched types".to_string(),
        messages: vec![
            vec![],
            vec![Message { level: Level::Error, message: "mismatched types".to_string() }],
        ],
        messages_from_unknown_file_or_line: vec![],
    };
    let (errors, _) = judge(
        &path(),
        &config(Mode::Fail, OutputConflictHandling::Error),
        LINUX,
        "",
        &c,
        status(1),
        b"",
        printed,
        expecting(Some("error: mismatched types"), None),
        None,
    );
    assert!(errors.is_empty());
}

#[test]
fn blessing_makes_the_next_comparison_succeed() {
    let run = |handling: OutputConflictHandling, expected: ExpectedOutput| {
        let mut errors: Errors = vec![];
        let aftermath = check_test_result(
            &path(),
            &config(Mode::Pass, handling),
            LINUX,
            "",
            &comments(),
            &mut errors,
            b"out",
            diagnostics("at tests/foo.rs"),
            expected,
            None,
        );
        (errors, aftermath)
    };
    let (errors, aftermath) = run(OutputConflictHandling::Bless, expecting(None, Some("old")));
    assert!(errors.is_empty());
    let (stderr, stdout) = match (aftermath.stderr, aftermath.stdout) {
        (OutputAction::Write(_, stderr), OutputAction::Write(_, stdout)) => (stderr, stdout),
        other => panic!("{:?}", other),
    };
    assert_eq!(stderr, "at $DIR/foo.rs");
    assert_eq!(stdout, "out");
    let (errors, _) = run(OutputConflictHandling::Error, expecting(Some(&stderr), Some(&stdout)));
    assert!(errors.is_empty());
}
