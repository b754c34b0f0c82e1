//! How the tests are run.

use crate::error::{error_views, Error, ErrorView, Errors, ExitStatus, ExitStatusView};
use regex::Regex;
use std::path::PathBuf;
use vstd::prelude::*;

verus! {

/// `regex::Regex`, a compiled regular expression. Values of it are only carried to the calls that
/// search with them.
#[verifier::external_type_specification]
#[verifier::external_body]
pub struct ExRegex(Regex);

/// `std::path::PathBuf`, a path in the notation of the machine. Values of it are only carried.
#[verifier::external_type_specification]
#[verifier::external_body]
pub struct ExPathBuf(PathBuf);

/// Replacements that are made in some output, in order.
pub type Filter = Vec<(Regex, &'static str)>;

/// What to do where the output of a test is not what is expected.
#[derive(Debug, Copy, Clone, PartialEq, Eq, Structural)]
pub enum OutputConflictHandling {
    /// The default: emit a diff of the expected/actual output.
    Error,
    /// Ignore mismatches in the stderr/stdout files.
    Ignore,
    /// Instead of erroring if the stderr/stdout differs from the expected
    /// automatically replace it with the found output (after applying filters).
    Bless,
}

/// How the tests are run.
#[derive(Debug)]
pub struct Config {
    /// Arguments passed to the binary that is executed.
    pub args: Vec<String>,
    /// `None` to run on the host, otherwise a target triple
    pub target: Option<String>,
    /// Filters applied to stderr output before processing it
    pub stderr_filters: Filter,
    /// Filters applied to stdout output before processing it
    pub stdout_filters: Filter,
    /// The folder in which to start searching for .rs files
    pub root_dir: PathBuf,
    /// What the tests are expected to do.
    pub mode: Mode,
    /// The binary that is executed.
    pub program: PathBuf,
    /// What to do where the output of a test is not what is expected.
    pub output_conflict_handling: OutputConflictHandling,
    /// Only run tests with one of these strings in their path/name
    pub path_filter: Vec<String>,
}

/// What a test is expected to do.
#[derive(Copy, Clone, Debug, PartialEq, Eq, Structural)]
pub enum Mode {
    /// The test passes a full execution of the rustc driver
    Pass,
    /// The rustc driver panicked
    Panic,
    /// The rustc driver emitted an error
    Fail,
}

/// The exit code of a test that does what its mode expects.
pub open spec fn expected_code(mode: Mode) -> i32 {
    match mode {
        Mode::Pass => 0,
        Mode::Panic => 101,
        Mode::Fail => 1,
    }
}

/// The error for an exit status that the mode does not expect.
pub open spec fn status_errors(mode: Mode, status: ExitStatusView) -> Seq<ErrorView> {
    if status.code == Some(expected_code(mode)) {
        Seq::empty()
    } else {
        seq![ErrorView::ExitStatus(mode, status)]
    }
}

impl Mode {
    /// The name of the mode.
    pub open spec fn spec_name(self) -> Seq<char> {
        match self {
            Mode::Pass => "Pass"@,
            Mode::Panic => "Panic"@,
            Mode::Fail => "Fail"@,
        }
    }

    /// The name of the mode.
    pub fn name(self) -> (name: &'static str)
        ensures
            name@ == self.spec_name(),
    {
        match self {
            Mode::Pass => "Pass",
            Mode::Panic => "Panic",
            Mode::Fail => "Fail",
        }
    }

    /// Checks an exit status against the mode. There is one error where the code is not the one
    /// that the mode expects.
    pub fn ok(self, status: ExitStatus) -> (errors: Errors)
        requires
            status.code is Some,
        ensures
            error_views(errors@) == status_errors(self, status@),
    {
        let mut errors: Errors = Vec::new();
        let accepted: bool = match (status.code.unwrap(), self) {
            (1, Mode::Fail) | (101, Mode::Panic) | (0, Mode::Pass) => true,
            _ => false,
        };
        if !accepted {
            errors.push(Error::ExitStatus(self, status));
        }
        errors
    }
}

/// No exit code is what two modes expect.
pub proof fn law_an_exit_code_suits_one_mode(a: Mode, b: Mode, status: ExitStatusView)
    requires
        status_errors(a, status).len() == 0,
        status_errors(b, status).len() == 0,
    ensures
        a == b,
{
}

/// A test that is to pass has to end with the code 0, one in which the compiler is to panic with the
/// code 101, and one that is to fail with the code 1. Every other status is reported as it is, in one
/// error.
pub proof fn law_which_exit_codes_are_accepted(mode: Mode, status: ExitStatusView)
    ensures
        ({
            let accepted = (mode is Pass && status.code == Some(0i32)) || (mode is Panic
                && status.code == Some(101i32)) || (mode is Fail && status.code == Some(1i32));
            &&& accepted ==> status_errors(mode, status).len() == 0
            &&& !accepted ==> status_errors(mode, status) == seq![
                ErrorView::ExitStatus(mode, status),
            ]
        }),
{
}

/// Every mode is shown by its name.
pub proof fn law_modes_are_shown_by_name(mode: Mode)
    ensures
        mode is Pass ==> mode.spec_name() == "Pass"@,
        mode is Panic ==> mode.spec_name() == "Panic"@,
        mode is Fail ==> mode.spec_name() == "Fail"@,
{
}

} // verus!
