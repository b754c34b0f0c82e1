//! The reasons for which a test fails.

use crate::config::Mode;
use crate::diagnostics::{message_views, Message, MessageView};
use crate::path::{extension, TestPath, TestPathView};
use vstd::prelude::*;

verus! {

/// How the compiler came to its end.
#[derive(Debug)]
pub struct ExitStatus {
    /// The exit code; `None` where the compiler was killed.
    pub code: Option<i32>,
    /// The status, as it is shown.
    pub description: String,
}

/// The value of an [`ExitStatus`].
pub struct ExitStatusView {
    pub code: Option<i32>,
    pub description: Seq<char>,
}

impl View for ExitStatus {
    type V = ExitStatusView;

    open spec fn view(&self) -> ExitStatusView {
        ExitStatusView { code: self.code, description: self.description@ }
    }
}

/// A reason for which a test fails.
#[allow(inconsistent_fields)]
#[derive(Debug)]
pub enum Error {
    /// Got an invalid exit status for the given mode.
    ExitStatus(Mode, ExitStatus),
    /// No diagnostic is what an annotation announces.
    PatternNotFound { pattern: String, definition_line: usize },
    /// A ui test checking for failure does not have any failure patterns
    NoPatternsFound,
    /// A ui test checking for success has failure patterns
    PatternFoundInPassTest,
    /// Stderr/Stdout differed from the `.stderr`/`.stdout` file present.
    OutputDiffers { path: TestPath, actual: String, expected: String },
    /// Diagnostics that no annotation announces.
    ErrorsWithoutPattern { msgs: Vec<Message>, path: Option<(TestPath, usize)> },
    /// An annotation without a level announces a diagnostic of the highest level.
    ErrorPatternWithoutErrorAnnotation(TestPath, usize),
}

/// The reasons for which a test fails; none, where it passes.
pub type Errors = Vec<Error>;

/// The value of an [`Error`].
#[allow(inconsistent_fields)]
pub enum ErrorView {
    ExitStatus(Mode, ExitStatusView),
    PatternNotFound { pattern: Seq<char>, definition_line: usize },
    NoPatternsFound,
    PatternFoundInPassTest,
    OutputDiffers { path: TestPathView, actual: Seq<char>, expected: Seq<char> },
    ErrorsWithoutPattern { msgs: Seq<MessageView>, path: Option<(TestPathView, usize)> },
    ErrorPatternWithoutErrorAnnotation(TestPathView, usize),
}

impl View for Error {
    type V = ErrorView;

    open spec fn view(&self) -> ErrorView {
        match *self {
            Error::ExitStatus(mode, status) => ErrorView::ExitStatus(mode, status@),
            Error::PatternNotFound { pattern, definition_line } => ErrorView::PatternNotFound {
                pattern: pattern@,
                definition_line,
            },
            Error::NoPatternsFound => ErrorView::NoPatternsFound,
            Error::PatternFoundInPassTest => ErrorView::PatternFoundInPassTest,
            Error::OutputDiffers { path, actual, expected } => ErrorView::OutputDiffers {
                path: path@,
                actual: actual@,
                expected: expected@,
            },
            Error::ErrorsWithoutPattern { msgs, path } => ErrorView::ErrorsWithoutPattern {
                msgs: message_views(msgs@),
                path: match path {
                    Some((p, line)) => Some((p@, line)),
                    None => None,
                },
            },
            Error::ErrorPatternWithoutErrorAnnotation(path, line) => {
                ErrorView::ErrorPatternWithoutErrorAnnotation(path@, line)
            },
        }
    }
}

/// The values of some errors.
pub open spec fn error_views(errors: Seq<Error>) -> Seq<ErrorView> {
    errors.map_values(|e: Error| e@)
}

/// An error can be explained where the file with expected output, if it speaks of one, has an
/// extension.
pub open spec fn explicable(error: ErrorView) -> bool {
    error matches ErrorView::OutputDiffers { path, .. } ==> extension(path.file_name) is Some
}

/// All errors can be explained.
pub open spec fn all_explicable(errors: Seq<ErrorView>) -> bool {
    forall|i: int| 0 <= i < errors.len() ==> explicable(#[trigger] errors[i])
}

/// The values of errors are those of each of them, in order and with everything in them.
pub proof fn law_values_of_errors(errors: Seq<Error>, i: int)
    requires
        0 <= i < errors.len(),
    ensures
        error_views(errors).len() == errors.len(),
        match errors[i] {
            Error::ExitStatus(mode, status) => {
                &&& error_views(errors)[i] matches ErrorView::ExitStatus(m, s)
                &&& m == mode
                &&& s.code == status.code
                &&& s.description == status.description@
            },
            Error::PatternNotFound { pattern, definition_line } => {
                &&& error_views(errors)[i] matches ErrorView::PatternNotFound {
                    pattern: p,
                    definition_line: line,
                }
                &&& p == pattern@
                &&& line == definition_line
            },
            Error::NoPatternsFound => error_views(errors)[i] is NoPatternsFound,
            Error::PatternFoundInPassTest => error_views(errors)[i] is PatternFoundInPassTest,
            Error::OutputDiffers { path, actual, expected } => {
                &&& error_views(errors)[i] matches ErrorView::OutputDiffers {
                    path: p,
                    actual: a,
                    expected: e,
                }
                &&& p == path@
                &&& a == actual@
                &&& e == expected@
            },
            Error::ErrorsWithoutPattern { msgs, path } => {
                &&& error_views(errors)[i] matches ErrorView::ErrorsWithoutPattern {
                    msgs: m,
                    path: p,
                }
                &&& m == message_views(msgs@)
                &&& path is None ==> p is None
                &&& path matches Some((file, line)) ==> p == Some((file@, line))
            },
            Error::ErrorPatternWithoutErrorAnnotation(path, line) => {
                &&& error_views(errors)[i] matches ErrorView::ErrorPatternWithoutErrorAnnotation(p, l)
                &&& p == path@
                &&& l == line
            },
        },
{
}

} // verus!
