//! The instructions that a test file gives in its comments.

use crate::diagnostics::Level;
use crate::text;
use regex::Regex;
use vstd::prelude::*;

verus! {

/// The value of an [`ErrorMatch`].
pub struct ErrorMatchView {
    pub matched: Seq<char>,
    pub revision: Option<Seq<char>>,
    pub definition_line: usize,
    pub line: usize,
    pub level: Option<Level>,
}

/// A diagnostic that the test file announces.
#[derive(Debug)]
pub struct ErrorMatch {
    /// What the diagnostic says, or a part of it.
    pub matched: String,
    /// The only revision in which the diagnostic is announced; `None` for all of them.
    pub revision: Option<String>,
    /// The line on which the announcement stands.
    pub definition_line: usize,
    /// The line to which the diagnostic belongs.
    pub line: usize,
    /// The level of the diagnostic; `None` for any.
    pub level: Option<Level>,
}

impl View for ErrorMatch {
    type V = ErrorMatchView;

    open spec fn view(&self) -> ErrorMatchView {
        ErrorMatchView {
            matched: self.matched@,
            revision: text::optional(self.revision),
            definition_line: self.definition_line,
            line: self.line,
            level: self.level,
        }
    }
}

/// The instructions of one test file.
#[derive(Debug)]
pub struct Comments {
    /// The names of the variants in which the test is run.
    pub revisions: Option<Vec<String>>,
    /// The test is not run on targets that one of these describes.
    pub ignore: Vec<String>,
    /// The test is run only on targets whose triple holds all of these.
    pub only: Vec<String>,
    /// The expected output differs with the pointer width of the target.
    pub stderr_per_bitwidth: bool,
    /// Further arguments for the compiler.
    pub compile_flags: Vec<String>,
    /// Environment variables for the compiler.
    pub env_vars: Vec<(String, String)>,
    /// Replacements that are made in the output before it is compared.
    pub normalize_stderr: Vec<(Regex, String)>,
    /// A text that some diagnostic holds, and the line that announces it.
    pub error_pattern: Option<(String, usize)>,
    /// The diagnostics that are announced for single lines.
    pub error_matches: Vec<ErrorMatch>,
}

} // verus!
