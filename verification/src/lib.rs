//! A test runner for compiler user interfaces.
//!
//! A test is a source file. The compiler is run on it, and its exit status, its output and its
//! diagnostics are checked: against the mode in which the tests are run, against files with
//! expected output that stand beside the test, and against annotations in its comments.
//!
//! This crate holds the decisions. Walking through directories, running the compiler and reading
//! and writing files is left to the program around it.

pub mod annotation_laws;
pub mod annotations;
pub mod call_laws;
pub mod claim_laws;
pub mod comments;
pub mod config;
pub mod diagnostics;
pub mod error;
pub mod output;
pub mod path;
pub mod report;
pub mod report_laws;
pub mod run;
pub mod schedule;
pub mod style;
pub mod tally;
pub mod target;
pub mod text;
pub mod worker;

pub use crate::comments::{Comments, ErrorMatch};
pub use crate::config::{Config, Filter, Mode, OutputConflictHandling};
pub use crate::diagnostics::{Diagnostics, Level, Message};
pub use crate::error::{Error, Errors, ExitStatus};
pub use crate::path::TestPath;
pub use crate::tally::{Failure, Tally};
