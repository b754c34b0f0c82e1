//! What the compiler printed on its standard error output.

use vstd::prelude::*;

verus! {

/// How severe a diagnostic is. `Error` is the highest level.
#[derive(Copy, Clone, Debug, PartialEq, Eq, PartialOrd, Ord, Structural)]
pub enum Level {
    FailureNote,
    Note,
    Help,
    Warn,
    Error,
}

/// The place of a level in the order of severity.
pub open spec fn severity(level: Level) -> int {
    match level {
        Level::FailureNote => 0,
        Level::Note => 1,
        Level::Help => 2,
        Level::Warn => 3,
        Level::Error => 4,
    }
}

impl Level {
    fn rank(self) -> (rank: u8)
        ensures
            rank == severity(self),
    {
        match self {
            Level::FailureNote => 0,
            Level::Note => 1,
            Level::Help => 2,
            Level::Warn => 3,
            Level::Error => 4,
        }
    }

    /// Whether this level is as severe as `other`, or more so.
    pub fn at_least(self, other: Level) -> (b: bool)
        ensures
            b == (severity(self) >= severity(other)),
    {
        self.rank() >= other.rank()
    }

    /// The name of the level.
    pub open spec fn spec_name(self) -> Seq<char> {
        match self {
            Level::FailureNote => "FailureNote"@,
            Level::Note => "Note"@,
            Level::Help => "Help"@,
            Level::Warn => "Warn"@,
            Level::Error => "Error"@,
        }
    }

    /// The name of the level.
    pub fn name(self) -> (name: &'static str)
        ensures
            name@ == self.spec_name(),
    {
        match self {
            Level::FailureNote => "FailureNote",
            Level::Note => "Note",
            Level::Help => "Help",
            Level::Warn => "Warn",
            Level::Error => "Error",
        }
    }
}

/// The value of a [`Message`].
pub struct MessageView {
    pub level: Level,
    pub message: Seq<char>,
}

/// One diagnostic.
#[derive(Debug)]
pub struct Message {
    pub level: Level,
    pub message: String,
}

impl View for Message {
    type V = MessageView;

    open spec fn view(&self) -> MessageView {
        MessageView { level: self.level, message: self.message@ }
    }
}

/// The values of some diagnostics.
pub open spec fn message_views(messages: Seq<Message>) -> Seq<MessageView> {
    messages.map_values(|m: Message| m@)
}

/// The values of the diagnostics of each line.
pub open spec fn line_views(lines: Seq<Vec<Message>>) -> Seq<Seq<MessageView>> {
    lines.map_values(|line: Vec<Message>| message_views(line@))
}

/// The standard error output of the compiler, taken apart.
#[derive(Debug)]
pub struct Diagnostics {
    /// What the compiler would have shown to a user.
    pub rendered: String,
    /// The diagnostics of each line of the test file.
    pub messages: Vec<Vec<Message>>,
    /// The diagnostics that belong to no line of the test file.
    pub messages_from_unknown_file_or_line: Vec<Message>,
}

/// Levels go up from notes on failures over notes, help and warnings to errors, and no two of them
/// are equally severe.
pub proof fn law_levels_go_up_to_errors(a: Level, b: Level)
    ensures
        severity(Level::FailureNote) < severity(Level::Note) < severity(Level::Help) < severity(
            Level::Warn,
        ) < severity(Level::Error),
        severity(a) <= severity(Level::Error),
        severity(a) == severity(b) ==> a == b,
{
}

/// Every level is shown by its name.
pub proof fn law_levels_are_shown_by_name(level: Level)
    ensures
        level.spec_name() == (if level is Error {
            "Error"@
        } else if level is Warn {
            "Warn"@
        } else if level is Help {
            "Help"@
        } else if level is Note {
            "Note"@
        } else {
            "FailureNote"@
        }),
{
}

/// The values of diagnostics are those of each of them, line by line and in order.
pub proof fn law_values_of_diagnostics(lines: Seq<Vec<Message>>)
    ensures
        line_views(lines).len() == lines.len(),
        forall|line: int|
            0 <= line < lines.len() ==> (#[trigger] line_views(lines)[line]).len()
                == lines[line]@.len(),
        forall|line: int, k: int|
            0 <= line < lines.len() && 0 <= k < lines[line]@.len() ==> {
                let view = #[trigger] line_views(lines)[line][k];
                &&& view.level == lines[line]@[k].level
                &&& view.message == lines[line]@[k].message@
            },
{
}

} // verus!
