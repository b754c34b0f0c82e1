//! Checking the diagnostics of the compiler against the annotations of the test file.

use crate::comments::{Comments, ErrorMatch, ErrorMatchView};
use crate::config::{Config, Mode};
use crate::diagnostics::{line_views, message_views, severity, Level, Message, MessageView};
use crate::error::{error_views, Error, ErrorView, Errors};
use crate::path::{TestPath, TestPathView};
use crate::text;
use vstd::prelude::*;

verus! {

/// `message` is what an annotation announces: it holds the text `pattern`, and is of the level
/// `level` where there is one.
pub open spec fn announces(
    pattern: Seq<char>,
    level: Option<Level>,
    message: MessageView,
) -> bool {
    &&& text::includes(message.message, pattern)
    &&& level is None || level == Some(message.level)
}

/// `at` is the position of the first announced message.
pub open spec fn is_first(
    messages: Seq<MessageView>,
    pattern: Seq<char>,
    level: Option<Level>,
    at: int,
) -> bool {
    &&& 0 <= at < messages.len()
    &&& announces(pattern, level, messages[at])
    &&& forall|k: int| 0 <= k < at ==> !announces(pattern, level, #[trigger] messages[k])
}

/// The position of the first announced message.
pub open spec fn position(
    messages: Seq<MessageView>,
    pattern: Seq<char>,
    level: Option<Level>,
) -> Option<int> {
    if exists|at: int| is_first(messages, pattern, level, at) {
        Some(choose|at: int| is_first(messages, pattern, level, at))
    } else {
        None
    }
}

/// The diagnostics that no annotation has claimed yet.
pub struct Pending {
    /// The diagnostics of each line of the test file.
    pub lines: Seq<Seq<MessageView>>,
    /// The diagnostics that belong to no line.
    pub unknown: Seq<MessageView>,
}

/// `line` is the first line with an announced message.
pub open spec fn is_first_line(
    lines: Seq<Seq<MessageView>>,
    pattern: Seq<char>,
    line: int,
) -> bool {
    &&& 0 <= line < lines.len()
    &&& position(lines[line], pattern, None) is Some
    &&& forall|k: int| 0 <= k < line ==> position(#[trigger] lines[k], pattern, None) is None
}

/// The lines without one message.
pub open spec fn without(
    lines: Seq<Seq<MessageView>>,
    line: int,
    at: int,
) -> Seq<Seq<MessageView>> {
    lines.update(line, lines[line].remove(at))
}

/// What is left once a text that is announced for no line in particular has claimed a message:
/// preferably one that belongs to no line, else the first one of the first line that has one.
/// `None` where there is no such message.
pub open spec fn after_pattern(pending: Pending, pattern: Seq<char>) -> Option<Pending> {
    match position(pending.unknown, pattern, None) {
        Some(at) => Some(Pending { unknown: pending.unknown.remove(at), ..pending }),
        None => if exists|line: int| is_first_line(pending.lines, pattern, line) {
            let line = choose|line: int| is_first_line(pending.lines, pattern, line);
            let at = position(pending.lines[line], pattern, None).unwrap();
            Some(Pending { lines: without(pending.lines, line, at), ..pending })
        } else {
            None
        },
    }
}

/// An annotation counts in a revision unless it is made for another one.
pub open spec fn applies(annotation: ErrorMatchView, revision: Seq<char>) -> bool {
    annotation.revision is None || annotation.revision == Some(revision)
}

/// The message that an annotation claims, by its position on the annotation's line.
pub open spec fn claimed(
    lines: Seq<Seq<MessageView>>,
    annotation: ErrorMatchView,
) -> Option<int> {
    if annotation.line < lines.len() {
        position(lines[annotation.line as int], annotation.matched, annotation.level)
    } else {
        None
    }
}

/// What is left once an annotation has claimed its message.
pub open spec fn after_match(
    lines: Seq<Seq<MessageView>>,
    annotation: ErrorMatchView,
    revision: Seq<char>,
) -> Seq<Seq<MessageView>> {
    if applies(annotation, revision) && claimed(lines, annotation) is Some {
        without(lines, annotation.line as int, claimed(lines, annotation).unwrap())
    } else {
        lines
    }
}

/// What is wrong with an annotation: it finds nothing to claim, or it claims an error without
/// saying that it is one.
pub open spec fn match_errors(
    lines: Seq<Seq<MessageView>>,
    annotation: ErrorMatchView,
    revision: Seq<char>,
    path: TestPathView,
) -> Seq<ErrorView> {
    if !applies(annotation, revision) {
        Seq::empty()
    } else {
        match claimed(lines, annotation) {
            None => seq![
                ErrorView::PatternNotFound {
                    pattern: annotation.matched,
                    definition_line: annotation.definition_line,
                },
            ],
            Some(at) => if annotation.level is None && lines[annotation.line as int][at].level
                == Level::Error {
                seq![ErrorView::ErrorPatternWithoutErrorAnnotation(path, annotation.line)]
            } else {
                Seq::empty()
            },
        }
    }
}

/// What is left once all annotations have claimed their messages, each from what those before it
/// left.
pub open spec fn after_matches(
    lines: Seq<Seq<MessageView>>,
    annotations: Seq<ErrorMatchView>,
    revision: Seq<char>,
) -> Seq<Seq<MessageView>>
    decreases annotations.len(),
{
    if annotations.len() == 0 {
        lines
    } else {
        after_match(
            after_matches(lines, annotations.drop_last(), revision),
            annotations.last(),
            revision,
        )
    }
}

/// What is wrong with the annotations, in their order.
pub open spec fn matches_errors(
    lines: Seq<Seq<MessageView>>,
    annotations: Seq<ErrorMatchView>,
    revision: Seq<char>,
    path: TestPathView,
) -> Seq<ErrorView>
    decreases annotations.len(),
{
    if annotations.len() == 0 {
        Seq::empty()
    } else {
        matches_errors(lines, annotations.drop_last(), revision, path) + match_errors(
            after_matches(lines, annotations.drop_last(), revision),
            annotations.last(),
            revision,
            path,
        )
    }
}

/// The lowest level that an annotation of the revision names; `Error` where none names one.
pub open spec fn lowest_level(annotations: Seq<ErrorMatchView>, revision: Seq<char>) -> Level
    decreases annotations.len(),
{
    if annotations.len() == 0 {
        Level::Error
    } else {
        let before = lowest_level(annotations.drop_last(), revision);
        let annotation = annotations.last();
        match annotation.level {
            Some(level) => if applies(annotation, revision) && severity(level) < severity(before) {
                level
            } else {
                before
            },
            None => before,
        }
    }
}

/// The test whether a message is of the level `lowest` or a higher one.
pub open spec fn is_severe(lowest: Level) -> spec_fn(MessageView) -> bool {
    |m: MessageView| severity(m.level) >= severity(lowest)
}

/// The messages of the level `lowest` and the higher ones.
pub open spec fn severe(messages: Seq<MessageView>, lowest: Level) -> Seq<MessageView> {
    messages.filter(is_severe(lowest))
}

/// One error for each line with severe messages that nothing announced.
pub open spec fn unannounced_errors(
    lines: Seq<Seq<MessageView>>,
    lowest: Level,
    path: TestPathView,
) -> Seq<ErrorView>
    decreases lines.len(),
{
    if lines.len() == 0 {
        Seq::empty()
    } else {
        let before = unannounced_errors(lines.drop_last(), lowest, path);
        let msgs = severe(lines.last(), lowest);
        if msgs.len() > 0 {
            before.push(
                ErrorView::ErrorsWithoutPattern {
                    msgs,
                    path: Some((path, (lines.len() - 1) as usize)),
                },
            )
        } else {
            before
        }
    }
}

/// What a test file announces.
pub struct Annotations {
    /// A text that some diagnostic holds, and the line that announces it.
    pub error_pattern: Option<(Seq<char>, usize)>,
    /// The diagnostics that are announced for single lines.
    pub error_matches: Seq<ErrorMatchView>,
}

impl Annotations {
    /// The diagnostics that the text for no particular line leaves.
    pub open spec fn after_pattern(self, pending: Pending) -> Pending {
        match self.error_pattern {
            Some((pattern, _)) => match after_pattern(pending, pattern) {
                Some(left) => left,
                None => pending,
            },
            None => pending,
        }
    }

    /// The diagnostics that all annotations leave.
    pub open spec fn leftover(self, pending: Pending, revision: Seq<char>) -> Pending {
        let left = self.after_pattern(pending);
        Pending { lines: after_matches(left.lines, self.error_matches, revision), ..left }
    }

    /// The lowest level of which every diagnostic has to be announced.
    pub open spec fn lowest(self, revision: Seq<char>) -> Level {
        lowest_level(self.error_matches, revision)
    }

    /// The error for a text that no diagnostic holds.
    pub open spec fn pattern_errors(self, pending: Pending) -> Seq<ErrorView> {
        match self.error_pattern {
            Some((pattern, definition_line)) => if after_pattern(pending, pattern) is None {
                seq![ErrorView::PatternNotFound { pattern, definition_line }]
            } else {
                Seq::empty()
            },
            None => Seq::empty(),
        }
    }

    /// The errors for severe diagnostics that nothing announced.
    pub open spec fn leftover_errors(
        self,
        pending: Pending,
        revision: Seq<char>,
        path: TestPathView,
    ) -> Seq<ErrorView> {
        let left = self.leftover(pending, revision);
        let lowest = self.lowest(revision);
        let msgs = severe(left.unknown, lowest);
        (if msgs.len() > 0 {
            seq![ErrorView::ErrorsWithoutPattern { msgs, path: None }]
        } else {
            Seq::empty()
        }) + unannounced_errors(left.lines, lowest, path)
    }

    /// Whether the test file announces anything at all.
    pub open spec fn any(self) -> bool {
        self.error_pattern is Some || self.error_matches.len() > 0
    }

    /// Only a test that is to fail has something to announce, and it has to.
    pub open spec fn mode_errors(self, mode: Mode) -> Seq<ErrorView> {
        if self.any() && mode != Mode::Fail {
            seq![ErrorView::PatternFoundInPassTest]
        } else if !self.any() && mode == Mode::Fail {
            seq![ErrorView::NoPatternsFound]
        } else {
            Seq::empty()
        }
    }

    /// Everything that is wrong with the diagnostics, seen from the annotations.
    pub open spec fn errors(
        self,
        pending: Pending,
        revision: Seq<char>,
        path: TestPathView,
        mode: Mode,
    ) -> Seq<ErrorView> {
        self.pattern_errors(pending) + matches_errors(
            self.after_pattern(pending).lines,
            self.error_matches,
            revision,
            path,
        ) + self.leftover_errors(pending, revision, path) + self.mode_errors(mode)
    }
}

/// The values of some annotations.
pub open spec fn match_views(matches: Seq<ErrorMatch>) -> Seq<ErrorMatchView> {
    matches.map_values(|m: ErrorMatch| m@)
}

impl Comments {
    /// What the test file announces.
    pub open spec fn annotations(self) -> Annotations {
        Annotations {
            error_pattern: match self.error_pattern {
                Some((pattern, line)) => Some((pattern@, line)),
                None => None,
            },
            error_matches: match_views(self.error_matches@),
        }
    }
}

/// Looks for the first announced message.
fn find(messages: &Vec<Message>, pattern: &str, level: Option<Level>) -> (found: Option<usize>)
    ensures
        match found {
            Some(at) => is_first(message_views(messages@), pattern@, level, at as int) && position(
                message_views(messages@),
                pattern@,
                level,
            ) == Some(at as int),
            None => position(message_views(messages@), pattern@, level) is None,
        },
{
    let ghost views = message_views(messages@);
    let mut i: usize = 0;
    while i < messages.len()
        invariant
            i <= messages.len(),
            views == message_views(messages@),
            forall|k: int| 0 <= k < i ==> !announces(pattern@, level, #[trigger] views[k]),
        decreases messages.len() - i,
    {
        let right_level: bool = match level {
            Some(l) => messages[i].level == l,
            None => true,
        };
        assert(views[i as int] == messages@[i as int]@);
        if right_level && text::contains(messages[i].message.as_str(), pattern) {
            assert(is_first(views, pattern@, level, i as int));
            let ghost at = choose|at: int| is_first(views, pattern@, level, at);
            assert(at == i as int) by {
                if at < i {
                    assert(!announces(pattern@, level, views[at]));
                } else if at > i {
                    assert(!announces(pattern@, level, views[i as int]));
                }
            }
            return Some(i);
        }
        i += 1;
    }
    None
}

/// Takes one message away.
fn take(lines: &mut Vec<Vec<Message>>, line: usize, at: usize) -> (message: Message)
    requires
        line < old(lines).len(),
        at < old(lines)@[line as int].len(),
    ensures
        line_views(final(lines)@) == without(line_views(old(lines)@), line as int, at as int),
        message@ == line_views(old(lines)@)[line as int][at as int],
{
    let message = lines[line].remove(at);
    assert(line_views(lines@) =~= without(line_views(old(lines)@), line as int, at as int)) by {
        assert(message_views(lines@[line as int]@) =~= message_views(
            old(lines)@[line as int]@,
        ).remove(at as int));
    }
    message
}

/// Lets a text that is announced for no line in particular claim a message.
fn claim_pattern(
    messages: &mut Vec<Vec<Message>>,
    unknown: &mut Vec<Message>,
    pattern: &str,
) -> (found: bool)
    ensures
        ({
            let before = Pending {
                lines: line_views(old(messages)@),
                unknown: message_views(old(unknown)@),
            };
            let after = Pending {
                lines: line_views(final(messages)@),
                unknown: message_views(final(unknown)@),
            };
            match after_pattern(before, pattern@) {
                Some(left) => found && after == left,
                None => !found && after == before,
            }
        }),
{
    // Messages that belong to no line come first, so that the text can be combined with
    // annotations for lines that say the same.
    if let Some(at) = find(unknown, pattern, None) {
        unknown.remove(at);
        assert(message_views(unknown@) =~= message_views(old(unknown)@).remove(at as int));
        return true;
    }
    let ghost lines = line_views(messages@);
    let mut line: usize = 0;
    while line < messages.len()
        invariant
            line <= messages.len(),
            *messages == *old(messages),
            lines == line_views(messages@),
            *unknown == *old(unknown),
            position(message_views(unknown@), pattern@, None) is None,
            forall|k: int| 0 <= k < line ==> position(#[trigger] lines[k], pattern@, None) is None,
        decreases messages.len() - line,
    {
        assert(lines[line as int] == message_views(messages@[line as int]@));
        if let Some(at) = find(&messages[line], pattern, None) {
            assert(is_first_line(lines, pattern@, line as int));
            let ghost first = choose|l: int| is_first_line(lines, pattern@, l);
            assert(first == line as int) by {
                if first < line {
                    assert(position(lines[first], pattern@, None) is None);
                } else if first > line {
                    assert(position(lines[line as int], pattern@, None) is None);
                }
            }
            let _ = take(messages, line, at);
            return true;
        }
        line += 1;
    }
    assert forall|l: int| !is_first_line(lines, pattern@, l) by {
        if 0 <= l < lines.len() {
            assert(position(lines[l], pattern@, None) is None);
        }
    }
    false
}

/// Keeps the messages of the level `lowest` and the higher ones.
fn keep_severe(messages: Vec<Message>, lowest: Level) -> (kept: Vec<Message>)
    ensures
        message_views(kept@) == severe(message_views(messages@), lowest),
{
    let ghost views = message_views(messages@);
    let ghost pred = is_severe(lowest);
    let mut kept: Vec<Message> = Vec::new();
    assert(views.take(0).filter(pred) =~= Seq::<MessageView>::empty()) by {
        reveal(Seq::filter);
    }
    for message in it: messages
        invariant
            it.seq() == messages@,
            views == message_views(messages@),
            pred == is_severe(lowest),
            message_views(kept@) == views.take(it.index() as int).filter(pred),
    {
        let ghost before = kept@;
        let ghost i = it.index() as int;
        proof {
            assert(views.take(i + 1) =~= views.take(i).push(views[i]));
            views.take(i).lemma_filter_push(views[i], pred);
            assert(views[i] == message@);
        }
        if message.level.at_least(lowest) {
            kept.push(message);
            assert(message_views(kept@) =~= message_views(before).push(message@));
        }
    }
    assert(views.take(messages@.len() as int) =~= views);
    kept
}

/// Whether an annotation counts in a revision.
fn is_for(annotation: &ErrorMatch, revision: &str) -> (b: bool)
    ensures
        b == applies(annotation@, revision@),
{
    match &annotation.revision {
        Some(rev) => text::same(rev.as_str(), revision),
        None => true,
    }
}

/// Lets an annotation of the revision claim its message.
fn claim_match(
    messages: &mut Vec<Vec<Message>>,
    annotation: &ErrorMatch,
    path: &TestPath,
    errors: &mut Errors,
    Ghost(revision): Ghost<Seq<char>>,
)
    requires
        applies(annotation@, revision),
    ensures
        line_views(final(messages)@) == after_match(
            line_views(old(messages)@),
            annotation@,
            revision,
        ),
        error_views(final(errors)@) == error_views(old(errors)@) + match_errors(
            line_views(old(messages)@),
            annotation@,
            revision,
            path@,
        ),
{
    let ghost lines = line_views(messages@);
    let ghost before = error_views(errors@);
    let line: usize = annotation.line;
    if line < messages.len() {
        assert(lines[line as int] == message_views(messages@[line as int]@));
        if let Some(at) = find(&messages[line], annotation.matched.as_str(), annotation.level) {
            let message = take(messages, line, at);
            if message.level == Level::Error && annotation.level.is_none() {
                errors.push(Error::ErrorPatternWithoutErrorAnnotation(path.clone(), line));
                assert(error_views(errors@) =~= before.push(
                    ErrorView::ErrorPatternWithoutErrorAnnotation(path@, line),
                ));
            }
            return;
        }
    }
    errors.push(
        Error::PatternNotFound {
            pattern: annotation.matched.clone(),
            definition_line: annotation.definition_line,
        },
    );
    assert(error_views(errors@) =~= before.push(
        ErrorView::PatternNotFound {
            pattern: annotation@.matched,
            definition_line: annotation.definition_line,
        },
    ));
}

/// Reports the severe messages that nothing announced.
fn report_leftover(
    messages: Vec<Vec<Message>>,
    unknown: Vec<Message>,
    lowest: Level,
    path: &TestPath,
    errors: &mut Errors,
)
    ensures
        error_views(final(errors)@) == error_views(old(errors)@) + (if severe(
            message_views(unknown@),
            lowest,
        ).len() > 0 {
            seq![
                ErrorView::ErrorsWithoutPattern {
                    msgs: severe(message_views(unknown@), lowest),
                    path: None,
                },
            ]
        } else {
            Seq::empty()
        }) + unannounced_errors(line_views(messages@), lowest, path@),
{
    let ghost start = error_views(errors@);
    let kept = keep_severe(unknown, lowest);
    if kept.len() > 0 {
        errors.push(Error::ErrorsWithoutPattern { msgs: kept, path: None });
        assert(error_views(errors@) =~= start.push(errors@.last()@));
    }
    let ghost base = error_views(errors@);
    let ghost lines = line_views(messages@);
    let count: usize = messages.len();
    let mut line: usize = 0;
    for msgs in it: messages
        invariant
            it.seq() == messages@,
            count == messages@.len(),
            line == it.index(),
            lines == line_views(messages@),
            error_views(errors@) == base + unannounced_errors(
                lines.take(line as int),
                lowest,
                path@,
            ),
    {
        let ghost before = error_views(errors@);
        proof {
            assert(lines.take(line + 1).drop_last() =~= lines.take(line as int));
            assert(lines.take(line + 1).last() == message_views(msgs@));
            assert(line < messages@.len());
        }
        let kept = keep_severe(msgs, lowest);
        if kept.len() > 0 {
            errors.push(
                Error::ErrorsWithoutPattern { msgs: kept, path: Some((path.clone(), line)) },
            );
            assert(error_views(errors@) =~= before.push(errors@.last()@));
        }
        line += 1;
    }
    assert(lines.take(lines.len() as int) =~= lines);
}

/// Lets the text that is announced for no line in particular claim a message.
fn check_pattern(
    messages: &mut Vec<Vec<Message>>,
    unknown: &mut Vec<Message>,
    errors: &mut Errors,
    comments: &Comments,
)
    ensures
        ({
            let before = Pending {
                lines: line_views(old(messages)@),
                unknown: message_views(old(unknown)@),
            };
            let after = Pending {
                lines: line_views(final(messages)@),
                unknown: message_views(final(unknown)@),
            };
            &&& after == comments.annotations().after_pattern(before)
            &&& error_views(final(errors)@) == error_views(old(errors)@)
                + comments.annotations().pattern_errors(before)
        }),
{
    let ghost start = error_views(errors@);
    if let Some((error_pattern, definition_line)) = &comments.error_pattern {
        if !claim_pattern(messages, unknown, error_pattern.as_str()) {
            errors.push(
                Error::PatternNotFound {
                    pattern: error_pattern.clone(),
                    definition_line: *definition_line,
                },
            );
            assert(error_views(errors@) =~= start.push(errors@.last()@));
        }
    }
}

/// Lets the annotations for single lines claim their messages. The result is the lowest level of
/// which every diagnostic has to be announced.
fn check_matches(
    messages: &mut Vec<Vec<Message>>,
    path: &TestPath,
    errors: &mut Errors,
    revision: &str,
    error_matches: &Vec<ErrorMatch>,
) -> (lowest: Level)
    ensures
        lowest == lowest_level(match_views(error_matches@), revision@),
        line_views(final(messages)@) == after_matches(
            line_views(old(messages)@),
            match_views(error_matches@),
            revision@,
        ),
        error_views(final(errors)@) == error_views(old(errors)@) + matches_errors(
            line_views(old(messages)@),
            match_views(error_matches@),
            revision@,
            path@,
        ),
{
    let ghost lines = line_views(messages@);
    let ghost base = error_views(errors@);
    let ghost matches = match_views(error_matches@);
    let mut lowest: Level = Level::Error;
    let mut i: usize = 0;
    assert(matches.take(0) =~= Seq::empty());
    while i < error_matches.len()
        invariant
            i <= error_matches.len(),
            matches == match_views(error_matches@),
            lowest == lowest_level(matches.take(i as int), revision@),
            line_views(messages@) == after_matches(lines, matches.take(i as int), revision@),
            error_views(errors@) == base + matches_errors(
                lines,
                matches.take(i as int),
                revision@,
                path@,
            ),
        decreases error_matches.len() - i,
    {
        let annotation = &error_matches[i];
        proof {
            assert(matches.take(i + 1).drop_last() =~= matches.take(i as int));
            assert(matches.take(i + 1).last() == annotation@);
        }
        if is_for(annotation, revision) {
            if let Some(level) = annotation.level {
                // Wherever a level is named, all diagnostics of that level need annotations, even
                // if this one finds nothing.
                if !level.at_least(lowest) {
                    lowest = level;
                }
            }
            claim_match(messages, annotation, path, errors, Ghost(revision@));
        }
        i += 1;
    }
    assert(matches.take(matches.len() as int) =~= matches);
    lowest
}

/// Checks that a test which is to fail announces something, and no other test does.
fn check_mode(mode: Mode, errors: &mut Errors, comments: &Comments)
    ensures
        error_views(final(errors)@) == error_views(old(errors)@)
            + comments.annotations().mode_errors(mode),
{
    let ghost before = error_views(errors@);
    let any: bool = comments.error_pattern.is_some() || comments.error_matches.len() > 0;
    match (mode, any) {
        (Mode::Pass, true) | (Mode::Panic, true) => {
            errors.push(Error::PatternFoundInPassTest);
            assert(error_views(errors@) =~= before.push(errors@.last()@));
        },
        (Mode::Fail, false) => {
            errors.push(Error::NoPatternsFound);
            assert(error_views(errors@) =~= before.push(errors@.last()@));
        },
        _ => {},
    }
}

/// Checks the diagnostics of a test against its annotations.
///
/// Every annotation of the revision claims one diagnostic. What is left has to be below the lowest
/// level that such an annotation names.
pub fn check_annotations(
    messages: Vec<Vec<Message>>,
    messages_from_unknown_file_or_line: Vec<Message>,
    path: &TestPath,
    errors: &mut Errors,
    config: &Config,
    revision: &str,
    comments: &Comments,
)
    ensures
        error_views(final(errors)@) == error_views(old(errors)@) + comments.annotations().errors(
            Pending {
                lines: line_views(messages@),
                unknown: message_views(messages_from_unknown_file_or_line@),
            },
            revision@,
            path@,
            config.mode,
        ),
{
    let ghost annotations = comments.annotations();
    let ghost pending = Pending {
        lines: line_views(messages@),
        unknown: message_views(messages_from_unknown_file_or_line@),
    };
    let ghost e0 = error_views(errors@);
    let mut messages = messages;
    let mut unknown = messages_from_unknown_file_or_line;
    check_pattern(&mut messages, &mut unknown, errors, comments);
    let ghost e1 = annotations.pattern_errors(pending);
    let ghost lines = line_views(messages@);
    let lowest = check_matches(&mut messages, path, errors, revision, &comments.error_matches);
    let ghost e2 = matches_errors(lines, annotations.error_matches, revision@, path@);
    report_leftover(messages, unknown, lowest, path, errors);
    let ghost e3 = annotations.leftover_errors(pending, revision@, path@);
    assert(error_views(errors@) =~= e0 + e1 + e2 + e3);
    check_mode(config.mode, errors, comments);
    let ghost e4 = annotations.mode_errors(config.mode);
    assert(e0 + e1 + e2 + e3 + e4 =~= e0 + (e1 + e2 + e3 + e4));
}

} // verus!
