//! What becomes of each announcement and of each diagnostic, one at a time.

use crate::annotations::{
    after_match, after_matches, after_pattern, announces, is_first, is_first_line, is_severe,
    lowest_level, match_errors, matches_errors, position, severe, unannounced_errors, Annotations,
    Pending,
};
use crate::comments::{Comments, ErrorMatchView};
use crate::config::Mode;
use crate::diagnostics::{severity, Level, MessageView};
use crate::error::ErrorView;
use crate::path::TestPathView;
use crate::text;
use vstd::prelude::*;

verus! {

/// Something is wrong with an announcement.
pub open spec fn is_fault(error: ErrorView) -> bool {
    error is PatternNotFound || error is ErrorPatternWithoutErrorAnnotation
}

/// What is wrong with the announcements.
#[verifier::opaque]
pub open spec fn faults(errors: Seq<ErrorView>) -> Seq<ErrorView> {
    errors.filter(|e: ErrorView| is_fault(e))
}

/// The diagnostics that nothing announced.
#[verifier::opaque]
pub open spec fn unannounced(errors: Seq<ErrorView>) -> Seq<ErrorView> {
    errors.filter(|e: ErrorView| e is ErrorsWithoutPattern)
}

/// What is wrong with the announcements as a whole.
#[verifier::opaque]
pub open spec fn mode_faults(errors: Seq<ErrorView>) -> Seq<ErrorView> {
    errors.filter(|e: ErrorView| e is PatternFoundInPassTest || e is NoPatternsFound)
}

/// The place of an error in the order in which errors are reported: faults of announcements, then
/// diagnostics of no line, then those of each line, then faults of the announcements as a whole.
pub open spec fn place(error: ErrorView) -> (int, int) {
    match error {
        ErrorView::ErrorsWithoutPattern { msgs: _, path: None } => (1, 0),
        ErrorView::ErrorsWithoutPattern { msgs: _, path: Some((_, line)) } => (2, line as int),
        ErrorView::PatternFoundInPassTest => (3, 0),
        ErrorView::NoPatternsFound => (3, 0),
        _ => (0, 0),
    }
}

impl Annotations {
    /// The same announcements and one more behind them.
    pub open spec fn with(self, annotation: ErrorMatchView) -> Annotations {
        Annotations { error_matches: self.error_matches.push(annotation), ..self }
    }
}

/// A diagnostic holds the text of an annotation, and is of its level where it names one.
pub open spec fn fits(annotation: ErrorMatchView, message: MessageView) -> bool {
    &&& text::includes(message.message, annotation.matched)
    &&& annotation.level matches Some(level) ==> message.level == level
}

proof fn lemma_filter_all<A>(s: Seq<A>, pred: spec_fn(A) -> bool)
    requires
        forall|i: int| 0 <= i < s.len() ==> #[trigger] pred(s[i]),
    ensures
        s.filter(pred) == s,
    decreases s.len(),
{
    reveal(Seq::filter);
    if s.len() > 0 {
        assert forall|i: int| 0 <= i < s.drop_last().len() implies #[trigger] pred(
            s.drop_last()[i],
        ) by {
            assert(pred(s[i]));
        }
        lemma_filter_all(s.drop_last(), pred);
        assert(pred(s[s.len() - 1]));
        assert(s.drop_last().push(s.last()) =~= s);
    }
}

proof fn lemma_filter_none<A>(s: Seq<A>, pred: spec_fn(A) -> bool)
    requires
        forall|i: int| 0 <= i < s.len() ==> !#[trigger] pred(s[i]),
    ensures
        s.filter(pred) == Seq::<A>::empty(),
    decreases s.len(),
{
    reveal(Seq::filter);
    if s.len() > 0 {
        assert forall|i: int| 0 <= i < s.drop_last().len() implies !#[trigger] pred(
            s.drop_last()[i],
        ) by {
            assert(!pred(s[i]));
        }
        lemma_filter_none(s.drop_last(), pred);
        assert(!pred(s[s.len() - 1]));
    }
}

proof fn lemma_position_first(
    messages: Seq<MessageView>,
    pattern: Seq<char>,
    level: Option<Level>,
    at: int,
)
    requires
        is_first(messages, pattern, level, at),
    ensures
        position(messages, pattern, level) == Some(at),
{
    let found = choose|k: int| is_first(messages, pattern, level, k);
    assert(is_first(messages, pattern, level, found));
    assert(found == at);
}

proof fn lemma_matches_errors_are_faults(
    lines: Seq<Seq<MessageView>>,
    annotations: Seq<ErrorMatchView>,
    revision: Seq<char>,
    path: TestPathView,
)
    ensures
        forall|i: int|
            0 <= i < matches_errors(lines, annotations, revision, path).len() ==> is_fault(
                #[trigger] matches_errors(lines, annotations, revision, path)[i],
            ),
    decreases annotations.len(),
{
    if annotations.len() > 0 {
        lemma_matches_errors_are_faults(lines, annotations.drop_last(), revision, path);
        let before = matches_errors(lines, annotations.drop_last(), revision, path);
        let errors = matches_errors(lines, annotations, revision, path);
        assert forall|i: int| 0 <= i < errors.len() implies is_fault(#[trigger] errors[i]) by {
            if i < before.len() {
                assert(errors[i] == before[i]);
            }
        }
    }
}

/// Each error for a line is about severe diagnostics of that line, and the lines go up.
proof fn lemma_unannounced_errors(lines: Seq<Seq<MessageView>>, lowest: Level, path: TestPathView)
    requires
        lines.len() <= usize::MAX,
    ensures
        ({
            let errors = unannounced_errors(lines, lowest, path);
            &&& forall|i: int|
                0 <= i < errors.len() ==> (#[trigger] errors[i] matches
                    ErrorView::ErrorsWithoutPattern { msgs, path: Some((p, line)) } && p == path
                    && line < lines.len() && msgs.len() > 0 && msgs == severe(
                    lines[line as int],
                    lowest,
                ))
            &&& forall|i: int, j: int|
                0 <= i < j < errors.len() ==> place(#[trigger] errors[i]).1 < place(
                    #[trigger] errors[j],
                ).1
            &&& forall|line: int|
                0 <= line < lines.len() && severe(#[trigger] lines[line], lowest).len() > 0
                    ==> errors.contains(
                    ErrorView::ErrorsWithoutPattern {
                        msgs: severe(lines[line], lowest),
                        path: Some((path, line as usize)),
                    },
                )
        }),
    decreases lines.len(),
{
    if lines.len() > 0 {
        let init = lines.drop_last();
        lemma_unannounced_errors(init, lowest, path);
        let before = unannounced_errors(init, lowest, path);
        let errors = unannounced_errors(lines, lowest, path);
        let n = init.len() as int;
        assert forall|i: int| 0 <= i < errors.len() implies (#[trigger] errors[i] matches
            ErrorView::ErrorsWithoutPattern { msgs, path: Some((p, line)) } && p == path && line
            < lines.len() && msgs.len() > 0 && msgs == severe(lines[line as int], lowest)) by {
            if i < before.len() {
                assert(errors[i] == before[i]);
            }
        }
        assert forall|i: int, j: int| 0 <= i < j < errors.len() implies place(
            #[trigger] errors[i],
        ).1 < place(#[trigger] errors[j]).1 by {
            assert(errors[i] == before[i]);
            if j < before.len() {
                assert(errors[j] == before[j]);
            }
        }
        assert forall|line: int|
            0 <= line < lines.len() && severe(#[trigger] lines[line], lowest).len()
                > 0 implies errors.contains(
            ErrorView::ErrorsWithoutPattern {
                msgs: severe(lines[line], lowest),
                path: Some((path, line as usize)),
            },
        ) by {
            let error = ErrorView::ErrorsWithoutPattern {
                msgs: severe(lines[line], lowest),
                path: Some((path, line as usize)),
            };
            if line < n {
                assert(init[line] == lines[line]);
                let i = before.index_of(error);
                assert(errors[i] == before[i]);
            } else {
                assert(errors[errors.len() - 1] == error);
            }
        }
    }
}

proof fn lemma_filter_parts(
    e1: Seq<ErrorView>,
    e2: Seq<ErrorView>,
    e3: Seq<ErrorView>,
    e4: Seq<ErrorView>,
    pred: spec_fn(ErrorView) -> bool,
)
    ensures
        (e1 + e2 + e3 + e4).filter(pred) == e1.filter(pred) + e2.filter(pred) + e3.filter(pred)
            + e4.filter(pred),
{
    Seq::filter_distributes_over_add(e1 + e2 + e3, e4, pred);
    Seq::filter_distributes_over_add(e1 + e2, e3, pred);
    Seq::filter_distributes_over_add(e1, e2, pred);
}

/// Errors that come kind by kind can be taken apart again.
proof fn lemma_kinds(
    e1: Seq<ErrorView>,
    e2: Seq<ErrorView>,
    e3: Seq<ErrorView>,
    e4: Seq<ErrorView>,
)
    requires
        forall|i: int| 0 <= i < e1.len() ==> is_fault(#[trigger] e1[i]),
        forall|i: int| 0 <= i < e2.len() ==> is_fault(#[trigger] e2[i]),
        forall|i: int| 0 <= i < e3.len() ==> (#[trigger] e3[i]) is ErrorsWithoutPattern,
        forall|i: int|
            0 <= i < e4.len() ==> (#[trigger] e4[i]) is PatternFoundInPassTest
                || e4[i] is NoPatternsFound,
    ensures
        faults(e1 + e2 + e3 + e4) == e1 + e2,
        unannounced(e1 + e2 + e3 + e4) == e3,
        mode_faults(e1 + e2 + e3 + e4) == e4,
{
    reveal(faults);
    reveal(unannounced);
    reveal(mode_faults);
    let f = |e: ErrorView| is_fault(e);
    let u = |e: ErrorView| e is ErrorsWithoutPattern;
    let m = |e: ErrorView| e is PatternFoundInPassTest || e is NoPatternsFound;
    lemma_filter_parts(e1, e2, e3, e4, f);
    lemma_filter_parts(e1, e2, e3, e4, u);
    lemma_filter_parts(e1, e2, e3, e4, m);
    lemma_filter_all(e1, f);
    lemma_filter_all(e2, f);
    lemma_filter_none(e3, f);
    lemma_filter_none(e4, f);
    lemma_filter_none(e1, u);
    lemma_filter_none(e2, u);
    lemma_filter_all(e3, u);
    lemma_filter_none(e4, u);
    lemma_filter_none(e1, m);
    lemma_filter_none(e2, m);
    lemma_filter_none(e3, m);
    lemma_filter_all(e4, m);
    assert(faults(e1 + e2 + e3 + e4) =~= e1 + e2);
    assert(unannounced(e1 + e2 + e3 + e4) =~= e3);
    assert(mode_faults(e1 + e2 + e3 + e4) =~= e4);
}

/// The errors for what is left over.
spec fn errors_for(
    unknown: Seq<MessageView>,
    lines: Seq<Seq<MessageView>>,
    lowest: Level,
    path: TestPathView,
) -> Seq<ErrorView> {
    (if severe(unknown, lowest).len() > 0 {
        seq![ErrorView::ErrorsWithoutPattern { msgs: severe(unknown, lowest), path: None }]
    } else {
        Seq::empty()
    }) + unannounced_errors(lines, lowest, path)
}

proof fn lemma_errors_for(
    unknown: Seq<MessageView>,
    lines: Seq<Seq<MessageView>>,
    lowest: Level,
    path: TestPathView,
)
    requires
        lines.len() <= usize::MAX,
    ensures
        forall|i: int|
            0 <= i < errors_for(unknown, lines, lowest, path).len() ==> (#[trigger] errors_for(
                unknown,
                lines,
                lowest,
                path,
            )[i]) is ErrorsWithoutPattern,
{
    lemma_unannounced_errors(lines, lowest, path);
    let errors = errors_for(unknown, lines, lowest, path);
    let per_line = unannounced_errors(lines, lowest, path);
    let n = errors.len() - per_line.len();
    assert forall|i: int| 0 <= i < errors.len() implies (
    #[trigger] errors[i]) is ErrorsWithoutPattern by {
        if i >= n {
            assert(errors[i] == per_line[i - n]);
        }
    }
}

/// The kinds of errors that a check finds, taken apart.
proof fn lemma_parts(
    annotations: Annotations,
    pending: Pending,
    revision: Seq<char>,
    path: TestPathView,
    mode: Mode,
)
    requires
        pending.lines.len() <= usize::MAX,
    ensures
        ({
            let errors = annotations.errors(pending, revision, path, mode);
            let lines = annotations.after_pattern(pending).lines;
            let left = annotations.leftover(pending, revision);
            &&& faults(errors) == annotations.pattern_errors(pending) + matches_errors(
                lines,
                annotations.error_matches,
                revision,
                path,
            )
            &&& unannounced(errors) == errors_for(
                left.unknown,
                left.lines,
                annotations.lowest(revision),
                path,
            )
            &&& mode_faults(errors) == annotations.mode_errors(mode)
        }),
{
    let lines = annotations.after_pattern(pending).lines;
    let left = annotations.leftover(pending, revision);
    let e1 = annotations.pattern_errors(pending);
    let e2 = matches_errors(lines, annotations.error_matches, revision, path);
    let e3 = errors_for(left.unknown, left.lines, annotations.lowest(revision), path);
    let e4 = annotations.mode_errors(mode);
    assert(annotations.errors(pending, revision, path, mode) == e1 + e2 + e3 + e4);
    assert(left.lines.len() <= usize::MAX) by {
        lemma_after_pattern_len(annotations, pending);
        lemma_after_matches_len(lines, annotations.error_matches, revision);
    }
    lemma_matches_errors_are_faults(lines, annotations.error_matches, revision, path);
    lemma_errors_for(left.unknown, left.lines, annotations.lowest(revision), path);
    lemma_kinds(e1, e2, e3, e4);
}

proof fn lemma_after_matches_len(
    lines: Seq<Seq<MessageView>>,
    annotations: Seq<ErrorMatchView>,
    revision: Seq<char>,
)
    ensures
        after_matches(lines, annotations, revision).len() == lines.len(),
    decreases annotations.len(),
{
    if annotations.len() > 0 {
        lemma_after_matches_len(lines, annotations.drop_last(), revision);
    }
}

proof fn lemma_after_pattern_len(annotations: Annotations, pending: Pending)
    ensures
        annotations.after_pattern(pending).lines.len() == pending.lines.len(),
{
}

/// One more annotation claims from what is left.
proof fn lemma_with(
    annotations: Annotations,
    annotation: ErrorMatchView,
    pending: Pending,
    revision: Seq<char>,
    path: TestPathView,
    mode: Mode,
)
    requires
        pending.lines.len() <= usize::MAX,
    ensures
        ({
            let more = annotations.with(annotation);
            let left = annotations.leftover(pending, revision);
            &&& more.leftover(pending, revision) == (Pending {
                lines: after_match(left.lines, annotation, revision),
                ..left
            })
            &&& faults(more.errors(pending, revision, path, mode)) == faults(
                annotations.errors(pending, revision, path, mode),
            ) + match_errors(left.lines, annotation, revision, path)
        }),
{
    let more = annotations.with(annotation);
    let lines = annotations.after_pattern(pending).lines;
    let e1 = annotations.pattern_errors(pending);
    let e2 = matches_errors(lines, annotations.error_matches, revision, path);
    let e3 = match_errors(
        annotations.leftover(pending, revision).lines,
        annotation,
        revision,
        path,
    );
    lemma_parts(annotations, pending, revision, path, mode);
    lemma_parts(more, pending, revision, path, mode);
    assert(more.after_pattern(pending) == annotations.after_pattern(pending));
    assert(more.pattern_errors(pending) == e1);
    assert(more.error_matches.drop_last() =~= annotations.error_matches);
    assert(more.error_matches.last() == annotation);
    assert(matches_errors(lines, more.error_matches, revision, path) == e2 + e3);
    assert(e1 + (e2 + e3) =~= e1 + e2 + e3);
}

/// An annotation that is made for no revision in particular, or for the one that is run, claims the
/// first diagnostic that fits it among those that earlier announcements left on its line. That is a
/// fault only where the annotation names no level and the diagnostic is an error.
pub proof fn law_an_annotation_claims_the_first_that_fits(
    annotations: Annotations,
    annotation: ErrorMatchView,
    pending: Pending,
    revision: Seq<char>,
    path: TestPathView,
    mode: Mode,
    at: int,
)
    requires
        pending.lines.len() <= usize::MAX,
        annotation.revision is None || annotation.revision == Some(revision),
        annotation.line < annotations.leftover(pending, revision).lines.len(),
        ({
            let line = annotations.leftover(pending, revision).lines[annotation.line as int];
            &&& 0 <= at < line.len()
            &&& fits(annotation, line[at])
            &&& forall|k: int| 0 <= k < at ==> !fits(annotation, #[trigger] line[k])
        }),
    ensures
        ({
            let more = annotations.with(annotation);
            let left = annotations.leftover(pending, revision);
            let line = left.lines[annotation.line as int];
            let after = more.leftover(pending, revision);
            &&& after.unknown == left.unknown
            &&& after.lines == left.lines.update(annotation.line as int, line.remove(at))
            &&& faults(more.errors(pending, revision, path, mode)) == faults(
                annotations.errors(pending, revision, path, mode),
            ) + (if annotation.level is None && line[at].level == Level::Error {
                seq![ErrorView::ErrorPatternWithoutErrorAnnotation(path, annotation.line)]
            } else {
                Seq::empty()
            })
        }),
{
    lemma_with(annotations, annotation, pending, revision, path, mode);
    let line = annotations.leftover(pending, revision).lines[annotation.line as int];
    assert forall|k: int| 0 <= k < at implies !announces(
        annotation.matched,
        annotation.level,
        #[trigger] line[k],
    ) by {
        assert(!fits(annotation, line[k]));
    }
    lemma_position_first(line, annotation.matched, annotation.level, at);
}

/// An annotation that is made for no revision in particular, or for the one that is run, and that
/// fits nothing that earlier announcements left on its line, is reported, and claims nothing.
pub proof fn law_an_annotation_that_fits_nothing_is_reported(
    annotations: Annotations,
    annotation: ErrorMatchView,
    pending: Pending,
    revision: Seq<char>,
    path: TestPathView,
    mode: Mode,
)
    requires
        pending.lines.len() <= usize::MAX,
        annotation.revision is None || annotation.revision == Some(revision),
        ({
            let lines = annotations.leftover(pending, revision).lines;
            annotation.line < lines.len() ==> forall|k: int|
                0 <= k < lines[annotation.line as int].len() ==> !fits(
                    annotation,
                    #[trigger] lines[annotation.line as int][k],
                )
        }),
    ensures
        ({
            let more = annotations.with(annotation);
            &&& more.leftover(pending, revision) == annotations.leftover(pending, revision)
            &&& faults(more.errors(pending, revision, path, mode)) == faults(
                annotations.errors(pending, revision, path, mode),
            ).push(
                ErrorView::PatternNotFound {
                    pattern: annotation.matched,
                    definition_line: annotation.definition_line,
                },
            )
        }),
{
    lemma_with(annotations, annotation, pending, revision, path, mode);
    let lines = annotations.leftover(pending, revision).lines;
    if annotation.line < lines.len() {
        let line = lines[annotation.line as int];
        assert forall|at: int| !is_first(line, annotation.matched, annotation.level, at) by {
            if 0 <= at < line.len() {
                assert(!fits(annotation, line[at]));
            }
        }
    }
    assert(faults(annotations.with(annotation).errors(pending, revision, path, mode)) =~= faults(
        annotations.errors(pending, revision, path, mode),
    ).push(
        ErrorView::PatternNotFound {
            pattern: annotation.matched,
            definition_line: annotation.definition_line,
        },
    ));
}

/// An annotation that is made for another revision is passed over: nothing is claimed, nothing is
/// reported, and nothing else has to be announced.
pub proof fn law_an_annotation_for_another_revision_is_passed_over(
    annotations: Annotations,
    annotation: ErrorMatchView,
    pending: Pending,
    revision: Seq<char>,
    path: TestPathView,
    mode: Mode,
)
    requires
        pending.lines.len() <= usize::MAX,
        annotation.revision matches Some(other) && other != revision,
    ensures
        ({
            let more = annotations.with(annotation);
            let before = annotations.errors(pending, revision, path, mode);
            let after = more.errors(pending, revision, path, mode);
            &&& more.leftover(pending, revision) == annotations.leftover(pending, revision)
            &&& faults(after) == faults(before)
            &&& unannounced(after) == unannounced(before)
        }),
{
    let more = annotations.with(annotation);
    lemma_with(annotations, annotation, pending, revision, path, mode);
    lemma_parts(annotations, pending, revision, path, mode);
    lemma_parts(more, pending, revision, path, mode);
    assert(more.error_matches.drop_last() =~= annotations.error_matches);
    let before = faults(annotations.errors(pending, revision, path, mode));
    assert(before + Seq::<ErrorView>::empty() =~= before);
}

/// No diagnostic holds a text.
pub open spec fn none_holds(messages: Seq<MessageView>, pattern: Seq<char>) -> bool {
    forall|k: int|
        0 <= k < messages.len() ==> !text::includes((#[trigger] messages[k]).message, pattern)
}

proof fn lemma_no_position(messages: Seq<MessageView>, pattern: Seq<char>)
    requires
        none_holds(messages, pattern),
    ensures
        position(messages, pattern, None) is None,
{
    assert forall|k: int| !is_first(messages, pattern, None, k) by {
        if 0 <= k < messages.len() {
            assert(!text::includes(messages[k].message, pattern));
        }
    }
}

/// A text that is announced for no line in particular claims the first diagnostic of no line that
/// holds it, and nothing else.
pub proof fn law_a_text_for_no_line_claims_a_diagnostic_of_no_line(
    pattern: Seq<char>,
    definition_line: usize,
    pending: Pending,
    revision: Seq<char>,
    path: TestPathView,
    mode: Mode,
    at: int,
)
    requires
        pending.lines.len() <= usize::MAX,
        0 <= at < pending.unknown.len(),
        text::includes(pending.unknown[at].message, pattern),
        none_holds(pending.unknown.take(at), pattern),
    ensures
        ({
            let annotations = Annotations {
                error_pattern: Some((pattern, definition_line)),
                error_matches: Seq::empty(),
            };
            let left = annotations.leftover(pending, revision);
            let found = faults(annotations.errors(pending, revision, path, mode));
            &&& left.unknown == pending.unknown.remove(at)
            &&& left.lines == pending.lines
            &&& found.len() == 0
        }),
{
    let annotations = Annotations {
        error_pattern: Some((pattern, definition_line)),
        error_matches: Seq::empty(),
    };
    lemma_parts(annotations, pending, revision, path, mode);
    let e1 = annotations.pattern_errors(pending);
    assert(e1 + Seq::<ErrorView>::empty() =~= e1);
    assert forall|k: int| 0 <= k < at implies !text::includes(
        (#[trigger] pending.unknown[k]).message,
        pattern,
    ) by {
        assert(pending.unknown.take(at)[k] == pending.unknown[k]);
    }
    lemma_position_first(pending.unknown, pattern, None, at);
}

/// Where no diagnostic of no line holds it, a text that is announced for no line in particular
/// claims the first one that holds it on the first line that has one, and nothing else.
pub proof fn law_a_text_for_no_line_may_claim_a_diagnostic_of_a_line(
    pattern: Seq<char>,
    definition_line: usize,
    pending: Pending,
    revision: Seq<char>,
    path: TestPathView,
    mode: Mode,
    line: int,
    at: int,
)
    requires
        pending.lines.len() <= usize::MAX,
        none_holds(pending.unknown, pattern),
        0 <= line < pending.lines.len(),
        0 <= at < pending.lines[line].len(),
        text::includes(pending.lines[line][at].message, pattern),
        none_holds(pending.lines[line].take(at), pattern),
        forall|l: int| 0 <= l < line ==> none_holds(#[trigger] pending.lines[l], pattern),
    ensures
        ({
            let annotations = Annotations {
                error_pattern: Some((pattern, definition_line)),
                error_matches: Seq::empty(),
            };
            let left = annotations.leftover(pending, revision);
            let found = faults(annotations.errors(pending, revision, path, mode));
            &&& left.unknown == pending.unknown
            &&& left.lines == pending.lines.update(line, pending.lines[line].remove(at))
            &&& found.len() == 0
        }),
{
    let annotations = Annotations {
        error_pattern: Some((pattern, definition_line)),
        error_matches: Seq::empty(),
    };
    lemma_parts(annotations, pending, revision, path, mode);
    let e1 = annotations.pattern_errors(pending);
    assert(e1 + Seq::<ErrorView>::empty() =~= e1);
    let messages = pending.lines[line];
    lemma_no_position(pending.unknown, pattern);
    assert forall|k: int| 0 <= k < at implies !text::includes(
        (#[trigger] messages[k]).message,
        pattern,
    ) by {
        assert(messages.take(at)[k] == messages[k]);
    }
    lemma_position_first(messages, pattern, None, at);
    assert forall|l: int| 0 <= l < line implies position(
        #[trigger] pending.lines[l],
        pattern,
        None,
    ) is None by {
        lemma_no_position(pending.lines[l], pattern);
    }
    assert(is_first_line(pending.lines, pattern, line));
    let first = choose|l: int| is_first_line(pending.lines, pattern, l);
    assert(is_first_line(pending.lines, pattern, first));
    assert(first == line) by {
        if first < line {
            assert(position(pending.lines[first], pattern, None) is None);
        } else if line < first {
            assert(position(pending.lines[line], pattern, None) is None);
        }
    }
}

/// A text that is announced for no line in particular and that no diagnostic holds is reported, and
/// claims nothing.
pub proof fn law_a_text_for_no_line_that_is_missing_is_reported(
    pattern: Seq<char>,
    definition_line: usize,
    pending: Pending,
    revision: Seq<char>,
    path: TestPathView,
    mode: Mode,
)
    requires
        pending.lines.len() <= usize::MAX,
        none_holds(pending.unknown, pattern),
        forall|l: int|
            0 <= l < pending.lines.len() ==> none_holds(#[trigger] pending.lines[l], pattern),
    ensures
        ({
            let annotations = Annotations {
                error_pattern: Some((pattern, definition_line)),
                error_matches: Seq::empty(),
            };
            let left = annotations.leftover(pending, revision);
            let found = faults(annotations.errors(pending, revision, path, mode));
            &&& left == pending
            &&& found == seq![ErrorView::PatternNotFound { pattern, definition_line }]
        }),
{
    let annotations = Annotations {
        error_pattern: Some((pattern, definition_line)),
        error_matches: Seq::empty(),
    };
    lemma_parts(annotations, pending, revision, path, mode);
    let e1 = annotations.pattern_errors(pending);
    assert(e1 + Seq::<ErrorView>::empty() =~= e1);
    lemma_no_position(pending.unknown, pattern);
    assert forall|l: int| !is_first_line(pending.lines, pattern, l) by {
        if 0 <= l < pending.lines.len() {
            lemma_no_position(pending.lines[l], pattern);
        }
    }
    assert(after_pattern(pending, pattern) is None);
}

/// Where nothing is announced, nothing is claimed, and no announcement is at fault.
pub proof fn law_where_nothing_is_announced_nothing_is_claimed(
    pending: Pending,
    revision: Seq<char>,
    path: TestPathView,
    mode: Mode,
)
    requires
        pending.lines.len() <= usize::MAX,
    ensures
        ({
            let annotations = Annotations { error_pattern: None, error_matches: Seq::empty() };
            &&& annotations.leftover(pending, revision) == pending
            &&& faults(annotations.errors(pending, revision, path, mode)).len() == 0
            &&& annotations.lowest(revision) == Level::Error
        }),
{
    let annotations = Annotations { error_pattern: None, error_matches: Seq::empty() };
    lemma_parts(annotations, pending, revision, path, mode);
}

/// The diagnostics that have to be announced go down to the lowest level that is named by an
/// annotation of no revision in particular or of the one that is run, and to errors in any case.
pub proof fn law_which_levels_have_to_be_announced(
    annotations: Annotations,
    annotation: ErrorMatchView,
    revision: Seq<char>,
)
    ensures
        annotations.error_matches.len() == 0 ==> annotations.lowest(revision) == Level::Error,
        ({
            let before = annotations.lowest(revision);
            let after = annotations.with(annotation).lowest(revision);
            match annotation.level {
                None => after == before,
                Some(level) => if annotation.revision is Some && annotation.revision != Some(
                    revision,
                ) {
                    after == before
                } else {
                    &&& after == before || after == level
                    &&& severity(after) <= severity(before)
                    &&& severity(after) <= severity(level)
                },
            }
        }),
{
    assert(annotations.with(annotation).error_matches.drop_last() =~= annotations.error_matches);
}

proof fn lemma_errors_by_line(
    unknown: Seq<MessageView>,
    lines: Seq<Seq<MessageView>>,
    level: Level,
    path: TestPathView,
)
    requires
        lines.len() <= usize::MAX,
    ensures
        ({
            let lowest = severity(level);
            let severe = |m: MessageView| severity(m.level) >= lowest;
            let found = errors_for(unknown, lines, level, path);
            &&& forall|i: int|
                0 <= i < found.len() ==> match #[trigger] found[i] {
                    ErrorView::ErrorsWithoutPattern { msgs, path: None } => msgs.len() > 0 && msgs
                        == unknown.filter(severe),
                    ErrorView::ErrorsWithoutPattern { msgs, path: Some((p, line)) } => p == path
                        && line < lines.len() && msgs.len() > 0 && msgs
                        == lines[line as int].filter(severe),
                    _ => false,
                }
            &&& forall|k: int|
                0 <= k < unknown.len() && severity((#[trigger] unknown[k]).level) >= lowest
                    ==> exists|i: int|
                    0 <= i < found.len() && place(#[trigger] found[i]) == (1int, 0int)
            &&& forall|line: int, k: int|
                0 <= line < lines.len() && 0 <= k < lines[line].len() && severity(
                    (#[trigger] lines[line][k]).level,
                ) >= lowest ==> exists|i: int|
                    0 <= i < found.len() && place(#[trigger] found[i]) == (2int, line)
        }),
{
    broadcast use vstd::seq_lib::group_filter_ensures;

    let lowest = severity(level);
    let pred = |m: MessageView| severity(m.level) >= lowest;
    assert(pred =~= is_severe(level));
    let found = errors_for(unknown, lines, level, path);
    lemma_unannounced_errors(lines, level, path);
    let per_line = unannounced_errors(lines, level, path);
    let n = found.len() - per_line.len();
    assert forall|i: int| n <= i < found.len() implies #[trigger] found[i] == per_line[i - n] by {}
    assert forall|k: int|
        0 <= k < unknown.len() && severity((#[trigger] unknown[k]).level)
            >= lowest implies exists|i: int|
        0 <= i < found.len() && place(#[trigger] found[i]) == (1int, 0int) by {
        assert(pred(unknown[k]));
        assert(unknown.filter(pred).contains(unknown[k]));
        assert(place(found[0]) == (1int, 0int));
    }
    assert forall|line: int, k: int|
        0 <= line < lines.len() && 0 <= k < lines[line].len() && severity(
            (#[trigger] lines[line][k]).level,
        ) >= lowest implies exists|i: int|
        0 <= i < found.len() && place(#[trigger] found[i]) == (2int, line) by {
        assert(pred(lines[line][k]));
        assert(lines[line].filter(pred).contains(lines[line][k]));
        let error = ErrorView::ErrorsWithoutPattern {
            msgs: severe(lines[line], level),
            path: Some((path, line as usize)),
        };
        assert(per_line.contains(error));
        let i = per_line.index_of(error);
        assert(found[n + i] == per_line[i]);
    }
}

/// Whatever is left over and has to be announced is reported: in one error what belongs to no line,
/// and in one error for each line what belongs to that line, with all of these diagnostics in their
/// order. Nothing else is reported as unannounced.
pub proof fn law_what_is_left_over_is_reported_by_line(
    annotations: Annotations,
    pending: Pending,
    revision: Seq<char>,
    path: TestPathView,
    mode: Mode,
)
    requires
        pending.lines.len() <= usize::MAX,
    ensures
        ({
            let left = annotations.leftover(pending, revision);
            let lowest = severity(annotations.lowest(revision));
            let severe = |m: MessageView| severity(m.level) >= lowest;
            let found = unannounced(annotations.errors(pending, revision, path, mode));
            &&& left.lines.len() == pending.lines.len()
            &&& forall|i: int|
                0 <= i < found.len() ==> match #[trigger] found[i] {
                    ErrorView::ErrorsWithoutPattern { msgs, path: None } => msgs.len() > 0 && msgs
                        == left.unknown.filter(severe),
                    ErrorView::ErrorsWithoutPattern { msgs, path: Some((p, line)) } => p == path
                        && line < left.lines.len() && msgs.len() > 0 && msgs
                        == left.lines[line as int].filter(severe),
                    _ => false,
                }
            &&& forall|k: int|
                0 <= k < left.unknown.len() && severity((#[trigger] left.unknown[k]).level) >= lowest
                    ==> exists|i: int|
                    0 <= i < found.len() && place(#[trigger] found[i]) == (1int, 0int)
            &&& forall|line: int, k: int|
                0 <= line < left.lines.len() && 0 <= k < left.lines[line].len() && severity(
                    (#[trigger] left.lines[line][k]).level,
                ) >= lowest ==> exists|i: int|
                    0 <= i < found.len() && place(#[trigger] found[i]) == (2int, line)
        }),
{
    let left = annotations.leftover(pending, revision);
    lemma_parts(annotations, pending, revision, path, mode);
    lemma_after_pattern_len(annotations, pending);
    lemma_after_matches_len(
        annotations.after_pattern(pending).lines,
        annotations.error_matches,
        revision,
    );
    lemma_errors_by_line(left.unknown, left.lines, annotations.lowest(revision), path);
}

/// A test that announces something is at fault unless it is to fail, and one that announces nothing
/// is at fault if it is to fail.
pub proof fn law_tests_that_are_to_fail_announce_something(
    annotations: Annotations,
    pending: Pending,
    revision: Seq<char>,
    path: TestPathView,
    mode: Mode,
)
    requires
        pending.lines.len() <= usize::MAX,
    ensures
        ({
            let found = mode_faults(annotations.errors(pending, revision, path, mode));
            let silent = annotations.error_pattern is None && annotations.error_matches.len() == 0;
            &&& silent && mode is Fail ==> found == seq![ErrorView::NoPatternsFound]
            &&& !silent && mode is Pass ==> found == seq![ErrorView::PatternFoundInPassTest]
            &&& !silent && mode is Panic ==> found == seq![ErrorView::PatternFoundInPassTest]
            &&& silent && !(mode is Fail) ==> found.len() == 0
            &&& !silent && mode is Fail ==> found.len() == 0
        }),
{
    lemma_parts(annotations, pending, revision, path, mode);
}

/// Errors are reported in one order: what is wrong with announcements, then unannounced diagnostics
/// of no line, then those of the lines from top to bottom, one error for each line, and then what is
/// wrong with the announcements as a whole. There are no other errors.
pub proof fn law_errors_come_in_order(
    annotations: Annotations,
    pending: Pending,
    revision: Seq<char>,
    path: TestPathView,
    mode: Mode,
    i: int,
    j: int,
)
    requires
        pending.lines.len() <= usize::MAX,
        0 <= i < j < annotations.errors(pending, revision, path, mode).len(),
    ensures
        ({
            let errors = annotations.errors(pending, revision, path, mode);
            let first = place(errors[i]);
            let second = place(errors[j]);
            &&& first.0 < second.0 || (first.0 == 0 && second.0 == 0) || (first.0 == 2 && second.0
                == 2 && first.1 < second.1)
            &&& first.0 == 0 ==> is_fault(errors[i])
            &&& second.0 == 0 ==> is_fault(errors[j])
        }),
{
    let errors = annotations.errors(pending, revision, path, mode);
    let lines = annotations.after_pattern(pending).lines;
    let left = annotations.leftover(pending, revision);
    let e1 = annotations.pattern_errors(pending);
    let e2 = matches_errors(lines, annotations.error_matches, revision, path);
    let e3 = annotations.leftover_errors(pending, revision, path);
    let e4 = annotations.mode_errors(mode);
    let per_line = unannounced_errors(left.lines, annotations.lowest(revision), path);
    lemma_after_pattern_len(annotations, pending);
    lemma_matches_errors_are_faults(lines, annotations.error_matches, revision, path);
    lemma_after_matches_len(lines, annotations.error_matches, revision);
    lemma_unannounced_errors(left.lines, annotations.lowest(revision), path);
    let a = (e1.len() + e2.len()) as int;
    let b = a + (e3.len() - per_line.len());
    let c = a + e3.len();
    assert forall|k: int| 0 <= k < a implies is_fault(#[trigger] errors[k]) by {
        if k < e1.len() {
            assert(errors[k] == e1[k]);
        } else {
            assert(errors[k] == e2[k - e1.len()]);
        }
    }
    assert forall|k: int| a <= k < b implies place(#[trigger] errors[k]) == (1int, 0int) by {
        assert(errors[k] == e3[k - a]);
    }
    assert forall|k: int| b <= k < c implies #[trigger] errors[k] == per_line[k - b] by {
        assert(errors[k] == e3[k - a]);
    }
    assert forall|k: int| c <= k < errors.len() implies place(#[trigger] errors[k]) == (
        3int,
        0int,
    ) by {
        assert(errors[k] == e4[k - c]);
    }
    assert(b - a <= 1);
    assert(errors.len() - c <= 1);
}

/// What a test file announces is what stands in its comments: all of it, in order, and nothing else.
pub proof fn law_announcements_are_those_of_the_comments(comments: Comments)
    ensures
        comments.error_pattern is None ==> comments.annotations().error_pattern is None,
        comments.error_pattern matches Some((pattern, line)) ==> comments.annotations().error_pattern
            == Some((pattern@, line)),
        comments.annotations().error_matches.len() == comments.error_matches@.len(),
        forall|i: int|
            0 <= i < comments.error_matches@.len() ==> {
                let view = #[trigger] comments.annotations().error_matches[i];
                let annotation = comments.error_matches@[i];
                &&& view.matched == annotation.matched@
                &&& annotation.revision is None ==> view.revision is None
                &&& annotation.revision matches Some(name) ==> view.revision == Some(name@)
                &&& view.definition_line == annotation.definition_line
                &&& view.line == annotation.line
                &&& view.level == annotation.level
            },
{
}

proof fn lemma_same_in_both_revisions(
    lines: Seq<Seq<MessageView>>,
    annotations: Seq<ErrorMatchView>,
    one: Seq<char>,
    other: Seq<char>,
    path: TestPathView,
)
    requires
        forall|i: int|
            0 <= i < annotations.len() ==> ((#[trigger] annotations[i]).revision matches Some(name)
                ==> (name == one <==> name == other)),
    ensures
        after_matches(lines, annotations, one) == after_matches(lines, annotations, other),
        matches_errors(lines, annotations, one, path) == matches_errors(
            lines,
            annotations,
            other,
            path,
        ),
        lowest_level(annotations, one) == lowest_level(annotations, other),
    decreases annotations.len(),
{
    if annotations.len() > 0 {
        let init = annotations.drop_last();
        assert forall|i: int| 0 <= i < init.len() implies ((#[trigger] init[i]).revision matches Some(
            name,
        ) ==> (name == one <==> name == other)) by {
            assert(init[i] == annotations[i]);
        }
        lemma_same_in_both_revisions(lines, init, one, other, path);
        assert(annotations[annotations.len() - 1] == annotations.last());
    }
}

/// A check gives the same result in two revisions unless an annotation is made for one of them. In
/// particular, annotations that are made for no revision count alike in all of them.
pub proof fn law_revisions_differ_only_where_annotations_name_them(
    annotations: Annotations,
    pending: Pending,
    one: Seq<char>,
    other: Seq<char>,
    path: TestPathView,
    mode: Mode,
)
    requires
        forall|i: int|
            0 <= i < annotations.error_matches.len() ==> ((
            #[trigger] annotations.error_matches[i]).revision matches Some(name) ==> name != one
                && name != other),
    ensures
        annotations.errors(pending, one, path, mode) == annotations.errors(
            pending,
            other,
            path,
            mode,
        ),
        annotations.leftover(pending, one) == annotations.leftover(pending, other),
{
    lemma_same_in_both_revisions(
        annotations.after_pattern(pending).lines,
        annotations.error_matches,
        one,
        other,
        path,
    );
}

} // verus!
