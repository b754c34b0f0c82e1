//! What holds of every check of diagnostics against annotations.

use crate::annotations::{
    after_matches, after_pattern, applies, claimed, is_first, is_first_line, is_severe,
    lowest_level, match_errors, matches_errors, position, severe, unannounced_errors, without,
    Annotations, Pending,
};
use crate::comments::ErrorMatchView;
use crate::config::Mode;
use crate::diagnostics::{severity, Level, MessageView};
use crate::error::all_explicable;
use crate::path::TestPathView;
use vstd::multiset::Multiset;
use vstd::prelude::*;
use vstd::seq_lib::group_to_multiset_ensures;

verus! {

/// The diagnostics of all lines, as a bag.
pub open spec fn line_bag(lines: Seq<Seq<MessageView>>) -> Multiset<MessageView>
    decreases lines.len(),
{
    if lines.len() == 0 {
        Multiset::empty()
    } else {
        line_bag(lines.drop_last()).add(lines.last().to_multiset())
    }
}

/// All diagnostics, as a bag.
pub open spec fn bag(pending: Pending) -> Multiset<MessageView> {
    pending.unknown.to_multiset().add(line_bag(pending.lines))
}

/// What the text for no particular line claims.
pub open spec fn pattern_claim(pending: Pending, pattern: Seq<char>) -> Multiset<MessageView> {
    match position(pending.unknown, pattern, None) {
        Some(at) => Multiset::singleton(pending.unknown[at]),
        None => if exists|line: int| is_first_line(pending.lines, pattern, line) {
            let line = choose|line: int| is_first_line(pending.lines, pattern, line);
            let at = position(pending.lines[line], pattern, None).unwrap();
            Multiset::singleton(pending.lines[line][at])
        } else {
            Multiset::empty()
        },
    }
}

/// What one annotation claims.
pub open spec fn match_claim(
    lines: Seq<Seq<MessageView>>,
    annotation: ErrorMatchView,
    revision: Seq<char>,
) -> Multiset<MessageView> {
    if applies(annotation, revision) && claimed(lines, annotation) is Some {
        Multiset::singleton(lines[annotation.line as int][claimed(lines, annotation).unwrap()])
    } else {
        Multiset::empty()
    }
}

/// What the annotations for single lines claim.
pub open spec fn match_claims(
    lines: Seq<Seq<MessageView>>,
    annotations: Seq<ErrorMatchView>,
    revision: Seq<char>,
) -> Multiset<MessageView>
    decreases annotations.len(),
{
    if annotations.len() == 0 {
        Multiset::empty()
    } else {
        match_claims(lines, annotations.drop_last(), revision).add(
            match_claim(
                after_matches(lines, annotations.drop_last(), revision),
                annotations.last(),
                revision,
            ),
        )
    }
}

impl Annotations {
    /// The diagnostics that the annotations claim.
    pub open spec fn claims(self, pending: Pending, revision: Seq<char>) -> Multiset<MessageView> {
        (match self.error_pattern {
            Some((pattern, _)) => pattern_claim(pending, pattern),
            None => Multiset::empty(),
        }).add(match_claims(self.after_pattern(pending).lines, self.error_matches, revision))
    }

    /// The annotation for a single line at position `i` claims a diagnostic, and says that it is
    /// an error where it is one.
    pub open spec fn is_met(self, pending: Pending, revision: Seq<char>, i: int) -> bool {
        let annotation = self.error_matches[i];
        let lines = after_matches(
            self.after_pattern(pending).lines,
            self.error_matches.take(i),
            revision,
        );
        match claimed(lines, annotation) {
            Some(at) => annotation.level is Some || lines[annotation.line as int][at].level
                != Level::Error,
            None => false,
        }
    }
}

/// No message is of the level `lowest` or a higher one.
pub open spec fn all_below(messages: Seq<MessageView>, lowest: Level) -> bool {
    forall|i: int| 0 <= i < messages.len() ==> severity(#[trigger] messages[i].level) < severity(lowest)
}

proof fn lemma_position(messages: Seq<MessageView>, pattern: Seq<char>, level: Option<Level>)
    ensures
        position(messages, pattern, level) matches Some(at) ==> is_first(
            messages,
            pattern,
            level,
            at,
        ),
{
}

proof fn lemma_line_bag_without(lines: Seq<Seq<MessageView>>, line: int, at: int)
    requires
        0 <= line < lines.len(),
        0 <= at < lines[line].len(),
    ensures
        line_bag(lines) == line_bag(without(lines, line, at)).insert(lines[line][at]),
    decreases lines.len(),
{
    broadcast use group_to_multiset_ensures;

    let less = without(lines, line, at);
    if line == lines.len() - 1 {
        assert(less.drop_last() =~= lines.drop_last());
        assert(lines.last().contains(lines[line][at]));
        assert(line_bag(lines) =~= line_bag(less).insert(lines[line][at]));
    } else {
        lemma_line_bag_without(lines.drop_last(), line, at);
        assert(less.drop_last() =~= without(lines.drop_last(), line, at));
        assert(line_bag(lines) =~= line_bag(less).insert(lines[line][at]));
    }
}

proof fn lemma_match_claims(
    lines: Seq<Seq<MessageView>>,
    annotations: Seq<ErrorMatchView>,
    revision: Seq<char>,
)
    ensures
        line_bag(lines) == line_bag(after_matches(lines, annotations, revision)).add(
            match_claims(lines, annotations, revision),
        ),
    decreases annotations.len(),
{
    if annotations.len() > 0 {
        lemma_match_claims(lines, annotations.drop_last(), revision);
        let left = after_matches(lines, annotations.drop_last(), revision);
        let annotation = annotations.last();
        if applies(annotation, revision) && claimed(left, annotation) is Some {
            let at = claimed(left, annotation).unwrap();
            lemma_position(left[annotation.line as int], annotation.matched, annotation.level);
            lemma_line_bag_without(left, annotation.line as int, at);
        }
    }
    assert(line_bag(lines) =~= line_bag(after_matches(lines, annotations, revision)).add(
        match_claims(lines, annotations, revision),
    ));
}

/// No diagnostic is lost and none is counted twice: each is claimed by an annotation or left over.
pub proof fn law_every_diagnostic_is_claimed_or_left(
    annotations: Annotations,
    pending: Pending,
    revision: Seq<char>,
)
    ensures
        bag(pending) == bag(annotations.leftover(pending, revision)).add(
            annotations.claims(pending, revision),
        ),
{
    broadcast use group_to_multiset_ensures;

    let middle = annotations.after_pattern(pending);
    lemma_match_claims(middle.lines, annotations.error_matches, revision);
    if let Some((pattern, _)) = annotations.error_pattern {
        lemma_position(pending.unknown, pattern, None);
        match position(pending.unknown, pattern, None) {
            Some(at) => {
                assert(pending.unknown.contains(pending.unknown[at]));
            },
            None => {
                if exists|line: int| is_first_line(pending.lines, pattern, line) {
                    let line = choose|line: int| is_first_line(pending.lines, pattern, line);
                    lemma_position(pending.lines[line], pattern, None);
                    lemma_line_bag_without(
                        pending.lines,
                        line,
                        position(pending.lines[line], pattern, None).unwrap(),
                    );
                }
            },
        }
    }
    assert(bag(pending) =~= bag(annotations.leftover(pending, revision)).add(
        annotations.claims(pending, revision),
    ));
}

proof fn lemma_severe_empty(messages: Seq<MessageView>, lowest: Level)
    ensures
        severe(messages, lowest).len() == 0 <==> all_below(messages, lowest),
{
    broadcast use vstd::seq_lib::group_filter_ensures;

    let pred = is_severe(lowest);
    if all_below(messages, lowest) {
        messages.lemma_all_neg_filter_empty(pred);
    } else {
        let i = choose|i: int|
            0 <= i < messages.len() && severity(#[trigger] messages[i].level) >= severity(lowest);
        assert(pred(messages[i]));
        assert(messages.filter(pred).contains(messages[i]));
    }
}

proof fn lemma_unannounced_empty(
    lines: Seq<Seq<MessageView>>,
    lowest: Level,
    path: TestPathView,
)
    ensures
        unannounced_errors(lines, lowest, path).len() == 0 <==> (forall|line: int|
            0 <= line < lines.len() ==> all_below(#[trigger] lines[line], lowest)),
    decreases lines.len(),
{
    if lines.len() > 0 {
        lemma_unannounced_empty(lines.drop_last(), lowest, path);
        lemma_severe_empty(lines.last(), lowest);
        if unannounced_errors(lines, lowest, path).len() == 0 {
            assert forall|line: int| 0 <= line < lines.len() implies all_below(
                #[trigger] lines[line],
                lowest,
            ) by {
                if line < lines.len() - 1 {
                    assert(all_below(lines.drop_last()[line], lowest));
                }
            }
        } else if forall|line: int|
            0 <= line < lines.len() ==> all_below(#[trigger] lines[line], lowest) {
            assert forall|line: int| 0 <= line < lines.drop_last().len() implies all_below(
                #[trigger] lines.drop_last()[line],
                lowest,
            ) by {
                assert(all_below(lines[line], lowest));
            }
            assert(all_below(lines[lines.len() - 1], lowest));
        }
    }
}

/// Nothing is wrong with the annotation at position `i`.
#[verifier::opaque]
spec fn is_fine(
    lines: Seq<Seq<MessageView>>,
    annotations: Seq<ErrorMatchView>,
    revision: Seq<char>,
    path: TestPathView,
    i: int,
) -> bool {
    match_errors(
        after_matches(lines, annotations.take(i), revision),
        annotations[i],
        revision,
        path,
    ).len() == 0
}

proof fn lemma_matches_errors_empty(
    lines: Seq<Seq<MessageView>>,
    annotations: Seq<ErrorMatchView>,
    revision: Seq<char>,
    path: TestPathView,
)
    ensures
        matches_errors(lines, annotations, revision, path).len() == 0 <==> (forall|i: int|
            0 <= i < annotations.len() ==> #[trigger] is_fine(
                lines,
                annotations,
                revision,
                path,
                i,
            )),
    decreases annotations.len(),
{
    if annotations.len() > 0 {
        let init = annotations.drop_last();
        let n = init.len() as int;
        lemma_matches_errors_empty(lines, init, revision, path);
        let last = match_errors(
            after_matches(lines, init, revision),
            annotations.last(),
            revision,
            path,
        );
        assert(matches_errors(lines, annotations, revision, path).len() == matches_errors(
            lines,
            init,
            revision,
            path,
        ).len() + last.len());
        assert(is_fine(lines, annotations, revision, path, n) == (last.len() == 0)) by {
            reveal(is_fine);
            assert(annotations.take(n) =~= init);
        }
        assert forall|i: int| 0 <= i < n implies #[trigger] is_fine(
            lines,
            annotations,
            revision,
            path,
            i,
        ) == is_fine(lines, init, revision, path, i) by {
            reveal(is_fine);
            assert(init.take(i) =~= annotations.take(i));
        }
        if forall|i: int|
            0 <= i < annotations.len() ==> #[trigger] is_fine(
                lines,
                annotations,
                revision,
                path,
                i,
            ) {
            assert forall|i: int| 0 <= i < n implies #[trigger] is_fine(
                lines,
                init,
                revision,
                path,
                i,
            ) by {
                assert(is_fine(lines, annotations, revision, path, i));
            }
        }
    }
}

/// The check finds no fault exactly where every annotation is met, all diagnostics that are left
/// over are below the lowest level that has to be announced, and something is announced exactly by
/// the tests that are to fail.
pub proof fn law_accepted_exactly_when_all_is_announced(
    annotations: Annotations,
    pending: Pending,
    revision: Seq<char>,
    path: TestPathView,
    mode: Mode,
)
    ensures
        annotations.errors(pending, revision, path, mode).len() == 0 <==> {
            &&& annotations.error_pattern matches Some((pattern, _)) ==> after_pattern(
                pending,
                pattern,
            ) is Some
            &&& forall|i: int|
                0 <= i < annotations.error_matches.len() && applies(
                    #[trigger] annotations.error_matches[i],
                    revision,
                ) ==> annotations.is_met(pending, revision, i)
            &&& all_below(
                annotations.leftover(pending, revision).unknown,
                annotations.lowest(revision),
            )
            &&& forall|line: int|
                0 <= line < annotations.leftover(pending, revision).lines.len() ==> all_below(
                    #[trigger] annotations.leftover(pending, revision).lines[line],
                    annotations.lowest(revision),
                )
            &&& annotations.any() <==> mode == Mode::Fail
        },
{
    let left = annotations.leftover(pending, revision);
    let lowest = annotations.lowest(revision);
    let lines = annotations.after_pattern(pending).lines;
    lemma_severe_empty(left.unknown, lowest);
    lemma_unannounced_empty(left.lines, lowest, path);
    lemma_matches_errors_empty(lines, annotations.error_matches, revision, path);
    assert forall|i: int| 0 <= i < annotations.error_matches.len() implies #[trigger] is_fine(
        lines,
        annotations.error_matches,
        revision,
        path,
        i,
    ) == (applies(annotations.error_matches[i], revision) ==> annotations.is_met(
        pending,
        revision,
        i,
    )) by {
        reveal(is_fine);
    }
    let all_met = forall|i: int|
        0 <= i < annotations.error_matches.len() && applies(
            #[trigger] annotations.error_matches[i],
            revision,
        ) ==> annotations.is_met(pending, revision, i);
    let all_fine = forall|i: int|
        0 <= i < annotations.error_matches.len() ==> #[trigger] is_fine(
            lines,
            annotations.error_matches,
            revision,
            path,
            i,
        );
    assert(all_met == all_fine) by {
        if all_fine {
            assert forall|i: int|
                0 <= i < annotations.error_matches.len() && applies(
                    #[trigger] annotations.error_matches[i],
                    revision,
                ) implies annotations.is_met(pending, revision, i) by {
                assert(is_fine(lines, annotations.error_matches, revision, path, i));
            }
        }
        if all_met {
            assert forall|i: int| 0 <= i < annotations.error_matches.len() implies #[trigger] is_fine(
                lines,
                annotations.error_matches,
                revision,
                path,
                i,
            ) by {
                assert(applies(annotations.error_matches[i], revision) ==> annotations.is_met(
                    pending,
                    revision,
                    i,
                ));
            }
        }
    }
}

/// The lowest level that has to be announced is never above `Error`, never above a level that an
/// annotation of the revision names, and it is `Error` or one of those levels.
pub proof fn law_lowest_level(annotations: Seq<ErrorMatchView>, revision: Seq<char>)
    ensures
        severity(lowest_level(annotations, revision)) <= severity(Level::Error),
        forall|i: int|
            0 <= i < annotations.len() && applies(#[trigger] annotations[i], revision)
                && annotations[i].level is Some ==> severity(lowest_level(annotations, revision))
                <= severity(annotations[i].level.unwrap()),
        lowest_level(annotations, revision) == Level::Error || exists|i: int|
            0 <= i < annotations.len() && applies(#[trigger] annotations[i], revision)
                && annotations[i].level == Some(lowest_level(annotations, revision)),
    decreases annotations.len(),
{
    if annotations.len() > 0 {
        let init = annotations.drop_last();
        let n = init.len() as int;
        law_lowest_level(init, revision);
        let before = lowest_level(init, revision);
        let lowest = lowest_level(annotations, revision);
        assert forall|i: int|
            0 <= i < annotations.len() && applies(#[trigger] annotations[i], revision)
                && annotations[i].level is Some implies severity(lowest) <= severity(
            annotations[i].level.unwrap(),
        ) by {
            if i < n {
                assert(init[i] == annotations[i]);
            }
        }
        if lowest != Level::Error {
            if lowest == before {
                let i = choose|i: int|
                    0 <= i < init.len() && applies(#[trigger] init[i], revision) && init[i].level
                        == Some(before);
                assert(annotations[i] == init[i]);
            } else {
                assert(annotations[n] == annotations.last());
            }
        }
    }
}

proof fn lemma_line_bag_count(lines: Seq<Seq<MessageView>>, message: MessageView)
    ensures
        line_bag(lines).count(message) > 0 <==> exists|line: int|
            0 <= line < lines.len() && (#[trigger] lines[line]).contains(message),
    decreases lines.len(),
{
    broadcast use group_to_multiset_ensures;

    if lines.len() > 0 {
        let init = lines.drop_last();
        let n = init.len() as int;
        lemma_line_bag_count(init, message);
        if lines.last().contains(message) {
            assert(lines[n].contains(message));
        }
        if exists|line: int| 0 <= line < init.len() && (#[trigger] init[line]).contains(message) {
            let line = choose|line: int|
                0 <= line < init.len() && (#[trigger] init[line]).contains(message);
            assert(lines[line].contains(message));
        }
        if exists|line: int| 0 <= line < lines.len() && (#[trigger] lines[line]).contains(message) {
            let line = choose|line: int|
                0 <= line < lines.len() && (#[trigger] lines[line]).contains(message);
            if line < n {
                assert(init[line].contains(message));
            }
        }
    }
}

/// Where the check finds no fault, all diagnostics of the lowest level that has to be announced
/// and of the higher ones are claimed by annotations, each as often as it occurs.
pub proof fn law_all_severe_diagnostics_are_claimed(
    annotations: Annotations,
    pending: Pending,
    revision: Seq<char>,
    path: TestPathView,
    mode: Mode,
    message: MessageView,
)
    requires
        annotations.errors(pending, revision, path, mode).len() == 0,
        severity(message.level) >= severity(annotations.lowest(revision)),
    ensures
        annotations.claims(pending, revision).count(message) == bag(pending).count(message),
{
    broadcast use group_to_multiset_ensures;

    let left = annotations.leftover(pending, revision);
    law_accepted_exactly_when_all_is_announced(annotations, pending, revision, path, mode);
    law_every_diagnostic_is_claimed_or_left(annotations, pending, revision);
    lemma_line_bag_count(left.lines, message);
    if left.unknown.contains(message) {
        let i = left.unknown.index_of(message);
        assert(severity(left.unknown[i].level) < severity(annotations.lowest(revision)));
    }
    if exists|line: int| 0 <= line < left.lines.len() && (#[trigger] left.lines[line]).contains(
        message,
    ) {
        let line = choose|line: int|
            0 <= line < left.lines.len() && (#[trigger] left.lines[line]).contains(message);
        let i = left.lines[line].index_of(message);
        assert(all_below(left.lines[line], annotations.lowest(revision)));
        assert(severity(left.lines[line][i].level) < severity(annotations.lowest(revision)));
    }
}

/// A diagnostic of the highest level that no annotation claims is always a fault.
pub proof fn law_unclaimed_error_is_a_fault(
    annotations: Annotations,
    pending: Pending,
    revision: Seq<char>,
    path: TestPathView,
    mode: Mode,
    message: MessageView,
)
    requires
        message.level == Level::Error,
        annotations.claims(pending, revision).count(message) < bag(pending).count(message),
    ensures
        annotations.errors(pending, revision, path, mode).len() > 0,
{
    law_lowest_level(annotations.error_matches, revision);
    if annotations.errors(pending, revision, path, mode).len() == 0 {
        law_all_severe_diagnostics_are_claimed(
            annotations,
            pending,
            revision,
            path,
            mode,
            message,
        );
    }
}

/// The annotations that count in a revision.
pub open spec fn applying(annotations: Seq<ErrorMatchView>, revision: Seq<char>) -> Seq<
    ErrorMatchView,
> {
    annotations.filter(|a: ErrorMatchView| applies(a, revision))
}

/// Annotations for other revisions change nothing: the faults of the annotations, the diagnostics
/// that are left over and the lowest level that has to be announced are those of the annotations
/// that count.
pub proof fn law_other_revisions_do_not_count(
    lines: Seq<Seq<MessageView>>,
    annotations: Seq<ErrorMatchView>,
    revision: Seq<char>,
    path: TestPathView,
)
    ensures
        after_matches(lines, annotations, revision) == after_matches(
            lines,
            applying(annotations, revision),
            revision,
        ),
        matches_errors(lines, annotations, revision, path) == matches_errors(
            lines,
            applying(annotations, revision),
            revision,
            path,
        ),
        lowest_level(annotations, revision) == lowest_level(
            applying(annotations, revision),
            revision,
        ),
    decreases annotations.len(),
{
    let pred = |a: ErrorMatchView| applies(a, revision);
    if annotations.len() == 0 {
        assert(applying(annotations, revision) =~= annotations) by {
            reveal(Seq::filter);
        }
    } else {
        let init = annotations.drop_last();
        law_other_revisions_do_not_count(lines, init, revision, path);
        init.lemma_filter_push(annotations.last(), pred);
        assert(init.push(annotations.last()) =~= annotations);
        if applies(annotations.last(), revision) {
            let kept = applying(annotations, revision);
            assert(kept == applying(init, revision).push(annotations.last()));
            assert(kept.drop_last() =~= applying(init, revision));
        } else {
            assert(matches_errors(lines, annotations, revision, path) =~= matches_errors(
                lines,
                init,
                revision,
                path,
            ));
        }
    }
}

proof fn lemma_matches_errors_explicable(
    lines: Seq<Seq<MessageView>>,
    annotations: Seq<ErrorMatchView>,
    revision: Seq<char>,
    path: TestPathView,
)
    ensures
        all_explicable(matches_errors(lines, annotations, revision, path)),
    decreases annotations.len(),
{
    if annotations.len() > 0 {
        lemma_matches_errors_explicable(lines, annotations.drop_last(), revision, path);
    }
}

proof fn lemma_unannounced_errors_explicable(
    lines: Seq<Seq<MessageView>>,
    lowest: Level,
    path: TestPathView,
)
    ensures
        all_explicable(unannounced_errors(lines, lowest, path)),
    decreases lines.len(),
{
    if lines.len() > 0 {
        lemma_unannounced_errors_explicable(lines.drop_last(), lowest, path);
    }
}

/// What is wrong with the diagnostics can always be explained.
pub proof fn law_annotation_errors_can_be_explained(
    annotations: Annotations,
    pending: Pending,
    revision: Seq<char>,
    path: TestPathView,
    mode: Mode,
)
    ensures
        all_explicable(annotations.errors(pending, revision, path, mode)),
{
    let left = annotations.leftover(pending, revision);
    lemma_matches_errors_explicable(
        annotations.after_pattern(pending).lines,
        annotations.error_matches,
        revision,
        path,
    );
    lemma_unannounced_errors_explicable(left.lines, annotations.lowest(revision), path);
}

} // verus!
