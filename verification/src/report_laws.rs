//! What holds of everything that is shown to the user.

use crate::diagnostics::MessageView;
use crate::error::ErrorView;
use crate::path::{extension, law_names_with_an_extension, splits_extension, TestPathView};
use crate::report::{
    comparison, dumps_stderr, explanation, explanations, failed_paths, failure_of, failures_of,
    ignored_of, is_comparison, message_lines, progress_of, shows_stderr, summary_of, totals,
};
use crate::style::{SpanView, Style};
use crate::tally::{FailureView, TallyView};
use crate::text::{self, concatenated, decimal, value_of};
use vstd::prelude::*;

verus! {

/// What a report says, whatever its styles are.
pub open spec fn wording(report: Seq<SpanView>) -> Seq<char> {
    concatenated(report.map_values(|s: SpanView| s.text))
}

/// What two reports say, one after the other.
proof fn lemma_wording(a: Seq<SpanView>, b: Seq<SpanView>)
    ensures
        wording(a + b) == wording(a) + wording(b),
{
    let f = |s: SpanView| s.text;
    assert((a + b).map_values(f) =~= a.map_values(f) + b.map_values(f));
    text::law_concatenating_in_parts(a.map_values(f), b.map_values(f), Seq::empty());
}

proof fn lemma_wording_of_one(span: SpanView)
    ensures
        wording(seq![span]) == span.text,
{
    let f = |s: SpanView| s.text;
    assert(seq![span].map_values(f) =~= seq![span.text]);
    text::law_concatenating_in_parts(Seq::empty(), Seq::empty(), span.text);
}

proof fn lemma_wording_of_none()
    ensures
        wording(Seq::empty()) == Seq::<char>::empty(),
{
    let f = |s: SpanView| s.text;
    assert(Seq::<SpanView>::empty().map_values(f) =~= Seq::empty());
}

/// What a report says is what its last piece says behind what all others say.
proof fn lemma_wording_of_last(report: Seq<SpanView>)
    requires
        report.len() > 0,
    ensures
        wording(report) == wording(report.drop_last()) + report.last().text,
{
    assert(report =~= report.drop_last() + seq![report.last()]);
    lemma_wording(report.drop_last(), seq![report.last()]);
    lemma_wording_of_one(report.last());
}

/// What a report of up to five pieces says.
proof fn lemma_wording_of_few(report: Seq<SpanView>)
    ensures
        report.len() == 1 ==> wording(report) == report[0].text,
        report.len() == 2 ==> wording(report) == report[0].text + report[1].text,
        report.len() == 5 ==> wording(report) == report[0].text + report[1].text + report[2].text
            + report[3].text + report[4].text,
{
    if report.len() == 1 {
        assert(report =~= seq![report[0]]);
        lemma_wording_of_one(report[0]);
    } else if report.len() == 2 {
        assert(report =~= seq![report[0]] + seq![report[1]]);
        lemma_wording(seq![report[0]], seq![report[1]]);
        lemma_wording_of_one(report[0]);
        lemma_wording_of_one(report[1]);
    } else if report.len() == 5 {
        let r4 = report.drop_last();
        let r3 = r4.drop_last();
        let r2 = r3.drop_last();
        let r1 = r2.drop_last();
        lemma_wording_of_last(report);
        lemma_wording_of_last(r4);
        lemma_wording_of_last(r3);
        lemma_wording_of_last(r2);
        assert(r1 =~= seq![report[0]]);
        lemma_wording_of_one(report[0]);
    }
}

/// At the end of the report on a run with failures stand the number of failures, of passed tests, of
/// ignored tests and of tests that were not selected, each before what it is the number of. Before
/// them stand the result, the list of the failed tests, and all that is said of each of them.
pub proof fn law_the_end_of_a_run_with_failures(
    tally: TallyView,
    comparisons: Seq<Seq<Seq<char>>>,
)
    requires
        tally.failures.len() > 0,
    ensures
        ({
            let report = summary_of(tally, comparisons);
            let n = report.len() as int;
            &&& n >= 12
            &&& report.take(n - 12) == failures_of(tally.failures, comparisons)
            &&& report[n - 12] == (SpanView { style: Style::RedUnderline, text: "failures:"@ })
            &&& report[n - 11] == (SpanView {
                style: Style::Plain,
                text: "\n"@ + failed_paths(tally.failures) + "\ntest result: "@,
            })
            &&& report[n - 10] == (SpanView { style: Style::Red, text: "FAIL"@ })
            &&& report[n - 9] == (SpanView { style: Style::Plain, text: ". "@ })
            &&& report[n - 8].style == Style::RedBold
            &&& report[n - 8].text == decimal(tally.failures.len())
            &&& value_of(report[n - 8].text) == tally.failures.len()
            &&& report[n - 7] == (SpanView { style: Style::Plain, text: " tests failed, "@ })
            &&& report[n - 6].style == Style::Green
            &&& report[n - 6].text == decimal(tally.succeeded as nat)
            &&& value_of(report[n - 6].text) == tally.succeeded
            &&& report[n - 5] == (SpanView { style: Style::Plain, text: " tests passed, "@ })
            &&& report[n - 4].style == Style::Yellow
            &&& report[n - 4].text == decimal(tally.ignored as nat)
            &&& value_of(report[n - 4].text) == tally.ignored
            &&& report[n - 3] == (SpanView { style: Style::Plain, text: " ignored, "@ })
            &&& report[n - 2].style == Style::Yellow
            &&& report[n - 2].text == decimal(tally.filtered as nat)
            &&& value_of(report[n - 2].text) == tally.filtered
            &&& report[n - 1] == (SpanView { style: Style::Plain, text: " filtered out\n"@ })
        }),
{
    text::law_a_number_can_be_read_back(tally.failures.len());
    text::law_a_number_can_be_read_back(tally.succeeded as nat);
    text::law_a_number_can_be_read_back(tally.ignored as nat);
    text::law_a_number_can_be_read_back(tally.filtered as nat);
    let report = summary_of(tally, comparisons);
    let n = report.len() as int;
    let head = failures_of(tally.failures, comparisons);
    assert(totals(tally).len() == 5);
    assert(n == head.len() + 12);
    assert(report.take(n - 12) =~= head);
}

/// The number of failed tests that is shown depends on nothing but the failures: two runs that
/// differ in the other numbers, and in how differences are shown, show the same one.
pub proof fn law_the_number_of_failed_tests(
    one: TallyView,
    other: TallyView,
    comparisons: Seq<Seq<Seq<char>>>,
    others: Seq<Seq<Seq<char>>>,
)
    requires
        one.failures.len() > 0,
        one.failures.len() == other.failures.len(),
    ensures
        ({
            let a = summary_of(one, comparisons);
            let b = summary_of(other, others);
            a[a.len() - 8] == b[b.len() - 8]
        }),
{
    law_the_end_of_a_run_with_failures(one, comparisons);
    law_the_end_of_a_run_with_failures(other, others);
}

/// The report on a run without failures says that it is a success, and how many tests passed, were
/// ignored and were not selected, each number before what it is the number of.
pub proof fn law_the_report_on_a_run_without_failures(
    tally: TallyView,
    comparisons: Seq<Seq<Seq<char>>>,
)
    requires
        tally.failures.len() == 0,
    ensures
        ({
            let report = summary_of(tally, comparisons);
            &&& report.len() == 9
            &&& report[0] == (SpanView { style: Style::Plain, text: "\ntest result: "@ })
            &&& report[1] == (SpanView { style: Style::Green, text: "ok"@ })
            &&& report[2] == (SpanView { style: Style::Plain, text: ". "@ })
            &&& report[3].style == Style::Green
            &&& report[3].text == decimal(tally.succeeded as nat)
            &&& value_of(report[3].text) == tally.succeeded
            &&& report[4] == (SpanView { style: Style::Plain, text: " tests passed, "@ })
            &&& report[5].style == Style::Yellow
            &&& report[5].text == decimal(tally.ignored as nat)
            &&& value_of(report[5].text) == tally.ignored
            &&& report[6] == (SpanView { style: Style::Plain, text: " ignored, "@ })
            &&& report[7].style == Style::Yellow
            &&& report[7].text == decimal(tally.filtered as nat)
            &&& value_of(report[7].text) == tally.filtered
            &&& report[8] == (SpanView { style: Style::Plain, text: " filtered out\n\n"@ })
        }),
{
    text::law_a_number_can_be_read_back(tally.succeeded as nat);
    text::law_a_number_can_be_read_back(tally.ignored as nat);
    text::law_a_number_can_be_read_back(tally.filtered as nat);
}

proof fn lemma_failures_of_more_comparisons(
    failures: Seq<FailureView>,
    comparisons: Seq<Seq<Seq<char>>>,
    more: Seq<Seq<char>>,
)
    requires
        failures.len() <= comparisons.len(),
    ensures
        failures_of(failures, comparisons.push(more)) == failures_of(failures, comparisons),
    decreases failures.len(),
{
    if failures.len() > 0 {
        lemma_failures_of_more_comparisons(failures.drop_last(), comparisons, more);
    }
}

proof fn lemma_explanations_of_more_comparisons(
    errors: Seq<ErrorView>,
    path: TestPathView,
    comparisons: Seq<Seq<char>>,
    more: Seq<char>,
)
    requires
        errors.len() <= comparisons.len(),
    ensures
        explanations(errors, path, comparisons.push(more)) == explanations(
            errors,
            path,
            comparisons,
        ),
    decreases errors.len(),
{
    if errors.len() > 0 {
        lemma_explanations_of_more_comparisons(errors.drop_last(), path, comparisons, more);
    }
}

/// One more failure is reported behind all others, and listed behind all others.
pub proof fn law_one_more_failure_is_reported(
    failures: Seq<FailureView>,
    comparisons: Seq<Seq<Seq<char>>>,
    failure: FailureView,
    comparison: Seq<Seq<char>>,
)
    requires
        comparisons.len() == failures.len(),
    ensures
        failures_of(Seq::empty(), comparisons).len() == 0,
        failed_paths(Seq::empty()).len() == 0,
        failures_of(failures.push(failure), comparisons.push(comparison)) == failures_of(
            failures,
            comparisons,
        ) + failure_of(failure, comparison),
        failed_paths(failures.push(failure)) == failed_paths(failures) + "    "@
            + failure.path.prefix + failure.path.file_name + "\n"@,
{
    assert(failures.push(failure).drop_last() =~= failures);
    lemma_failures_of_more_comparisons(failures, comparisons, comparison);
    assert(failed_paths(failures) + ("    "@ + failure.path.display() + "\n"@) =~= failed_paths(
        failures,
    ) + "    "@ + failure.path.prefix + failure.path.file_name + "\n"@);
}

/// One more reason is explained behind all others, with an empty line behind it.
pub proof fn law_one_more_reason_is_explained(
    errors: Seq<ErrorView>,
    path: TestPathView,
    comparisons: Seq<Seq<char>>,
    error: ErrorView,
    comparison: Seq<char>,
)
    requires
        comparisons.len() == errors.len(),
    ensures
        explanations(Seq::empty(), path, comparisons).len() == 0,
        explanations(errors.push(error), path, comparisons.push(comparison)) == explanations(
            errors,
            path,
            comparisons,
        ) + explanation(error, path, comparison) + seq![
            SpanView { style: Style::Plain, text: "\n"@ },
        ],
{
    assert(errors.push(error).drop_last() =~= errors);
    lemma_explanations_of_more_comparisons(errors, path, comparisons, comparison);
}

/// One more diagnostic is shown behind all others, on a line of its own, with its level and all of
/// its text.
pub proof fn law_one_more_diagnostic_is_shown(messages: Seq<MessageView>, message: MessageView)
    ensures
        message_lines(Seq::empty()).len() == 0,
        message_lines(messages.push(message)) == message_lines(messages) + "    "@
            + message.level.spec_name() + ": "@ + message.message + "\n"@,
{
    assert(messages.push(message).drop_last() =~= messages);
    assert(message_lines(messages) + ("    "@ + message.level.spec_name() + ": "@ + message.message
        + "\n"@) =~= message_lines(messages) + "    "@ + message.level.spec_name() + ": "@
        + message.message + "\n"@);
}

/// The report on a failure names the test, the revision where it has a name, and the command, then
/// explains the reasons, and then shows the standard error output where that is called for.
pub proof fn law_what_is_said_of_a_failure(failure: FailureView, comparisons: Seq<Seq<char>>)
    ensures
        wording(failure_of(failure, comparisons)) == "\n"@ + (failure.path.prefix
            + failure.path.file_name) + ((if failure.revision.len() > 0 {
            " (revision `"@ + failure.revision + "`)"@
        } else {
            Seq::empty()
        }) + " "@) + "FAILED"@ + ("\ncommand: "@ + failure.command + "\n\n"@) + wording(
            explanations(failure.errors, failure.path, comparisons),
        ) + (if dumps_stderr(failure.errors) {
            "actual stderr:\n"@ + failure.stderr + "\n\n"@
        } else {
            Seq::empty()
        }),
        failure_of(failure, comparisons)[1].style == Style::Underline,
        failure_of(failure, comparisons)[3].style == Style::Red,
{
    let whole = failure_of(failure, comparisons);
    let head = whole.take(5);
    let reasons = explanations(failure.errors, failure.path, comparisons);
    let tail = whole.skip(5 + reasons.len() as int);
    assert(whole =~= head + reasons + tail);
    lemma_wording(head + reasons, tail);
    lemma_wording(head, reasons);
    lemma_wording_of_few(head);
    lemma_wording_of_few(tail);
    if !dumps_stderr(failure.errors) {
        assert(tail =~= Seq::empty());
        lemma_wording_of_none();
    }
}

/// Every reason is explained with all that it is about: the mode and the status, the missing text and
/// where it is announced, the file and the difference, the diagnostics and where they are, or the
/// place of the annotation.
pub proof fn law_what_is_said_of_a_reason(
    error: ErrorView,
    path: TestPathView,
    comparison: Seq<char>,
)
    ensures
        ({
            let said = wording(explanation(error, path, comparison));
            match error {
                ErrorView::ExitStatus(mode, status) => said == mode.spec_name() + " got "@
                    + status.description + "\n"@,
                ErrorView::PatternNotFound { pattern, definition_line } => said == "`"@ + pattern
                    + "` "@ + "not found"@
                    + " in stderr output\nexpected because of pattern here: "@ + (path.prefix
                    + path.file_name) + (":"@ + decimal(definition_line as nat) + "\n"@),
                ErrorView::NoPatternsFound => said == "no error patterns found in failure test"@
                    + "\n"@,
                ErrorView::PatternFoundInPassTest => said == "error pattern found in success test"@
                    + "\n"@,
                ErrorView::OutputDiffers { path: file, actual: _, expected: _ } => said
                    == "actual output differed from expected "@ + (file.prefix + file.file_name)
                    + "\n"@ + (comparison + "\n\n"@),
                ErrorView::ErrorsWithoutPattern { msgs, path: None } => said == "There were "@
                    + decimal(msgs.len())
                    + " unmatched diagnostics that occurred outside the testfile and had not pattern\n"@
                    + message_lines(msgs),
                ErrorView::ErrorsWithoutPattern { msgs, path: Some((file, line)) } => said
                    == "There were "@ + decimal(msgs.len()) + " unmatched diagnostics at "@ + (
                file.prefix + file.file_name + ":"@ + decimal(line as nat)) + "\n"@ + message_lines(
                    msgs,
                ),
                ErrorView::ErrorPatternWithoutErrorAnnotation(file, line) => said
                    == "Annotation at "@ + (file.prefix + file.file_name + ":"@ + decimal(
                    line as nat,
                ))
                    + " matched an error diagnostic but did not have `ERROR` before its message\n"@,
            }
        }),
{
    lemma_wording_of_few(explanation(error, path, comparison));
}

/// A file is one with expected standard error output where its name ends in `.stderr` behind
/// something else.
proof fn lemma_shows_stderr(path: TestPathView, actual: Seq<char>, expected: Seq<char>)
    ensures
        shows_stderr(ErrorView::OutputDiffers { path, actual, expected }) <==> exists|
            name: Seq<char>,
        |
            name.len() > 0 && path.file_name == #[trigger] (name + ".stderr"@),
{
    reveal_strlit(".stderr");
    reveal_strlit("stderr");
    if exists|name: Seq<char>| name.len() > 0 && path.file_name == #[trigger] (name + ".stderr"@) {
        let name = choose|name: Seq<char>|
            name.len() > 0 && path.file_name == #[trigger] (name + ".stderr"@);
        assert(path.file_name =~= name + seq!['.'] + "stderr"@);
        law_names_with_an_extension(name, "stderr"@, "stderr"@);
    }
    if extension(path.file_name) == Some("stderr"@) {
        let at = choose|at: int| splits_extension(path.file_name, at);
        assert(splits_extension(path.file_name, at));
        let tail = path.file_name.skip(at + 1);
        assert(tail == "stderr"@);
        assert(tail.len() == 6);
        assert forall|k: int| at < k < path.file_name.len() implies #[trigger] path.file_name[k]
            == tail[k - at - 1] by {}
        assert(path.file_name =~= path.file_name.take(at) + ".stderr"@);
    }
}

/// The standard error output is shown where some announced text is missing, unless a difference in a
/// file whose name ends in `.stderr` shows it already. The order of the reasons does not matter.
pub proof fn law_when_the_standard_error_output_is_shown(errors: Seq<ErrorView>)
    ensures
        dumps_stderr(errors) <==> {
            &&& exists|i: int| 0 <= i < errors.len() && (#[trigger] errors[i]) is PatternNotFound
            &&& forall|i: int, name: Seq<char>|
                #![trigger errors[i], name + ".stderr"@]
                0 <= i < errors.len() && name.len() > 0 ==> !(errors[i] matches
                    ErrorView::OutputDiffers { path, .. } && path.file_name == name + ".stderr"@)
        },
{
    assert forall|i: int| 0 <= i < errors.len() implies #[trigger] shows_stderr(errors[i]) == (
    errors[i] matches ErrorView::OutputDiffers { path, .. } && exists|name: Seq<char>|
        name.len() > 0 && path.file_name == #[trigger] (name + ".stderr"@)) by {
        if let ErrorView::OutputDiffers { path, actual, expected } = errors[i] {
            lemma_shows_stderr(path, actual, expected);
        }
    }
    if dumps_stderr(errors) {
        assert forall|i: int, name: Seq<char>|
            #![trigger errors[i], name + ".stderr"@]
            0 <= i < errors.len() && name.len() > 0 implies !(errors[i] matches
            ErrorView::OutputDiffers { path, .. } && path.file_name == name + ".stderr"@) by {
            assert(!shows_stderr(errors[i]));
        }
    }
    if forall|i: int, name: Seq<char>|
        #![trigger errors[i], name + ".stderr"@]
        0 <= i < errors.len() && name.len() > 0 ==> !(errors[i] matches ErrorView::OutputDiffers {
            path,
            ..
        } && path.file_name == name + ".stderr"@) {
        assert forall|i: int| 0 <= i < errors.len() implies !shows_stderr(
            #[trigger] errors[i],
        ) by {
            if shows_stderr(errors[i]) {
                let path = errors[i]->OutputDiffers_path;
                let name = choose|name: Seq<char>|
                    name.len() > 0 && path.file_name == #[trigger] (name + ".stderr"@);
                assert(path.file_name == name + ".stderr"@);
            }
        }
    }
}

/// The line on a run names the test and the revision, where it has a name, and says in green that it
/// is fine or in red and bold that it failed.
pub proof fn law_what_is_said_of_a_run(path: TestPathView, revision: Seq<char>)
    ensures
        forall|passed: bool|
            {
                let report = #[trigger] progress_of(path, revision, passed);
                &&& report.len() == 3
                &&& report[0] == (SpanView {
                    style: Style::Plain,
                    text: path.prefix + path.file_name + " "@ + (if revision.len() > 0 {
                        "(revision `"@ + revision + "`) "@
                    } else {
                        Seq::empty()
                    }) + "... "@,
                })
                &&& report[2] == (SpanView { style: Style::Plain, text: "\n"@ })
            },
        progress_of(path, revision, true)[1] == (SpanView { style: Style::Green, text: "ok"@ }),
        progress_of(path, revision, false)[1] == (SpanView {
            style: Style::RedBold,
            text: "FAILED"@,
        }),
{
}

/// The line on a test that is not run names the test, and says in yellow that it is ignored.
pub proof fn law_what_is_said_of_an_ignored_test(path: TestPathView)
    ensures
        ignored_of(path).len() == 3,
        ignored_of(path)[0] == (SpanView {
            style: Style::Plain,
            text: path.prefix + path.file_name + " ... "@,
        }),
        ignored_of(path)[1] == (SpanView {
            style: Style::Yellow,
            text: "ignored (in-test comment)"@,
        }),
        ignored_of(path)[2] == (SpanView { style: Style::Plain, text: "\n"@ }),
{
}

/// Where output differs, the expected output is compared with the actual one, in this order. For no
/// other error anything is compared.
pub proof fn law_which_texts_are_compared(error: ErrorView, shown: Seq<char>)
    requires
        is_comparison(error, shown),
    ensures
        error matches ErrorView::OutputDiffers { path: _, actual, expected } ==> exists|
            decisions: Seq<bool>,
        |
            shown == #[trigger] comparison(expected, actual, decisions),
        !(error is OutputDiffers) ==> shown.len() == 0,
{
}

} // verus!
