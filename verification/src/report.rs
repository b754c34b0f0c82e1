//! What is shown to the user.

use crate::diagnostics::{message_views, Message, MessageView};
use crate::error::{all_explicable, error_views, explicable, Error, ErrorView, Errors};
use crate::path::{extension, TestPath, TestPathView};
use crate::style::{plain, styled, Report, SpanView, Style};
use crate::tally::{failure_views, Event, Failure, FailureView, Tally, TallyView};
use crate::text::{self, decimal};
use vstd::prelude::*;

verus! {

/// The remark that a line concerns a revision; nothing where the revision has no name.
pub open spec fn revision_remark(before: Seq<char>, revision: Seq<char>, after: Seq<char>) -> Seq<
    char,
> {
    if revision.len() == 0 {
        Seq::empty()
    } else {
        before + revision + after
    }
}

/// The remark that a line concerns a revision.
fn remark(before: &str, revision: &str, after: &str) -> (result: String)
    ensures
        result@ == revision_remark(before@, revision@, after@),
{
    if revision.is_empty() {
        String::new()
    } else {
        text::join3(before, revision, after)
    }
}

/// The line that is shown when a revision of a test has been run.
pub open spec fn progress_of(
    path: TestPathView,
    revision: Seq<char>,
    passed: bool,
) -> Seq<SpanView> {
    seq![
        plain(
            path.display() + " "@ + revision_remark("(revision `"@, revision, "`) "@) + "... "@,
        ),
        if passed {
            styled(Style::Green, "ok"@)
        } else {
            styled(Style::RedBold, "FAILED"@)
        },
        plain("\n"@),
    ]
}

/// The line that is shown when a revision of a test has been run.
pub fn progress_line(path: &TestPath, revision: &str, passed: bool) -> (report: Report)
    ensures
        report@ == progress_of(path@, revision@, passed),
{
    let head = text::join2(path.display().as_str(), " ");
    let remark = remark("(revision `", revision, "`) ");
    let mut report = Report::new();
    report.plain(text::join3(head.as_str(), remark.as_str(), "... ").as_str());
    if passed {
        report.styled(Style::Green, "ok");
    } else {
        report.styled(Style::RedBold, "FAILED");
    }
    report.plain("\n");
    assert(report@ =~= progress_of(path@, revision@, passed));
    report
}

/// The line that is shown for a test that is not run.
pub open spec fn ignored_of(path: TestPathView) -> Seq<SpanView> {
    seq![
        plain(path.display() + " ... "@),
        styled(Style::Yellow, "ignored (in-test comment)"@),
        plain("\n"@),
    ]
}

/// The line that is shown for a test that is not run.
pub fn ignored_line(path: &TestPath) -> (report: Report)
    ensures
        report@ == ignored_of(path@),
{
    let mut report = Report::new();
    report.plain(text::join2(path.display().as_str(), " ... ").as_str());
    report.styled(Style::Yellow, "ignored (in-test comment)");
    report.plain("\n");
    assert(report@ =~= ignored_of(path@));
    report
}

/// Diagnostics, each on a line of its own.
pub open spec fn message_lines(messages: Seq<MessageView>) -> Seq<char>
    decreases messages.len(),
{
    if messages.len() == 0 {
        Seq::empty()
    } else {
        message_lines(messages.drop_last()) + ("    "@ + messages.last().level.spec_name() + ": "@
            + messages.last().message + "\n"@)
    }
}

/// Diagnostics, each on a line of its own.
fn messages_text(messages: &Vec<Message>) -> (result: String)
    ensures
        result@ == message_lines(message_views(messages@)),
{
    let ghost views = message_views(messages@);
    let mut result = String::new();
    let mut i: usize = 0;
    assert(views.take(0) =~= Seq::empty());
    while i < messages.len()
        invariant
            i <= messages.len(),
            views == message_views(messages@),
            result@ == message_lines(views.take(i as int)),
        decreases messages.len() - i,
    {
        proof {
            assert(views.take(i + 1).drop_last() =~= views.take(i as int));
            assert(views.take(i + 1).last() == messages@[i as int]@);
        }
        let head = text::join3("    ", messages[i].level.name(), ": ");
        let line = text::join3(head.as_str(), messages[i].message.as_str(), "\n");
        result.append(line.as_str());
        i += 1;
    }
    assert(views.take(i as int) =~= views);
    result
}

/// A place in a file.
pub open spec fn place(path: TestPathView, line: nat) -> Seq<char> {
    path.display() + ":"@ + decimal(line)
}

/// A place in a file.
fn place_text(path: &TestPath, line: usize) -> (result: String)
    ensures
        result@ == place(path@, line as nat),
{
    text::join3(path.display().as_str(), ":", text::number(line).as_str())
}

/// How a reason for which a test fails is explained. `path` is the test file, and `comparison`
/// shows how two texts differ, where the reason is that they do.
pub open spec fn explanation(
    error: ErrorView,
    path: TestPathView,
    comparison: Seq<char>,
) -> Seq<SpanView> {
    match error {
        ErrorView::ExitStatus(mode, status) => seq![
            plain(mode.spec_name() + " got "@ + status.description + "\n"@),
        ],
        ErrorView::PatternNotFound { pattern, definition_line } => seq![
            plain("`"@ + pattern + "` "@),
            styled(Style::Red, "not found"@),
            plain(" in stderr output\nexpected because of pattern here: "@),
            styled(Style::Bold, path.display()),
            plain(":"@ + decimal(definition_line as nat) + "\n"@),
        ],
        ErrorView::NoPatternsFound => seq![
            styled(Style::Red, "no error patterns found in failure test"@),
            plain("\n"@),
        ],
        ErrorView::PatternFoundInPassTest => seq![
            styled(Style::Red, "error pattern found in success test"@),
            plain("\n"@),
        ],
        ErrorView::OutputDiffers { path: file, actual: _, expected: _ } => seq![
            plain("actual output differed from expected "@ + file.display() + "\n"@),
            plain(comparison + "\n\n"@),
        ],
        ErrorView::ErrorsWithoutPattern { msgs, path: None } => seq![
            plain(
                "There were "@ + decimal(msgs.len())
                    + " unmatched diagnostics that occurred outside the testfile and had not pattern\n"@
                    + message_lines(msgs),
            ),
        ],
        ErrorView::ErrorsWithoutPattern { msgs, path: Some((file, line)) } => seq![
            plain(
                "There were "@ + decimal(msgs.len()) + " unmatched diagnostics at "@ + place(
                    file,
                    line as nat,
                ) + "\n"@ + message_lines(msgs),
            ),
        ],
        ErrorView::ErrorPatternWithoutErrorAnnotation(file, line) => seq![
            plain(
                "Annotation at "@ + place(file, line as nat)
                    + " matched an error diagnostic but did not have `ERROR` before its message\n"@,
            ),
        ],
    }
}

/// Adds the explanation of a reason for which a test fails.
fn explain(report: &mut Report, error: &Error, path: &TestPath, comparison: &str)
    ensures
        final(report)@ == old(report)@ + explanation(error@, path@, comparison@),
{
    let ghost start = report@;
    match error {
        Error::ExitStatus(mode, status) => {
            let head = text::join2(mode.name(), " got ");
            report.plain(text::join3(head.as_str(), status.description.as_str(), "\n").as_str());
        },
        Error::PatternNotFound { pattern, definition_line } => {
            report.plain(text::join3("`", pattern.as_str(), "` ").as_str());
            report.styled(Style::Red, "not found");
            report.plain(" in stderr output\nexpected because of pattern here: ");
            report.styled(Style::Bold, path.display().as_str());
            report.plain(text::join3(":", text::number(*definition_line).as_str(), "\n").as_str());
        },
        Error::NoPatternsFound => {
            report.styled(Style::Red, "no error patterns found in failure test");
            report.plain("\n");
        },
        Error::PatternFoundInPassTest => {
            report.styled(Style::Red, "error pattern found in success test");
            report.plain("\n");
        },
        Error::OutputDiffers { path: file, actual: _, expected: _ } => {
            report.plain(
                text::join3(
                    "actual output differed from expected ",
                    file.display().as_str(),
                    "\n",
                ).as_str(),
            );
            report.plain(text::join2(comparison, "\n\n").as_str());
        },
        Error::ErrorsWithoutPattern { msgs, path: place } => {
            let number = text::number(msgs.len());
            let lines = messages_text(msgs);
            match place {
                None => {
                    let head = text::join3(
                        "There were ",
                        number.as_str(),
                        " unmatched diagnostics that occurred outside the testfile and had not pattern\n",
                    );
                    report.plain(text::join2(head.as_str(), lines.as_str()).as_str());
                },
                Some((file, line)) => {
                    let head = text::join3(
                        "There were ",
                        number.as_str(),
                        " unmatched diagnostics at ",
                    );
                    let place = place_text(file, *line);
                    let head = text::join3(head.as_str(), place.as_str(), "\n");
                    report.plain(text::join2(head.as_str(), lines.as_str()).as_str());
                },
            }
        },
        Error::ErrorPatternWithoutErrorAnnotation(file, line) => {
            let place = place_text(file, *line);
            report.plain(
                text::join3(
                    "Annotation at ",
                    place.as_str(),
                    " matched an error diagnostic but did not have `ERROR` before its message\n",
                ).as_str(),
            );
        },
    }
    assert(report@ =~= start + explanation(error@, path@, comparison@));
}

/// How several reasons are explained, one after the other, with a blank line behind each.
pub open spec fn explanations(
    errors: Seq<ErrorView>,
    path: TestPathView,
    comparisons: Seq<Seq<char>>,
) -> Seq<SpanView>
    decreases errors.len(),
{
    if errors.len() == 0 {
        Seq::empty()
    } else {
        explanations(errors.drop_last(), path, comparisons) + explanation(
            errors.last(),
            path,
            comparisons[errors.len() - 1],
        ) + seq![plain("\n"@)]
    }
}

/// A diff of the standard error output shows it already.
pub open spec fn shows_stderr(error: ErrorView) -> bool {
    error matches ErrorView::OutputDiffers { path, .. } && extension(path.file_name) == Some(
        "stderr"@,
    )
}

/// The standard error output is shown where an announced text is missing in it, unless a diff shows
/// it already.
pub open spec fn dumps_stderr(errors: Seq<ErrorView>) -> bool {
    &&& exists|i: int| 0 <= i < errors.len() && (#[trigger] errors[i]) is PatternNotFound
    &&& forall|i: int| 0 <= i < errors.len() ==> !shows_stderr(#[trigger] errors[i])
}

/// The report on a revision of a test that failed.
pub open spec fn failure_of(failure: FailureView, comparisons: Seq<Seq<char>>) -> Seq<SpanView> {
    seq![
        plain("\n"@),
        styled(Style::Underline, failure.path.display()),
        plain(revision_remark(" (revision `"@, failure.revision, "`)"@) + " "@),
        styled(Style::Red, "FAILED"@),
        plain("\ncommand: "@ + failure.command + "\n\n"@),
    ] + explanations(failure.errors, failure.path, comparisons) + (if dumps_stderr(
        failure.errors,
    ) {
        seq![plain("actual stderr:\n"@ + failure.stderr + "\n\n"@)]
    } else {
        Seq::empty()
    })
}

/// Whether the standard error output is shown below the reasons for which a test fails.
pub fn dump_stderr(errors: &Errors) -> (dump: bool)
    requires
        all_explicable(error_views(errors@)),
    ensures
        dump == dumps_stderr(error_views(errors@)),
{
    let ghost views = error_views(errors@);
    // `None` means never dump, as a diff shows the output already.
    // `Some(false)` means there's no reason to dump, as all errors are independent of the stderr.
    // `Some(true)` means that there was a pattern in the .rs file that was not found in the output.
    let mut dump: Option<bool> = Some(false);
    let mut i: usize = 0;
    while i < errors.len()
        invariant
            i <= errors.len(),
            views == error_views(errors@),
            all_explicable(views),
            match dump {
                None => exists|k: int| 0 <= k < i && shows_stderr(#[trigger] views[k]),
                Some(found) => {
                    &&& forall|k: int| 0 <= k < i ==> !shows_stderr(#[trigger] views[k])
                    &&& found == exists|k: int| 0 <= k < i && (#[trigger] views[k]) is PatternNotFound
                },
            },
        decreases errors.len() - i,
    {
        assert(views[i as int] == errors@[i as int]@);
        match &errors[i] {
            Error::PatternNotFound { pattern: _, definition_line: _ } => {
                if dump.is_some() {
                    dump = Some(true);
                }
            },
            Error::OutputDiffers { path, actual: _, expected: _ } => {
                assert(explicable(views[i as int]));
                if text::same(path.extension().unwrap().as_str(), "stderr") {
                    dump = None;
                }
            },
            _ => {},
        }
        i += 1;
    }
    match dump {
        Some(found) => found,
        None => false,
    }
}

/// The values of some comparisons.
pub open spec fn comparison_views(comparisons: Seq<Vec<String>>) -> Seq<Seq<Seq<char>>> {
    comparisons.map_values(|c: Vec<String>| text::views(c@))
}

/// Adds the report on a revision of a test that failed. There is a comparison for each of its
/// errors.
pub fn report_failure(report: &mut Report, failure: &Failure, comparisons: &Vec<String>)
    requires
        all_explicable(failure@.errors),
        comparisons@.len() == failure.errors@.len(),
    ensures
        final(report)@ == old(report)@ + failure_of(failure@, text::views(comparisons@)),
{
    let ghost start = report@;
    let ghost errors = failure@.errors;
    let ghost shown = text::views(comparisons@);
    report.plain("\n");
    report.styled(Style::Underline, failure.path.display().as_str());
    let remark = remark(" (revision `", failure.revision.as_str(), "`)");
    report.plain(text::join2(remark.as_str(), " ").as_str());
    report.styled(Style::Red, "FAILED");
    report.plain(text::join3("\ncommand: ", failure.command.as_str(), "\n\n").as_str());
    let ghost head = report@;
    let mut i: usize = 0;
    assert(errors.take(0) =~= Seq::empty());
    while i < failure.errors.len()
        invariant
            i <= failure.errors.len(),
            comparisons@.len() == failure.errors@.len(),
            errors == error_views(failure.errors@),
            shown == text::views(comparisons@),
            report@ == head + explanations(errors.take(i as int), failure.path@, shown),
        decreases failure.errors.len() - i,
    {
        proof {
            assert(errors.take(i + 1).drop_last() =~= errors.take(i as int));
            assert(errors.take(i + 1).last() == failure.errors@[i as int]@);
            assert(shown[i as int] == comparisons@[i as int]@);
        }
        explain(report, &failure.errors[i], &failure.path, comparisons[i].as_str());
        report.plain("\n");
        assert(report@ =~= head + explanations(errors.take(i + 1), failure.path@, shown));
        i += 1;
    }
    assert(errors.take(i as int) =~= errors);
    if dump_stderr(&failure.errors) {
        report.plain(
            text::join3("actual stderr:\n", failure.stderr.as_str(), "\n\n").as_str(),
        );
    }
    assert(report@ =~= start + failure_of(failure@, shown));
}

/// The reports on several revisions of tests that failed.
pub open spec fn failures_of(
    failures: Seq<FailureView>,
    comparisons: Seq<Seq<Seq<char>>>,
) -> Seq<SpanView>
    decreases failures.len(),
{
    if failures.len() == 0 {
        Seq::empty()
    } else {
        failures_of(failures.drop_last(), comparisons) + failure_of(
            failures.last(),
            comparisons[failures.len() - 1],
        )
    }
}

/// The paths of the tests that failed, each on a line of its own.
pub open spec fn failed_paths(failures: Seq<FailureView>) -> Seq<char>
    decreases failures.len(),
{
    if failures.len() == 0 {
        Seq::empty()
    } else {
        failed_paths(failures.drop_last()) + ("    "@ + failures.last().path.display() + "\n"@)
    }
}

/// The numbers at the end of the report.
pub open spec fn totals(tally: TallyView) -> Seq<SpanView> {
    seq![
        styled(Style::Green, decimal(tally.succeeded as nat)),
        plain(" tests passed, "@),
        styled(Style::Yellow, decimal(tally.ignored as nat)),
        plain(" ignored, "@),
        styled(Style::Yellow, decimal(tally.filtered as nat)),
    ]
}

/// The report on the run of all tests.
pub open spec fn summary_of(
    tally: TallyView,
    comparisons: Seq<Seq<Seq<char>>>,
) -> Seq<SpanView> {
    if tally.failures.len() > 0 {
        failures_of(tally.failures, comparisons) + seq![
            styled(Style::RedUnderline, "failures:"@),
            plain("\n"@ + failed_paths(tally.failures) + "\ntest result: "@),
            styled(Style::Red, "FAIL"@),
            plain(". "@),
            styled(Style::RedBold, decimal(tally.failures.len())),
            plain(" tests failed, "@),
        ] + totals(tally) + seq![plain(" filtered out\n"@)]
    } else {
        seq![plain("\ntest result: "@), styled(Style::Green, "ok"@), plain(". "@)] + totals(tally)
            + seq![plain(" filtered out\n\n"@)]
    }
}

/// The paths of the tests that failed, each on a line of its own.
fn failed_paths_text(failures: &Vec<Failure>) -> (result: String)
    ensures
        result@ == failed_paths(failure_views(failures@)),
{
    let ghost views = failure_views(failures@);
    let mut result = String::new();
    let mut i: usize = 0;
    assert(views.take(0) =~= Seq::empty());
    while i < failures.len()
        invariant
            i <= failures.len(),
            views == failure_views(failures@),
            result@ == failed_paths(views.take(i as int)),
        decreases failures.len() - i,
    {
        proof {
            assert(views.take(i + 1).drop_last() =~= views.take(i as int));
            assert(views.take(i + 1).last() == failures@[i as int]@);
        }
        let path = failures[i].path.display();
        result.append(text::join3("    ", path.as_str(), "\n").as_str());
        i += 1;
    }
    assert(views.take(i as int) =~= views);
    result
}

/// Adds the numbers at the end of the report.
fn report_totals(report: &mut Report, tally: &Tally)
    ensures
        final(report)@ == old(report)@ + totals(tally@),
{
    let ghost start = report@;
    report.styled(Style::Green, text::number(tally.succeeded).as_str());
    report.plain(" tests passed, ");
    report.styled(Style::Yellow, text::number(tally.ignored).as_str());
    report.plain(" ignored, ");
    report.styled(Style::Yellow, text::number(tally.filtered).as_str());
    assert(report@ =~= start + totals(tally@));
}

/// There is a comparison for each error of each failure.
pub open spec fn are_complete(
    failures: Seq<FailureView>,
    comparisons: Seq<Seq<Seq<char>>>,
) -> bool {
    &&& comparisons.len() == failures.len()
    &&& forall|i: int|
        0 <= i < failures.len() ==> (#[trigger] comparisons[i]).len() == failures[i].errors.len()
}

/// The report on the run of all tests. `comparisons` shows how the texts differ that are to be the
/// same, for each error of each failure.
pub fn summary_with(tally: &Tally, comparisons: &Vec<Vec<String>>) -> (report: Report)
    requires
        tally@.explicable(),
        are_complete(tally@.failures, comparison_views(comparisons@)),
    ensures
        report@ == summary_of(tally@, comparison_views(comparisons@)),
{
    let ghost failures = tally@.failures;
    let ghost shown = comparison_views(comparisons@);
    let mut report = Report::new();
    if tally.failures.len() == 0 {
        report.plain("\ntest result: ");
        report.styled(Style::Green, "ok");
        report.plain(". ");
        report_totals(&mut report, tally);
        report.plain(" filtered out\n\n");
        assert(report@ =~= summary_of(tally@, shown));
        return report;
    }
    let mut i: usize = 0;
    assert(failures.take(0) =~= Seq::empty());
    while i < tally.failures.len()
        invariant
            i <= tally.failures.len(),
            failures == failure_views(tally.failures@),
            shown == comparison_views(comparisons@),
            tally@.explicable(),
            tally@.failures == failures,
            are_complete(failures, shown),
            report@ == failures_of(failures.take(i as int), shown),
        decreases tally.failures.len() - i,
    {
        proof {
            assert(failures.take(i + 1).drop_last() =~= failures.take(i as int));
            assert(failures.take(i + 1).last() == tally.failures@[i as int]@);
            assert(failures[i as int] == tally.failures@[i as int]@);
            assert(shown[i as int] == text::views(comparisons@[i as int]@));
        }
        report_failure(&mut report, &tally.failures[i], &comparisons[i]);
        i += 1;
    }
    assert(failures.take(i as int) =~= failures);
    report.styled(Style::RedUnderline, "failures:");
    let paths = failed_paths_text(&tally.failures);
    report.plain(text::join3("\n", paths.as_str(), "\ntest result: ").as_str());
    report.styled(Style::Red, "FAIL");
    report.plain(". ");
    report.styled(Style::RedBold, text::number(tally.failures.len()).as_str());
    report.plain(" tests failed, ");
    report_totals(&mut report, tally);
    report.plain(" filtered out\n");
    assert(report@ =~= summary_of(tally@, shown));
    report
}

/// What `pretty_assertions::StrComparison` shows of two texts. `decisions` says, for each piece that
/// may be painted, one after the other, whether it is.
pub uninterp spec fn comparison(
    expected: Seq<char>,
    actual: Seq<char>,
    decisions: Seq<bool>,
) -> Seq<char>;

/// What may be shown to compare two texts.
pub open spec fn may_compare(expected: Seq<char>, actual: Seq<char>, shown: Seq<char>) -> bool {
    exists|decisions: Seq<bool>| shown == #[trigger] comparison(expected, actual, decisions)
}

/// Formats a `pretty_assertions::StrComparison`, which shows the lines in which two texts differ.
/// What it shows depends on the texts and on whether painting is enabled in this process, which is
/// asked anew for each piece that may be painted. The answers are not stated, as the environment
/// and the rest of the process decide.
#[verifier::external_body]
fn compare(expected: &str, actual: &str) -> (shown: String)
    ensures
        may_compare(expected@, actual@, shown@),
        exists|decisions: Seq<bool>|
            shown@ == #[trigger] comparison(expected@, actual@, decisions),
{
    pretty_assertions::StrComparison::new(expected, actual).to_string()
}

/// What is shown to compare the texts that an error speaks of; nothing for an error that speaks of
/// none.
pub open spec fn is_comparison(error: ErrorView, shown: Seq<char>) -> bool {
    match error {
        ErrorView::OutputDiffers { path: _, actual, expected } => may_compare(
            expected,
            actual,
            shown,
        ),
        _ => shown.len() == 0,
    }
}

/// The texts are comparisons for the errors.
pub open spec fn are_comparisons(errors: Seq<ErrorView>, shown: Seq<Seq<char>>) -> bool {
    &&& shown.len() == errors.len()
    &&& forall|i: int| 0 <= i < errors.len() ==> is_comparison(errors[i], #[trigger] shown[i])
}

/// Compares the texts that errors speak of.
fn compare_all(errors: &Errors) -> (comparisons: Vec<String>)
    ensures
        are_comparisons(error_views(errors@), text::views(comparisons@)),
{
    let ghost views = error_views(errors@);
    let mut comparisons: Vec<String> = Vec::new();
    let mut i: usize = 0;
    while i < errors.len()
        invariant
            i <= errors.len(),
            views == error_views(errors@),
            comparisons@.len() == i,
            forall|k: int|
                0 <= k < i ==> is_comparison(views[k], #[trigger] text::views(comparisons@)[k]),
        decreases errors.len() - i,
    {
        assert(views[i as int] == errors@[i as int]@);
        let ghost before = text::views(comparisons@);
        let shown = match &errors[i] {
            Error::OutputDiffers { path: _, actual, expected } => compare(
                expected.as_str(),
                actual.as_str(),
            ),
            _ => String::new(),
        };
        comparisons.push(shown);
        assert(text::views(comparisons@) =~= before.push(shown@));
        i += 1;
    }
    comparisons
}

/// The report on the run of all tests.
pub fn summary(tally: &Tally) -> (report: Report)
    requires
        tally@.explicable(),
    ensures
        exists|comparisons: Seq<Seq<Seq<char>>>|
            {
                &&& are_complete(tally@.failures, comparisons)
                &&& forall|i: int|
                    0 <= i < comparisons.len() ==> are_comparisons(
                        tally@.failures[i].errors,
                        #[trigger] comparisons[i],
                    )
                &&& report@ == #[trigger] summary_of(tally@, comparisons)
            },
{
    let mut comparisons: Vec<Vec<String>> = Vec::new();
    let mut i: usize = 0;
    while i < tally.failures.len()
        invariant
            i <= tally.failures.len(),
            comparisons@.len() == i,
            forall|k: int|
                0 <= k < i ==> are_comparisons(
                    tally@.failures[k].errors,
                    #[trigger] comparison_views(comparisons@)[k],
                ),
        decreases tally.failures.len() - i,
    {
        let ghost before = comparison_views(comparisons@);
        let shown = compare_all(&tally.failures[i].errors);
        comparisons.push(shown);
        assert(comparison_views(comparisons@) =~= before.push(text::views(shown@)));
        assert(tally@.failures[i as int] == tally.failures@[i as int]@);
        i += 1;
    }
    summary_with(tally, &comparisons)
}

/// Counts a revision of a test that was run, and reports on it in one line.
pub fn record_run(tally: &mut Tally, run: Failure) -> (report: Report)
    ensures
        final(tally)@ == old(tally)@.after(Event::Ran(run@)),
        report@ == progress_of(run@.path, run@.revision, run@.errors.len() == 0),
        old(tally)@.explicable() && all_explicable(run@.errors) ==> final(tally)@.explicable(),
{
    let report = progress_line(&run.path, run.revision.as_str(), run.errors.len() == 0);
    tally.count_run(run);
    report
}

/// Counts a test that is not run, and reports on it in one line.
pub fn record_ignored(tally: &mut Tally, path: &TestPath) -> (report: Report)
    ensures
        final(tally)@ == old(tally)@.after(Event::Ignored),
        report@ == ignored_of(path@),
        old(tally)@.explicable() ==> final(tally)@.explicable(),
{
    tally.count_ignored();
    ignored_line(path)
}

/// Every test that failed is listed at the end of the report.
pub proof fn law_every_failed_test_is_listed(failures: Seq<FailureView>, i: int)
    requires
        0 <= i < failures.len(),
    ensures
        text::includes(
            failed_paths(failures),
            "    "@ + failures[i].path.display() + "\n"@,
        ),
    decreases failures.len(),
{
    let before = failed_paths(failures.drop_last());
    let whole = failed_paths(failures);
    let line = "    "@ + failures[i].path.display() + "\n"@;
    if i == failures.len() - 1 {
        assert(whole.subrange(before.len() as int, (before.len() + line.len()) as int) =~= line);
        assert(text::occurs_at(whole, line, before.len() as int));
    } else {
        law_every_failed_test_is_listed(failures.drop_last(), i);
        let at = choose|at: int| text::occurs_at(before, line, at);
        assert(whole.subrange(at, at + line.len()) =~= before.subrange(at, at + line.len()));
        assert(text::occurs_at(whole, line, at));
    }
}

} // verus!
