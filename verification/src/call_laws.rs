//! What every call of the main operations does, said of its arguments and its result.

use crate::annotations::{check_annotations, Pending};
use crate::comments::Comments;
use crate::config::{Config, Filter, Mode, OutputConflictHandling};
use crate::diagnostics::{line_views, message_views, Diagnostics, Level, Message};
use crate::error::{error_views, ErrorView, Errors, ExitStatus};
use crate::output::{
    check_normalized_output, extension_for, law_one_more_filter_of_the_configuration,
    law_one_more_replacement_of_the_test_file, law_paths_of_this_machine_are_taken_out, normalize,
    output_path, replacement, OutputAction, OutputActionView,
};
use crate::path::{dotless, law_names_with_an_extension, TestPath};
use crate::report::{
    are_comparisons, are_complete, comparison, comparison_views, dump_stderr, failed_paths,
    failures_of, ignored_line, progress_line, summary, summary_of, summary_with,
};
use crate::report_laws::{
    law_the_end_of_a_run_with_failures, law_the_report_on_a_run_without_failures,
    law_when_the_standard_error_output_is_shown, law_which_texts_are_compared,
};
use crate::run::{
    command_arguments, expected_extensions, judge, law_both_outputs_and_the_diagnostics_are_checked,
    law_what_is_done_after_a_test, law_which_arguments_the_command_gets, Aftermath, Argument,
    ArgumentView, Case, ExpectedOutput,
};
use crate::style::{may_show_span, Report, SpanView, Style};
use crate::tally::{
    failure_views, law_which_files_are_tests, plan, selected, visit, FailureView, Tally, TallyView,
    Visit,
};
use crate::target::{
    get_pointer_width, ignore_file, law_other_triples, law_triples_that_begin_with_s390x,
    law_triples_with_64_in_them, revisions_to_run,
};
use crate::text::{self, value_of};
use crate::worker::{take_path, Reading, Running, Step, StepView};
use vstd::prelude::*;
use vstd::utf8::decode_utf8;

verus! {

/// One text stands in another.
pub open spec fn stands_in(part: Seq<char>, whole: Seq<char>) -> bool {
    exists|a: Seq<char>, b: Seq<char>| whole == #[trigger] (a + part + b)
}

/// The pointer width of every target, by its triple.
pub proof fn law_every_pointer_width(triple: &str, width: &'static str)
    requires
        call_ensures(get_pointer_width, (triple,), width),
    ensures
        ({
            let wide = stands_in("64"@, triple@) && (forall|rest: Seq<char>|
                triple@ != #[trigger] (rest + "gnux32"@)) && (forall|rest: Seq<char>|
                triple@ != #[trigger] (rest + "gnu_ilp32"@));
            let s390x = exists|rest: Seq<char>| triple@ == #[trigger] ("s390x"@ + rest);
            let avr = exists|rest: Seq<char>| triple@ == #[trigger] ("avr"@ + rest);
            &&& wide || s390x ==> width@ == "64bit"@
            &&& !wide && !s390x && avr ==> width@ == "16bit"@
            &&& !wide && !s390x && !avr ==> width@ == "32bit"@
        }),
{
    let s390x = exists|rest: Seq<char>| triple@ == #[trigger] ("s390x"@ + rest);
    let wide = stands_in("64"@, triple@) && (forall|rest: Seq<char>|
        triple@ != #[trigger] (rest + "gnux32"@)) && (forall|rest: Seq<char>|
        triple@ != #[trigger] (rest + "gnu_ilp32"@));
    if s390x {
        let rest = choose|rest: Seq<char>| triple@ == #[trigger] ("s390x"@ + rest);
        law_triples_that_begin_with_s390x(rest);
    } else if wide {
        let (a, b) = choose|a: Seq<char>, b: Seq<char>| triple@ == #[trigger] (a + "64"@ + b);
        law_triples_with_64_in_them(a, b);
    } else {
        law_other_triples(triple@);
    }
}

/// A test is ignored on a target exactly where the triple holds one of the rules to ignore, where
/// one of these is the pointer width, or where the triple does not hold one of the other rules.
pub proof fn law_when_a_test_is_ignored(
    comments: &Comments,
    target: &str,
    width: &'static str,
    ignored: bool,
)
    requires
        call_ensures(ignore_file, (comments, target), ignored),
        call_ensures(get_pointer_width, (target,), width),
    ensures
        ignored <==> {
            ||| exists|i: int|
                0 <= i < comments.ignore@.len() && (stands_in(
                    (#[trigger] comments.ignore@[i])@,
                    target@,
                ) || comments.ignore@[i]@ == width@)
            ||| exists|i: int|
                0 <= i < comments.only@.len() && !stands_in(
                    (#[trigger] comments.only@[i])@,
                    target@,
                )
        },
{
    let ignore = text::views(comments.ignore@);
    let only = text::views(comments.only@);
    assert forall|i: int| 0 <= i < comments.ignore@.len() implies #[trigger] ignore[i]
        == comments.ignore@[i]@ && text::includes(target@, ignore[i]) == stands_in(
        comments.ignore@[i]@,
        target@,
    ) by {
        text::law_what_is_included(target@, ignore[i]);
    }
    assert forall|i: int| 0 <= i < comments.only@.len() implies #[trigger] only[i]
        == comments.only@[i]@ && text::includes(target@, only[i]) == stands_in(
        comments.only@[i]@,
        target@,
    ) by {
        text::law_what_is_included(target@, only[i]);
    }
    if exists|i: int|
        0 <= i < comments.ignore@.len() && (stands_in((#[trigger] comments.ignore@[i])@, target@)
            || comments.ignore@[i]@ == width@) {
        let i = choose|i: int|
            0 <= i < comments.ignore@.len() && (stands_in(
                (#[trigger] comments.ignore@[i])@,
                target@,
            ) || comments.ignore@[i]@ == width@);
        assert(crate::target::describes(ignore[i], target@));
    }
    if exists|i: int|
        0 <= i < comments.only@.len() && !stands_in((#[trigger] comments.only@[i])@, target@) {
        let i = choose|i: int|
            0 <= i < comments.only@.len() && !stands_in((#[trigger] comments.only@[i])@, target@);
        assert(!text::includes(target@, only[i]));
    }
    if ignored {
        if exists|i: int|
            0 <= i < ignore.len() && crate::target::describes(#[trigger] ignore[i], target@) {
            let i = choose|i: int|
                0 <= i < ignore.len() && crate::target::describes(#[trigger] ignore[i], target@);
            assert(comments.ignore@[i]@ == ignore[i]);
        } else {
            let i = choose|i: int|
                0 <= i < only.len() && !text::includes(target@, #[trigger] only[i]);
            assert(comments.only@[i]@ == only[i]);
        }
    }
}

/// A test that is ignored is planned in no variant, and any other one in all variants that it names,
/// in order, or in one without a name.
pub proof fn law_what_is_planned(
    comments: &Comments,
    target: &str,
    ignored: bool,
    revisions: Option<Vec<String>>,
)
    requires
        call_ensures(ignore_file, (comments, target), ignored),
        call_ensures(plan, (comments, target), revisions),
    ensures
        revisions is None <==> ignored,
        revisions matches Some(names) ==> match comments.revisions {
            Some(all) => {
                &&& names@.len() == all@.len()
                &&& forall|i: int| 0 <= i < all@.len() ==> (#[trigger] names@[i])@ == all@[i]@
            },
            None => names@.len() == 1 && names@[0]@.len() == 0,
        },
{
    if let Some(names) = revisions {
        let views = text::views(names@);
        assert forall|i: int| 0 <= i < names@.len() implies (#[trigger] names@[i])@
            == views[i] by {}
        if let Some(all) = comments.revisions {
            assert(views == text::views(all@));
            assert(views.len() == all@.len());
            assert forall|i: int| 0 <= i < all@.len() implies (#[trigger] names@[i])@
                == all@[i]@ by {
                assert(views[i] == text::views(all@)[i]);
            }
        } else {
            assert(views == seq![Seq::<char>::empty()]);
            assert(views.len() == 1);
            assert(views[0].len() == 0);
        }
    }
}

/// All variants that a test names are run, in order, or one without a name.
pub proof fn law_variants_that_are_run(comments: &Comments, revisions: Vec<String>)
    requires
        call_ensures(revisions_to_run, (comments,), revisions),
    ensures
        match comments.revisions {
            Some(all) => {
                &&& revisions@.len() == all@.len()
                &&& forall|i: int| 0 <= i < all@.len() ==> (#[trigger] revisions@[i])@ == all@[i]@
            },
            None => revisions@.len() == 1 && revisions@[0]@.len() == 0,
        },
{
    let views = text::views(revisions@);
    assert(views.len() == revisions@.len());
    assert forall|i: int| 0 <= i < revisions@.len() implies (#[trigger] revisions@[i])@
        == views[i] by {}
    if let Some(all) = comments.revisions {
        assert(views == text::views(all@));
        assert forall|i: int| 0 <= i < all@.len() implies (#[trigger] revisions@[i])@
            == all@[i]@ by {
            assert(views[i] == text::views(all@)[i]);
        }
    } else {
        assert(views == seq![Seq::<char>::empty()]);
        assert(views.len() == 1);
        assert(views[0].len() == 0);
    }
}

/// The command gets all arguments of the configuration, the test file, the revision where it has a
/// name, the format of the diagnostics, and all flags of the test file, and nothing else.
pub proof fn law_every_command(
    config: &Config,
    revision: &str,
    comments: &Comments,
    arguments: Vec<Argument>,
)
    requires
        call_ensures(command_arguments, (config, revision, comments), arguments),
    ensures
        ({
            let first = config.args@.len() as int;
            let flags = comments.compile_flags@.len() as int;
            let named: int = if revision@.len() > 0 {
                1
            } else {
                0
            };
            &&& arguments@.len() == first + 2 + flags + named
            &&& forall|i: int|
                0 <= i < first ==> (#[trigger] arguments@[i])@ == ArgumentView::Text(
                    config.args@[i]@,
                )
            &&& arguments@[first]@ == ArgumentView::TestFile
            &&& revision@.len() > 0 ==> arguments@[first + 1]@ == ArgumentView::Text(
                "--cfg="@ + revision@,
            )
            &&& arguments@[first + 1 + named]@ == ArgumentView::Text("--error-format=json"@)
            &&& forall|i: int|
                #![trigger comments.compile_flags@[i]]
                0 <= i < flags ==> arguments@[arguments@.len() - flags + i]@ == ArgumentView::Text(
                    comments.compile_flags@[i]@,
                )
        }),
{
    law_which_arguments_the_command_gets(*config, revision@, *comments);
    let views = crate::run::argument_views(arguments@);
    assert(views.len() == arguments@.len());
    assert forall|i: int| 0 <= i < arguments@.len() implies (#[trigger] arguments@[i])@
        == views[i] by {}
}

/// One more replacement that the test file asks for is made in what comes out without it.
pub proof fn law_normalizing_with_one_more_replacement(
    path: &TestPath,
    text: &str,
    filters: &Filter,
    comments: &Comments,
    more: &Comments,
    rule: (regex::Regex, String),
    lib_path: Option<&str>,
    without: String,
    with: String,
)
    requires
        more.normalize_stderr@ == comments.normalize_stderr@.push(rule),
        call_ensures(normalize, (path, text, filters, comments, lib_path), without),
        call_ensures(normalize, (path, text, filters, more, lib_path), with),
    ensures
        with@ == replacement(rule.0, without@, rule.1@),
{
    law_one_more_replacement_of_the_test_file(
        path@,
        text@,
        *filters,
        *comments,
        *more,
        rule,
        text::optional_str(lib_path),
    );
}

/// One more filter of the configuration is applied to what comes out without it, where the test file
/// asks for nothing.
pub proof fn law_normalizing_with_one_more_filter(
    path: &TestPath,
    text: &str,
    filters: &Filter,
    more: &Filter,
    rule: (regex::Regex, &'static str),
    comments: &Comments,
    lib_path: Option<&str>,
    without: String,
    with: String,
)
    requires
        more@ == filters@.push(rule),
        comments.normalize_stderr@.len() == 0,
        call_ensures(normalize, (path, text, filters, comments, lib_path), without),
        call_ensures(normalize, (path, text, more, comments, lib_path), with),
    ensures
        with@ == replacement(rule.0, without@, rule.1@),
{
    law_one_more_filter_of_the_configuration(
        path@,
        text@,
        *filters,
        *more,
        rule,
        *comments,
        text::optional_str(lib_path),
    );
}

/// Where nobody asks for replacements, the directory of the test is exchanged for `$DIR`, and then
/// the one of the libraries for `RUSTLIB`.
pub proof fn law_normalizing_without_replacements(
    path: &TestPath,
    text: &str,
    filters: &Filter,
    comments: &Comments,
    lib: &str,
    without: String,
    with: String,
)
    requires
        filters@.len() == 0,
        comments.normalize_stderr@.len() == 0,
        call_ensures(normalize, (path, text, filters, comments, None), without),
        call_ensures(normalize, (path, text, filters, comments, Some(lib)), with),
    ensures
        without@ == text::replaced(text@, path@.parent, "$DIR"@),
        with@ == text::replaced(without@, lib@, "RUSTLIB"@),
{
    law_paths_of_this_machine_are_taken_out(path@, text@, *filters, *comments, lib@);
}

/// The file with expected output stands beside the test and has its name, with the extension for the
/// output in place of its own. That is the kind of the output, behind the pointer width of the target
/// where the test asks for it.
pub proof fn law_every_output_path(
    path: &TestPath,
    name: Seq<char>,
    ending: Seq<char>,
    comments: &Comments,
    kind: &str,
    target: &str,
    width: &'static str,
    extension: String,
    file: TestPath,
)
    requires
        name.len() > 0,
        ending.len() > 0,
        dotless(ending),
        path@.file_name == name + seq!['.'] + ending,
        kind@.len() > 0,
        call_ensures(get_pointer_width, (target,), width),
        call_ensures(extension_for, (comments, kind, target), extension),
        call_ensures(output_path, (path, comments, kind, target), file),
    ensures
        !comments.stderr_per_bitwidth ==> extension@ == kind@,
        comments.stderr_per_bitwidth ==> extension@ == width@ + seq!['.'] + kind@,
        file@.prefix == path@.prefix,
        file@.parent == path@.parent,
        file@.file_name == name + seq!['.'] + extension@,
{
    crate::output::law_extensions_of_expected_output(*comments, kind@, target@);
    assert(path@.file_name != seq!['.', '.']) by {
        assert(path@.file_name[path@.file_name.len() - 1] == ending[ending.len() - 1]);
    }
    law_names_with_an_extension(name, ending, extension@);
}

/// The files of a revision with a name have the revision before the kind of their output.
pub proof fn law_extensions_in_a_revision(
    comments: &Comments,
    revision: &str,
    target: &str,
    width: &'static str,
    extensions: (String, String),
)
    requires
        call_ensures(get_pointer_width, (target,), width),
        call_ensures(expected_extensions, (comments, revision, target), extensions),
    ensures
        ({
            let before = (if comments.stderr_per_bitwidth {
                width@ + seq!['.']
            } else {
                Seq::empty()
            }) + (if revision@.len() > 0 {
                revision@ + seq!['.']
            } else {
                Seq::empty()
            });
            &&& extensions.0@ == before + "stderr"@
            &&& extensions.1@ == before + "stdout"@
        }),
{
    let before = (if comments.stderr_per_bitwidth {
        width@ + seq!['.']
    } else {
        Seq::empty()
    }) + (if revision@.len() > 0 {
        revision@ + seq!['.']
    } else {
        Seq::empty()
    });
    assert(extensions.0@ =~= before + "stderr"@);
    assert(extensions.1@ =~= before + "stdout"@);
}

/// Exactly the codes 0, 101 and 1 are accepted, each in its mode. Every other status is reported as it
/// is.
pub proof fn law_every_exit_status(mode: Mode, status: ExitStatus, errors: Errors)
    requires
        call_ensures(Mode::ok, (mode, status), errors),
    ensures
        ({
            let accepted = (mode is Pass && status.code == Some(0i32)) || (mode is Panic
                && status.code == Some(101i32)) || (mode is Fail && status.code == Some(1i32));
            &&& accepted ==> errors@.len() == 0
            &&& !accepted ==> errors@.len() == 1 && errors@[0]@ == ErrorView::ExitStatus(
                mode,
                status@,
            )
        }),
{
    let views = error_views(errors@);
    assert(views.len() == errors@.len());
    assert(errors@.len() > 0 ==> views[0] == errors@[0]@);
}

/// Output that has been made comparable is compared with what the file holds where conflicts are
/// errors, put into the file where it is blessed, and not looked at where it is ignored.
pub proof fn law_checking_comparable_output(
    output: String,
    path: TestPath,
    errors: &mut Errors,
    handling: OutputConflictHandling,
    expected: Option<String>,
    action: OutputAction,
)
    requires
        call_ensures(check_normalized_output, (output, path, errors, handling, expected), action),
    ensures
        ({
            let content = match expected {
                Some(text) => text@,
                None => Seq::empty(),
            };
            let before = error_views(old(errors)@);
            let after = error_views(final(errors)@);
            &&& handling is Error && output@ != content ==> after == before.push(
                ErrorView::OutputDiffers { path: path@, actual: output@, expected: content },
            )
            &&& !(handling is Error) || output@ == content ==> after == before
            &&& handling is Bless && output@.len() > 0 ==> action@ == OutputActionView::Write(
                path@,
                output@,
            )
            &&& handling is Bless && output@.len() == 0 ==> action@ == OutputActionView::Remove(
                path@,
            )
            &&& !(handling is Bless) ==> action@ == OutputActionView::Keep
        }),
{
}

/// The verdict on a test: first what is wrong with its exit status, then what differs in its two
/// outputs, each made comparable by itself, and then what is wrong with its diagnostics. What is done
/// to the two files is what blessing asks for.
pub proof fn law_every_verdict(
    path: &TestPath,
    config: &Config,
    target: &str,
    revision: &str,
    comments: &Comments,
    status: ExitStatus,
    stdout: &[u8],
    diagnostics: Diagnostics,
    expected: ExpectedOutput,
    lib_path: Option<&str>,
    verdict: (Errors, Aftermath),
    status_errors: Errors,
    err_text: &str,
    err: String,
    out_text: &str,
    out: String,
)
    requires
        call_ensures(
            judge,
            (
                path,
                config,
                target,
                revision,
                comments,
                status,
                stdout,
                diagnostics,
                expected,
                lib_path,
            ),
            verdict,
        ),
        call_ensures(Mode::ok, (config.mode, status), status_errors),
        err_text@ == diagnostics.rendered@,
        out_text@ == decode_utf8(stdout@),
        call_ensures(
            normalize,
            (path, err_text, &config.stderr_filters, comments, lib_path),
            err,
        ),
        call_ensures(normalize, (path, out_text, &config.stdout_filters, comments, lib_path), out),
    ensures
        ({
            let found = error_views(verdict.0@);
            let announced = comments.annotations().errors(
                Pending {
                    lines: line_views(diagnostics.messages@),
                    unknown: message_views(diagnostics.messages_from_unknown_file_or_line@),
                },
                revision@,
                path@,
                config.mode,
            );
            let err_file = crate::run::expected_file(
                path@,
                *comments,
                revision@,
                "stderr"@,
                target@,
            );
            let out_file = crate::run::expected_file(
                path@,
                *comments,
                revision@,
                "stdout"@,
                target@,
            );
            let expected_err = match expected.stderr {
                Some(content) => content@,
                None => Seq::empty(),
            };
            let expected_out = match expected.stdout {
                Some(content) => content@,
                None => Seq::empty(),
            };
            let err_errors = if config.output_conflict_handling is Error && err@ != expected_err {
                seq![
                    ErrorView::OutputDiffers {
                        path: err_file,
                        actual: err@,
                        expected: expected_err,
                    },
                ]
            } else {
                Seq::empty()
            };
            let out_errors = if config.output_conflict_handling is Error && out@ != expected_out {
                seq![
                    ErrorView::OutputDiffers {
                        path: out_file,
                        actual: out@,
                        expected: expected_out,
                    },
                ]
            } else {
                Seq::empty()
            };
            &&& found == error_views(status_errors@) + err_errors + out_errors + announced
            &&& verdict.1.rendered@ == diagnostics.rendered@
            &&& config.output_conflict_handling is Bless ==> {
                &&& verdict.1.stderr@ == if err@.len() > 0 {
                    OutputActionView::Write(err_file, err@)
                } else {
                    OutputActionView::Remove(err_file)
                }
                &&& verdict.1.stdout@ == if out@.len() > 0 {
                    OutputActionView::Write(out_file, out@)
                } else {
                    OutputActionView::Remove(out_file)
                }
            }
            &&& !(config.output_conflict_handling is Bless) ==> {
                &&& verdict.1.stderr@ == OutputActionView::Keep
                &&& verdict.1.stdout@ == OutputActionView::Keep
            }
        }),
{
    let case = Case {
        path: path@,
        revision: revision@,
        target: target@,
        lib_path: text::optional_str(lib_path),
    };
    let text = decode_utf8(stdout@);
    law_both_outputs_and_the_diagnostics_are_checked(
        case,
        *config,
        *comments,
        diagnostics,
        text,
        expected,
    );
    law_what_is_done_after_a_test(
        case,
        *config,
        *comments,
        diagnostics.rendered@,
        text,
        verdict.1,
    );
}

/// Checking diagnostics puts what is wrong with them behind the errors that there are, and changes
/// none of these.
pub proof fn law_errors_are_put_behind_those_that_there_are(
    messages: Vec<Vec<Message>>,
    unknown: Vec<Message>,
    path: &TestPath,
    errors: &mut Errors,
    config: &Config,
    revision: &str,
    comments: &Comments,
)
    requires
        call_ensures(
            check_annotations,
            (messages, unknown, path, errors, config, revision, comments),
            (),
        ),
    ensures
        error_views(final(errors)@) == error_views(old(errors)@) + comments.annotations().errors(
            Pending { lines: line_views(messages@), unknown: message_views(unknown@) },
            revision@,
            path@,
            config.mode,
        ),
{
}

/// Files whose names end in `.rs` behind something else are tests. Those are inspected of which a
/// filter stands in the path, or all of them where there is no filter.
pub proof fn law_every_visit(is_dir: bool, path: Option<&TestPath>, config: &Config, decision: Visit)
    requires
        call_ensures(visit, (is_dir, path, config), decision),
    ensures
        is_dir ==> decision == Visit::Expand,
        !is_dir ==> match path {
            None => decision == Visit::Skip,
            Some(file) => {
                let is_test = exists|name: Seq<char>|
                    name.len() > 0 && file@.file_name == #[trigger] (name + ".rs"@);
                let is_selected = config.path_filter@.len() == 0 || exists|i: int|
                    0 <= i < config.path_filter@.len() && stands_in(
                        (#[trigger] config.path_filter@[i])@,
                        file@.prefix + file@.file_name,
                    );
                &&& !is_test ==> decision == Visit::Skip
                &&& is_test && is_selected ==> decision == Visit::Inspect
                &&& is_test && !is_selected ==> decision == Visit::Filtered
            },
        },
{
    if let Some(file) = path {
        law_which_files_are_tests(file@, text::views(config.path_filter@));
        lemma_selected(file, config);
    }
}

proof fn lemma_selected(file: &TestPath, config: &Config)
    ensures
        selected(file@, text::views(config.path_filter@)) <==> config.path_filter@.len() == 0
            || exists|i: int|
            0 <= i < config.path_filter@.len() && stands_in(
                (#[trigger] config.path_filter@[i])@,
                file@.prefix + file@.file_name,
            ),
{
    let filters = text::views(config.path_filter@);
    assert(filters.len() == config.path_filter@.len());
    assert forall|i: int| 0 <= i < filters.len() implies #[trigger] filters[i]
        == config.path_filter@[i]@ && text::includes(file@.display(), filters[i]) == stands_in(
        config.path_filter@[i]@,
        file@.prefix + file@.file_name,
    ) by {
        text::law_what_is_included(file@.display(), filters[i]);
    }
    if exists|i: int|
        0 <= i < config.path_filter@.len() && stands_in(
            (#[trigger] config.path_filter@[i])@,
            file@.prefix + file@.file_name,
        ) {
        let i = choose|i: int|
            0 <= i < config.path_filter@.len() && stands_in(
                (#[trigger] config.path_filter@[i])@,
                file@.prefix + file@.file_name,
            );
        assert(text::includes(file@.display(), filters[i]));
    }
    if exists|i: int|
        0 <= i < filters.len() && text::includes(file@.display(), #[trigger] filters[i]) {
        let i = choose|i: int|
            0 <= i < filters.len() && text::includes(file@.display(), #[trigger] filters[i]);
        assert(stands_in(config.path_filter@[i]@, file@.prefix + file@.file_name));
    }
}

/// A path that is taken from the queue is dealt with as its visit says, and counted only where it is a
/// test that is not selected.
pub proof fn law_every_path_that_is_taken(
    is_dir: bool,
    path: Option<TestPath>,
    config: &Config,
    tally: &mut Tally,
    step: Step,
    decision: Visit,
)
    requires
        call_ensures(take_path, (is_dir, path, config, tally), step),
        call_ensures(
            visit,
            (
                is_dir,
                match path {
                    Some(file) => Some(&file),
                    None => None,
                },
                config,
            ),
            decision,
        ),
    ensures
        decision is Expand ==> step@ == StepView::Expand,
        decision is Skip ==> step@ == StepView::Next,
        decision is Filtered ==> step@ == StepView::Next,
        decision is Inspect ==> path is Some && step@ == StepView::Read(path.unwrap()@),
        !(decision is Filtered) ==> final(tally)@ == old(tally)@,
        decision is Filtered && old(tally)@.filtered < usize::MAX ==> final(tally)@ == (TallyView {
            filtered: (old(tally)@.filtered + 1) as usize,
            ..old(tally)@
        }),
{
}

/// A test whose comments have been read is run in all planned variants, or counted as ignored.
pub proof fn law_every_test_that_is_read(
    reading: Reading,
    comments: Comments,
    target: &str,
    tally: &mut Tally,
    result: (Step, Report),
    revisions: Option<Vec<String>>,
)
    requires
        call_ensures(Reading::finish, (reading, comments, target, tally), result),
        call_ensures(plan, (&comments, target), revisions),
    ensures
        match revisions {
            None => {
                &&& result.0@ == StepView::Next
                &&& result.1@.len() == 3
                &&& old(tally)@.ignored < usize::MAX ==> final(tally)@ == (TallyView {
                    ignored: (old(tally)@.ignored + 1) as usize,
                    ..old(tally)@
                })
            },
            Some(names) => {
                &&& final(tally)@ == old(tally)@
                &&& result.1@.len() == 0
                &&& names@.len() == 0 ==> result.0@ == StepView::Next
                &&& names@.len() > 0 ==> {
                    &&& result.0@ matches StepView::Run(running)
                    &&& running.path == reading@
                    &&& running.comments == comments
                    &&& running.remaining == text::views(names@)
                }
            },
        },
{
    if let Some(names) = revisions {
        assert(text::views(names@).len() == names@.len());
    }
}

/// A revision that has been run is counted by its errors, and the worker goes on to the next one that
/// has to be run, if there is any, and to the next path, if there is none.
pub proof fn law_every_revision_that_is_run(
    running: Running,
    command: String,
    errors: Errors,
    stderr: String,
    tally: &mut Tally,
    result: (Step, Report),
)
    requires
        call_ensures(Running::finish, (running, command, errors, stderr, tally), result),
    ensures
        running@.remaining.len() > 0,
        running@.remaining.len() == 1 ==> result.0@ == StepView::Next,
        running@.remaining.len() > 1 ==> {
            &&& result.0@ matches StepView::Run(next)
            &&& next.path == running@.path
            &&& next.comments == running@.comments
            &&& next.remaining == running@.remaining.subrange(
                1,
                running@.remaining.len() as int,
            )
        },
        errors@.len() == 0 && old(tally)@.succeeded < usize::MAX ==> final(tally)@ == (TallyView {
            succeeded: (old(tally)@.succeeded + 1) as usize,
            ..old(tally)@
        }),
        errors@.len() > 0 ==> final(tally)@ == (TallyView {
            failures: old(tally)@.failures.push(
                FailureView {
                    path: running@.path,
                    command: command@,
                    revision: running@.remaining[0],
                    errors: error_views(errors@),
                    stderr: stderr@,
                },
            ),
            ..old(tally)@
        }),
        result.1@.len() == 3,
        result.1@[1].text == if errors@.len() == 0 {
            "ok"@
        } else {
            "FAILED"@
        },
{
    assert(error_views(errors@).len() == errors@.len());
}

/// The run of all tests is a success exactly where there is no failure.
pub proof fn law_when_all_is_well(tally: &Tally, ok: bool)
    requires
        call_ensures(Tally::is_ok, (tally,), ok),
    ensures
        ok <==> tally.failures@.len() == 0,
{
    assert(tally@.failures.len() == tally.failures@.len());
}

/// A run with failures ends with the numbers of failed, passed, ignored and unselected tests, whatever
/// is shown of the differences, and one without with the last three of them.
pub proof fn law_numbers_at_the_end(
    tally: &Tally,
    comparisons: &Vec<Vec<String>>,
    report: Report,
)
    requires
        call_ensures(summary, (tally,), report) || call_ensures(
            summary_with,
            (tally, comparisons),
            report,
        ),
    ensures
        ({
            let n = report@.len() as int;
            &&& tally.failures@.len() > 0 ==> {
                &&& n >= 12
                &&& report@[n - 10].text == "FAIL"@
                &&& report@[n - 9].text == ". "@
                &&& value_of(report@[n - 8].text) == tally.failures@.len()
                &&& report@[n - 7].text == " tests failed, "@
                &&& value_of(report@[n - 6].text) == tally.succeeded
                &&& report@[n - 5].text == " tests passed, "@
                &&& value_of(report@[n - 4].text) == tally.ignored
                &&& report@[n - 3].text == " ignored, "@
                &&& value_of(report@[n - 2].text) == tally.filtered
                &&& report@[n - 1].text == " filtered out\n"@
            }
            &&& tally.failures@.len() == 0 ==> {
                &&& n == 9
                &&& report@[1].text == "ok"@
                &&& value_of(report@[3].text) == tally.succeeded
                &&& report@[4].text == " tests passed, "@
                &&& value_of(report@[5].text) == tally.ignored
                &&& report@[6].text == " ignored, "@
                &&& value_of(report@[7].text) == tally.filtered
                &&& report@[8].text == " filtered out\n\n"@
            }
        }),
{
    assert(tally@.failures.len() == tally.failures@.len());
    assert(exists|shown: Seq<Seq<Seq<char>>>|
        report@ == #[trigger] summary_of(tally@, shown));
    let shown = choose|shown: Seq<Seq<Seq<char>>>|
        report@ == #[trigger] summary_of(tally@, shown);
    if tally.failures@.len() > 0 {
        law_the_end_of_a_run_with_failures(tally@, shown);
    } else {
        law_the_report_on_a_run_without_failures(tally@, shown);
    }
}

/// The line on a run names the test and the revision, where it has a name, and says whether it is
/// fine. The line on an ignored test names the test.
pub proof fn law_every_line_on_a_test(
    path: &TestPath,
    revision: &str,
    passed: bool,
    line: Report,
    ignored: Report,
)
    requires
        call_ensures(progress_line, (path, revision, passed), line),
        call_ensures(ignored_line, (path,), ignored),
    ensures
        line@.len() == 3,
        line@[0].text == path@.prefix + path@.file_name + " "@ + (if revision@.len() > 0 {
            "(revision `"@ + revision@ + "`) "@
        } else {
            Seq::empty()
        }) + "... "@,
        passed ==> line@[1] == (SpanView { style: Style::Green, text: "ok"@ }),
        !passed ==> line@[1] == (SpanView { style: Style::RedBold, text: "FAILED"@ }),
        line@[2].text == "\n"@,
        ignored@.len() == 3,
        ignored@[0].text == path@.prefix + path@.file_name + " ... "@,
        ignored@[1] == (SpanView { style: Style::Yellow, text: "ignored (in-test comment)"@ }),
        ignored@[2].text == "\n"@,
{
}

/// The standard error output is shown where an announced text is missing, unless a difference in a file
/// whose name ends in `.stderr` shows it already.
pub proof fn law_every_decision_to_show_the_output(errors: &Errors, dump: bool)
    requires
        call_ensures(dump_stderr, (errors,), dump),
    ensures
        dump <==> {
            &&& exists|i: int|
                0 <= i < errors@.len() && (#[trigger] error_views(errors@)[i]) is PatternNotFound
            &&& forall|i: int, name: Seq<char>|
                #![trigger error_views(errors@)[i], name + ".stderr"@]
                0 <= i < errors@.len() && name.len() > 0 ==> !(error_views(errors@)[i] matches
                    ErrorView::OutputDiffers { path, .. } && path.file_name == name + ".stderr"@)
        },
{
    law_when_the_standard_error_output_is_shown(error_views(errors@));
}

/// Searching finds a text exactly where it is a part, the beginning or the end of another, and two
/// texts are the same exactly where they are equal.
pub proof fn law_every_search(
    whole: &str,
    part: &str,
    contains: bool,
    starts: bool,
    ends: bool,
    same: bool,
)
    requires
        call_ensures(text::contains, (whole, part), contains),
        call_ensures(text::starts_with, (whole, part), starts),
        call_ensures(text::ends_with, (whole, part), ends),
        call_ensures(text::same, (whole, part), same),
    ensures
        contains <==> stands_in(part@, whole@),
        starts <==> exists|rest: Seq<char>| whole@ == #[trigger] (part@ + rest),
        ends <==> exists|rest: Seq<char>| whole@ == #[trigger] (rest + part@),
        same <==> whole@ == part@,
{
    text::law_what_is_included(whole@, part@);
    text::law_beginnings_and_ends(whole@, part@);
}

/// What is written of a number reads as that number.
pub proof fn law_every_number(value: usize, written: String)
    requires
        call_ensures(text::number, (value,), written),
    ensures
        value_of(written@) == value,
{
    text::law_a_number_can_be_read_back(value as nat);
}

/// The first occurrence of a text is exchanged, what is before it stays, and what is behind it is dealt
/// with in the same way.
pub proof fn law_every_replacement(
    whole: &str,
    rest: &str,
    before: Seq<char>,
    from: &str,
    to: &str,
    result: String,
    result_of_rest: String,
)
    requires
        from@.len() > 0,
        whole@ == before + from@ + rest@,
        !stands_in(from@, before + from@.drop_last()),
        call_ensures(text::replace, (whole, from, to), result),
        call_ensures(text::replace, (rest, from, to), result_of_rest),
    ensures
        result@ == before + to@ + result_of_rest@,
{
    text::law_what_is_included(before + from@.drop_last(), from@);
    text::law_replacing_goes_on_behind_the_first(before, rest@, from@, to@);
}

/// A file name with something before its last dot has what is behind it for an extension, and another
/// extension takes the place of that one alone.
pub proof fn law_every_extension(
    path: &TestPath,
    name: Seq<char>,
    ending: Seq<char>,
    new_extension: &str,
    found: Option<String>,
    renamed: TestPath,
)
    requires
        name.len() > 0,
        ending.len() > 0,
        dotless(ending),
        path@.file_name == name + seq!['.'] + ending,
        new_extension@.len() > 0,
        call_ensures(TestPath::extension, (path,), found),
        call_ensures(TestPath::with_extension, (path, new_extension), renamed),
    ensures
        found is Some,
        found.unwrap()@ == ending,
        renamed@.prefix == path@.prefix,
        renamed@.parent == path@.parent,
        renamed@.file_name == name + seq!['.'] + new_extension@,
{
    assert(path@.file_name != seq!['.', '.']) by {
        assert(path@.file_name[path@.file_name.len() - 1] == ending[ending.len() - 1]);
    }
    law_names_with_an_extension(name, ending, new_extension@);
}

/// A level is at least as severe as the levels up to it in the order of notes on failures, notes,
/// help, warnings and errors.
pub proof fn law_every_comparison_of_levels(a: Level, b: Level, at_least: bool, other_way: bool)
    requires
        call_ensures(Level::at_least, (a, b), at_least),
        call_ensures(Level::at_least, (b, a), other_way),
    ensures
        a is Error ==> at_least,
        a is Warn ==> (at_least <==> !(b is Error)),
        a is Help ==> (at_least <==> !(b is Error) && !(b is Warn)),
        a is Note ==> (at_least <==> b is Note || b is FailureNote),
        a is FailureNote ==> (at_least <==> b is FailureNote),
        at_least && other_way ==> a == b,
{
}

/// Everything that is said of the failures, and the list of them, stands in the report on a run with
/// failures, with the given comparisons, one for each error of each failure.
pub proof fn law_failures_in_the_report(
    tally: &Tally,
    comparisons: &Vec<Vec<String>>,
    report: Report,
)
    requires
        tally.failures@.len() > 0,
        call_ensures(summary_with, (tally, comparisons), report),
    ensures
        ({
            let n = report@.len() as int;
            let failures = failure_views(tally.failures@);
            &&& n >= 12
            &&& report@[n - 11].text == "\n"@ + failed_paths(failures) + "\ntest result: "@
            &&& report@.take(n - 12) == failures_of(
                failures,
                Seq::new(
                    comparisons@.len(),
                    |i: int| Seq::new(comparisons@[i]@.len(), |j: int| comparisons@[i]@[j]@),
                ),
            )
        }),
{
    let shown = comparison_views(comparisons@);
    let given = Seq::new(
        comparisons@.len(),
        |i: int| Seq::new(comparisons@[i]@.len(), |j: int| comparisons@[i]@[j]@),
    );
    assert forall|i: int| 0 <= i < shown.len() implies #[trigger] shown[i] == given[i] by {
        assert(shown[i] =~= given[i]);
    }
    assert(shown =~= given);
    assert(tally@.failures.len() == tally.failures@.len());
    law_the_end_of_a_run_with_failures(tally@, shown);
}

/// What is shown for an error compares the expected output with the actual one, in this order, where
/// they differ, and is nothing for every other error.
pub open spec fn compares(error: ErrorView, shown: Seq<char>) -> bool {
    match error {
        ErrorView::OutputDiffers { path: _, actual, expected } => exists|decisions: Seq<bool>|
            shown == #[trigger] comparison(expected, actual, decisions),
        _ => shown.len() == 0,
    }
}

/// In the report on a run, the expected output is compared with the actual one wherever they differ,
/// in this order.
pub proof fn law_comparisons_in_the_report(tally: &Tally, report: Report)
    requires
        call_ensures(summary, (tally,), report),
    ensures
        exists|comparisons: Seq<Seq<Seq<char>>>|
            {
                &&& report@ == #[trigger] summary_of(tally@, comparisons)
                &&& comparisons.len() == tally.failures@.len()
                &&& forall|i: int|
                    0 <= i < comparisons.len() ==> (#[trigger] comparisons[i]).len()
                        == tally.failures@[i].errors@.len()
                &&& forall|i: int, j: int|
                    0 <= i < comparisons.len() && 0 <= j < comparisons[i].len() ==> compares(
                        error_views(tally.failures@[i].errors@)[j],
                        #[trigger] comparisons[i][j],
                    )
            },
{
    let comparisons = choose|comparisons: Seq<Seq<Seq<char>>>|
        {
            &&& are_complete(tally@.failures, comparisons)
            &&& forall|i: int|
                0 <= i < comparisons.len() ==> are_comparisons(
                    tally@.failures[i].errors,
                    #[trigger] comparisons[i],
                )
            &&& report@ == #[trigger] summary_of(tally@, comparisons)
        };
    assert(tally@.failures.len() == tally.failures@.len());
    assert forall|i: int| 0 <= i < comparisons.len() implies (#[trigger] comparisons[i]).len()
        == tally.failures@[i].errors@.len() by {
        assert(tally@.failures[i].errors == error_views(tally.failures@[i].errors@));
    }
    assert forall|i: int, j: int|
        0 <= i < comparisons.len() && 0 <= j < comparisons[i].len() implies compares(
        error_views(tally.failures@[i].errors@)[j],
        #[trigger] comparisons[i][j],
    ) by {
        assert(are_comparisons(tally@.failures[i].errors, comparisons[i]));
        assert(tally@.failures[i].errors == error_views(tally.failures@[i].errors@));
        law_which_texts_are_compared(
            error_views(tally.failures@[i].errors@)[j],
            comparisons[i][j],
        );
    }
    assert(report@ == summary_of(tally@, comparisons));
}

/// A report is written piece by piece, each as its style allows, and nothing else is written.
pub proof fn law_every_report_that_is_written(report: &Report, shown: String)
    requires
        call_ensures(Report::render, (report,), shown),
    ensures
        exists|pieces: Seq<Seq<char>>|
            {
                &&& shown@ == #[trigger] text::concatenated(pieces)
                &&& pieces.len() == report.spans@.len()
                &&& forall|i: int|
                    0 <= i < pieces.len() ==> may_show_span(
                        SpanView {
                            style: report.spans@[i].style,
                            text: report.spans@[i].text@,
                        },
                        #[trigger] pieces[i],
                    )
            },
{
    let pieces = choose|pieces: Seq<Seq<char>>|
        {
            &&& pieces.len() == report@.len()
            &&& forall|i: int|
                0 <= i < pieces.len() ==> may_show_span(report@[i], #[trigger] pieces[i])
            &&& shown@ == #[trigger] text::concatenated(pieces)
        };
    assert forall|i: int| 0 <= i < pieces.len() implies may_show_span(
        SpanView { style: report.spans@[i].style, text: report.spans@[i].text@ },
        #[trigger] pieces[i],
    ) by {
        assert(report@[i] == report.spans@[i]@);
    }
}

} // verus!
