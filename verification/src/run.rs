//! Running one test: the command that is executed, and the verdict on what it did.

use crate::annotation_laws::law_annotation_errors_can_be_explained;
use crate::annotations::{check_annotations, Pending};
use crate::comments::Comments;
use crate::config::{expected_code, status_errors, Config, OutputConflictHandling};
use crate::diagnostics::{line_views, message_views, Diagnostics};
use crate::error::{all_explicable, error_views, ErrorView, Errors, ExitStatus, ExitStatusView};
use crate::output::{
    action_for, check_output, conflict_errors, content_after, expected_text, extension_for,
    law_blessed_output_is_expected, normalized, output_extension, OutputAction, OutputActionView,
};
use crate::path::{
    dotless, extension, law_extension_after_renaming, law_names_with_an_extension,
    law_renaming_is_injective, TestPath, TestPathView,
};
use crate::target::pointer_width;
use crate::text;
use vstd::prelude::*;
use vstd::utf8::{decode_utf8, valid_utf8};

verus! {

/// An argument of the command that runs a test.
#[derive(Debug)]
pub enum Argument {
    /// The path of the test file.
    TestFile,
    /// A given text.
    Text(String),
}

/// The value of an [`Argument`].
pub enum ArgumentView {
    TestFile,
    Text(Seq<char>),
}

impl View for Argument {
    type V = ArgumentView;

    open spec fn view(&self) -> ArgumentView {
        match *self {
            Argument::TestFile => ArgumentView::TestFile,
            Argument::Text(text) => ArgumentView::Text(text@),
        }
    }
}

/// The values of some arguments.
pub open spec fn argument_views(arguments: Seq<Argument>) -> Seq<ArgumentView> {
    arguments.map_values(|a: Argument| a@)
}

/// Given texts as arguments.
pub open spec fn text_arguments(texts: Seq<Seq<char>>) -> Seq<ArgumentView> {
    texts.map_values(|t: Seq<char>| ArgumentView::Text(t))
}

/// The arguments of the command that runs a revision of a test: those of the configuration, the
/// test file, the revision where it has a name, the format of the diagnostics, and those that the
/// test file asks for.
pub open spec fn arguments_of(
    config: Config,
    revision: Seq<char>,
    comments: Comments,
) -> Seq<ArgumentView> {
    text_arguments(text::views(config.args@)) + seq![ArgumentView::TestFile] + (if revision.len()
        > 0 {
        seq![ArgumentView::Text("--cfg="@ + revision)]
    } else {
        Seq::empty()
    }) + seq![ArgumentView::Text("--error-format=json"@)] + text_arguments(
        text::views(comments.compile_flags@),
    )
}

/// Appends given texts to some arguments.
fn append_texts(arguments: &mut Vec<Argument>, texts: &Vec<String>)
    ensures
        argument_views(final(arguments)@) == argument_views(old(arguments)@) + text_arguments(
            text::views(texts@),
        ),
{
    let ghost start = argument_views(arguments@);
    let ghost added = text_arguments(text::views(texts@));
    let mut i: usize = 0;
    while i < texts.len()
        invariant
            i <= texts.len(),
            added == text_arguments(text::views(texts@)),
            argument_views(arguments@) == start + added.take(i as int),
        decreases texts.len() - i,
    {
        let ghost before = arguments@;
        arguments.push(Argument::Text(texts[i].clone()));
        assert(argument_views(arguments@) =~= argument_views(before).push(added[i as int]));
        assert(added.take(i + 1) =~= added.take(i as int).push(added[i as int]));
        i += 1;
    }
    assert(added.take(i as int) =~= added);
}

/// The arguments of the command that runs a revision of a test.
pub fn command_arguments(config: &Config, revision: &str, comments: &Comments) -> (arguments: Vec<
    Argument,
>)
    ensures
        argument_views(arguments@) == arguments_of(*config, revision@, *comments),
{
    let mut arguments: Vec<Argument> = Vec::new();
    append_texts(&mut arguments, &config.args);
    let ghost a0 = argument_views(arguments@);
    assert(a0 =~= text_arguments(text::views(config.args@)));
    arguments.push(Argument::TestFile);
    let ghost a1 = a0.push(ArgumentView::TestFile);
    assert(argument_views(arguments@) =~= a1);
    let ghost mut a2 = a1;
    if !revision.is_empty() {
        let mut cfg = "--cfg=".to_owned();
        cfg.append(revision);
        arguments.push(Argument::Text(cfg));
        proof {
            a2 = a1.push(ArgumentView::Text("--cfg="@ + revision@));
        }
        assert(argument_views(arguments@) =~= a2);
    }
    arguments.push(Argument::Text("--error-format=json".to_owned()));
    assert(argument_views(arguments@) =~= a2.push(ArgumentView::Text("--error-format=json"@)));
    append_texts(&mut arguments, &comments.compile_flags);
    assert(argument_views(arguments@) =~= arguments_of(*config, revision@, *comments));
    arguments
}

/// Calls `std::str::from_utf8`, which succeeds on valid UTF-8 and returns the text that the bytes
/// encode.
#[verifier::external_body]
fn utf8_text(bytes: &[u8]) -> (decoded: Option<&str>)
    ensures
        decoded is Some <==> valid_utf8(bytes@),
        decoded matches Some(text) ==> text@ == decode_utf8(bytes@),
{
    std::str::from_utf8(bytes).ok()
}

/// The kind of an output in a revision. A revision with a name has files of its own.
pub open spec fn revised(revision: Seq<char>, kind: Seq<char>) -> Seq<char> {
    if revision.len() == 0 {
        kind
    } else {
        revision.push('.') + kind
    }
}

/// The kind of an output in a revision.
fn revised_kind(revision: &str, kind: &str) -> (result: String)
    ensures
        result@ == revised(revision@, kind@),
{
    if revision.is_empty() {
        kind.to_owned()
    } else {
        let mut result = revision.to_owned();
        result.push('.');
        result.append(kind);
        result
    }
}

/// The file that holds the expected output of a revision of a test.
pub open spec fn expected_file(
    path: TestPathView,
    comments: Comments,
    revision: Seq<char>,
    kind: Seq<char>,
    target: Seq<char>,
) -> TestPathView {
    path.with_extension(output_extension(comments, revised(revision, kind), target))
}

/// The extensions of the files that hold the expected standard error output and the expected
/// standard output of a revision of a test.
pub fn expected_extensions(comments: &Comments, revision: &str, target: &str) -> (extensions: (
    String,
    String,
))
    ensures
        extensions.0@ == output_extension(*comments, revised(revision@, "stderr"@), target@),
        extensions.1@ == output_extension(*comments, revised(revision@, "stdout"@), target@),
{
    (
        extension_for(comments, revised_kind(revision, "stderr").as_str(), target),
        extension_for(comments, revised_kind(revision, "stdout").as_str(), target),
    )
}

/// What the files with expected output hold; `None` for a file that does not exist.
#[derive(Debug)]
pub struct ExpectedOutput {
    pub stderr: Option<String>,
    pub stdout: Option<String>,
}

/// What has to be done after a test, apart from counting it.
#[derive(Debug)]
pub struct Aftermath {
    /// The standard error output, as the compiler would have shown it.
    pub rendered: String,
    /// What has to be done to the file with the expected standard error output.
    pub stderr: OutputAction,
    /// What has to be done to the file with the expected standard output.
    pub stdout: OutputAction,
}

/// The diagnostics of a test, none of them claimed by an annotation.
pub open spec fn pending_of(diagnostics: Diagnostics) -> Pending {
    Pending {
        lines: line_views(diagnostics.messages@),
        unknown: message_views(diagnostics.messages_from_unknown_file_or_line@),
    }
}

/// A revision of a test on a target.
pub struct Case {
    pub path: TestPathView,
    pub revision: Seq<char>,
    pub target: Seq<char>,
    /// Where the compiler's libraries are, if that is known.
    pub lib_path: Option<Seq<char>>,
}

impl Case {
    /// The file with the expected output of a kind.
    pub open spec fn file(self, comments: Comments, kind: Seq<char>) -> TestPathView {
        expected_file(self.path, comments, self.revision, kind, self.target)
    }

    /// The standard error output, as it is compared.
    pub open spec fn stderr(
        self,
        config: Config,
        comments: Comments,
        rendered: Seq<char>,
    ) -> Seq<char> {
        normalized(self.path, rendered, config.stderr_filters, comments, self.lib_path)
    }

    /// The standard output, as it is compared.
    pub open spec fn stdout(
        self,
        config: Config,
        comments: Comments,
        stdout: Seq<char>,
    ) -> Seq<char> {
        normalized(self.path, stdout, config.stdout_filters, comments, self.lib_path)
    }

    /// What is wrong with the output of the test: first what differs in the standard error output,
    /// then in the standard output, and then what the annotations do not announce.
    pub open spec fn errors(
        self,
        config: Config,
        comments: Comments,
        diagnostics: Diagnostics,
        stdout: Seq<char>,
        expected: ExpectedOutput,
    ) -> Seq<ErrorView> {
        conflict_errors(
            config.output_conflict_handling,
            self.stderr(config, comments, diagnostics.rendered@),
            self.file(comments, "stderr"@),
            text::optional(expected.stderr),
        ) + conflict_errors(
            config.output_conflict_handling,
            self.stdout(config, comments, stdout),
            self.file(comments, "stdout"@),
            text::optional(expected.stdout),
        ) + comments.annotations().errors(
            pending_of(diagnostics),
            self.revision,
            self.path,
            config.mode,
        )
    }

    /// What has to be done after the test: each file with expected output is dealt with by itself.
    pub open spec fn leads_to(
        self,
        config: Config,
        comments: Comments,
        rendered: Seq<char>,
        stdout: Seq<char>,
        aftermath: Aftermath,
    ) -> bool {
        &&& aftermath.rendered@ == rendered
        &&& aftermath.stderr@ == action_for(
            config.output_conflict_handling,
            self.stderr(config, comments, rendered),
            self.file(comments, "stderr"@),
        )
        &&& aftermath.stdout@ == action_for(
            config.output_conflict_handling,
            self.stdout(config, comments, stdout),
            self.file(comments, "stdout"@),
        )
    }
}

/// Checks everything that a test printed. `diagnostics` is its standard error output, taken apart.
pub fn check_test_result(
    path: &TestPath,
    config: &Config,
    target: &str,
    revision: &str,
    comments: &Comments,
    errors: &mut Errors,
    stdout: &[u8],
    diagnostics: Diagnostics,
    expected: ExpectedOutput,
    lib_path: Option<&str>,
) -> (aftermath: Aftermath)
    requires
        valid_utf8(stdout@),
    ensures
        ({
            let case = Case {
                path: path@,
                revision: revision@,
                target: target@,
                lib_path: text::optional_str(lib_path),
            };
            let text = decode_utf8(stdout@);
            &&& error_views(final(errors)@) == error_views(old(errors)@) + case.errors(
                *config,
                *comments,
                diagnostics,
                text,
                expected,
            )
            &&& case.leads_to(*config, *comments, diagnostics.rendered@, text, aftermath)
        }),
{
    let ghost start = error_views(errors@);
    let ghost case = Case {
        path: path@,
        revision: revision@,
        target: target@,
        lib_path: text::optional_str(lib_path),
    };
    let stdout = utf8_text(stdout).unwrap();
    // Check output files against actual output
    let stderr_action = check_output(
        diagnostics.rendered.as_str(),
        path,
        errors,
        revised_kind(revision, "stderr").as_str(),
        target,
        &config.stderr_filters,
        config,
        comments,
        lib_path,
        expected.stderr,
    );
    let ghost e1 = conflict_errors(
        config.output_conflict_handling,
        case.stderr(*config, *comments, diagnostics.rendered@),
        case.file(*comments, "stderr"@),
        text::optional(expected.stderr),
    );
    let stdout_action = check_output(
        stdout,
        path,
        errors,
        revised_kind(revision, "stdout").as_str(),
        target,
        &config.stdout_filters,
        config,
        comments,
        lib_path,
        expected.stdout,
    );
    let ghost e2 = conflict_errors(
        config.output_conflict_handling,
        case.stdout(*config, *comments, stdout@),
        case.file(*comments, "stdout"@),
        text::optional(expected.stdout),
    );
    // Check error annotations in the source against output
    check_annotations(
        diagnostics.messages,
        diagnostics.messages_from_unknown_file_or_line,
        path,
        errors,
        config,
        revision,
        comments,
    );
    let ghost e3 = comments.annotations().errors(
        pending_of(diagnostics),
        revision@,
        path@,
        config.mode,
    );
    assert(start + e1 + e2 + e3 =~= start + (e1 + e2 + e3));
    Aftermath { rendered: diagnostics.rendered, stderr: stderr_action, stdout: stdout_action }
}

/// The verdict on a test that has been run: the reasons for which it fails, and what has to be
/// done after it.
pub fn judge(
    path: &TestPath,
    config: &Config,
    target: &str,
    revision: &str,
    comments: &Comments,
    status: ExitStatus,
    stdout: &[u8],
    diagnostics: Diagnostics,
    expected: ExpectedOutput,
    lib_path: Option<&str>,
) -> (verdict: (Errors, Aftermath))
    requires
        status.code is Some,
        valid_utf8(stdout@),
    ensures
        ({
            let case = Case {
                path: path@,
                revision: revision@,
                target: target@,
                lib_path: text::optional_str(lib_path),
            };
            let text = decode_utf8(stdout@);
            &&& error_views(verdict.0@) == status_errors(config.mode, status@) + case.errors(
                *config,
                *comments,
                diagnostics,
                text,
                expected,
            )
            &&& case.leads_to(*config, *comments, diagnostics.rendered@, text, verdict.1)
        }),
        all_explicable(error_views(verdict.0@)),
{
    proof {
        use_type_invariant(path);
        let case = Case {
            path: path@,
            revision: revision@,
            target: target@,
            lib_path: text::optional_str(lib_path),
        };
        law_judged_errors_can_be_explained(
            case,
            *config,
            *comments,
            diagnostics,
            decode_utf8(stdout@),
            expected,
        );
    }
    let mut errors = config.mode.ok(status);
    let aftermath = check_test_result(
        path,
        config,
        target,
        revision,
        comments,
        &mut errors,
        stdout,
        diagnostics,
        expected,
        lib_path,
    );
    (errors, aftermath)
}

/// The kinds of output that a test has.
pub open spec fn is_kind(kind: Seq<char>) -> bool {
    kind == "stderr"@ || kind == "stdout"@
}

proof fn lemma_kind(kind: Seq<char>)
    requires
        is_kind(kind),
    ensures
        kind.len() == 6,
        dotless(kind),
{
    reveal_strlit("stderr");
    reveal_strlit("stdout");
}

/// Every file with expected output has the kind of the output for an extension.
pub proof fn law_extension_of_expected_files(case: Case, comments: Comments, kind: Seq<char>)
    requires
        case.path.wf(),
        is_kind(kind),
    ensures
        extension(case.file(comments, kind).file_name) == Some(kind),
{
    lemma_kind(kind);
    let full = output_extension(comments, revised(case.revision, kind), case.target);
    let head = full.take(full.len() - kind.len());
    assert(full =~= head + kind);
    law_extension_after_renaming(case.path.file_name, head, kind);
}

/// No two outputs share a file: the kinds of output and the revisions of a test all have files of
/// their own.
pub proof fn law_expected_files_are_distinct(
    path: TestPathView,
    comments: Comments,
    target: Seq<char>,
    revision1: Seq<char>,
    kind1: Seq<char>,
    revision2: Seq<char>,
    kind2: Seq<char>,
)
    requires
        is_kind(kind1),
        is_kind(kind2),
        expected_file(path, comments, revision1, kind1, target) == expected_file(
            path,
            comments,
            revision2,
            kind2,
            target,
        ),
    ensures
        revision1 == revision2,
        kind1 == kind2,
{
    lemma_kind(kind1);
    lemma_kind(kind2);
    let r1 = revised(revision1, kind1);
    let r2 = revised(revision2, kind2);
    law_renaming_is_injective(
        path.file_name,
        output_extension(comments, r1, target),
        output_extension(comments, r2, target),
    );
    if comments.stderr_per_bitwidth {
        let width = pointer_width(target).push('.');
        assert(r1 =~= (width + r1).skip(width.len() as int));
        assert(r2 =~= (width + r2).skip(width.len() as int));
    }
    assert(r1 == r2);
    assert(kind1 =~= r1.skip(r1.len() - 6));
    assert(kind2 =~= r2.skip(r2.len() - 6));
    if revision1.len() > 0 {
        assert(revision1 =~= r1.take(r1.len() - 7));
    }
    if revision2.len() > 0 {
        assert(revision2 =~= r2.take(r2.len() - 7));
    }
    assert(revision1 =~= revision2);
}

/// Once the output of a test has been blessed, the same output differs from nothing: what is wrong
/// with the test then is only what its annotations do not announce.
pub proof fn law_blessed_test_differs_from_nothing(
    case: Case,
    bless: Config,
    check: Config,
    comments: Comments,
    diagnostics: Diagnostics,
    stdout: Seq<char>,
    aftermath: Aftermath,
    before: ExpectedOutput,
    after: ExpectedOutput,
)
    requires
        bless.output_conflict_handling == OutputConflictHandling::Bless,
        check.output_conflict_handling == OutputConflictHandling::Error,
        bless.stderr_filters == check.stderr_filters,
        bless.stdout_filters == check.stdout_filters,
        case.leads_to(bless, comments, diagnostics.rendered@, stdout, aftermath),
        text::optional(after.stderr) == content_after(
            aftermath.stderr@,
            text::optional(before.stderr),
        ),
        text::optional(after.stdout) == content_after(
            aftermath.stdout@,
            text::optional(before.stdout),
        ),
    ensures
        case.errors(check, comments, diagnostics, stdout, after) == comments.annotations().errors(
            pending_of(diagnostics),
            case.revision,
            case.path,
            check.mode,
        ),
{
    law_blessed_output_is_expected(
        case.stderr(bless, comments, diagnostics.rendered@),
        case.file(comments, "stderr"@),
        text::optional(before.stderr),
    );
    law_blessed_output_is_expected(
        case.stdout(bless, comments, stdout),
        case.file(comments, "stdout"@),
        text::optional(before.stdout),
    );
    let rest = comments.annotations().errors(
        pending_of(diagnostics),
        case.revision,
        case.path,
        check.mode,
    );
    assert(Seq::<ErrorView>::empty() + Seq::<ErrorView>::empty() + rest =~= rest);
}

/// A test passes exactly where its exit code is the one that the mode expects, both of its outputs
/// are what is expected of them, in so far as conflicts are errors, and its annotations announce
/// what has to be announced.
pub proof fn law_passes_exactly_when_all_is_as_expected(
    case: Case,
    config: Config,
    comments: Comments,
    status: ExitStatusView,
    diagnostics: Diagnostics,
    stdout: Seq<char>,
    expected: ExpectedOutput,
)
    ensures
        (status_errors(config.mode, status) + case.errors(
            config,
            comments,
            diagnostics,
            stdout,
            expected,
        )).len() == 0 <==> {
            &&& status.code == Some(expected_code(config.mode))
            &&& config.output_conflict_handling == OutputConflictHandling::Error ==> {
                &&& case.stderr(config, comments, diagnostics.rendered@) == expected_text(
                    text::optional(expected.stderr),
                )
                &&& case.stdout(config, comments, stdout) == expected_text(
                    text::optional(expected.stdout),
                )
            }
            &&& comments.annotations().errors(
                pending_of(diagnostics),
                case.revision,
                case.path,
                config.mode,
            ).len() == 0
        },
{
}

/// What is wrong with the output of a test can always be explained.
pub proof fn law_judged_errors_can_be_explained(
    case: Case,
    config: Config,
    comments: Comments,
    diagnostics: Diagnostics,
    stdout: Seq<char>,
    expected: ExpectedOutput,
)
    requires
        case.path.wf(),
    ensures
        all_explicable(case.errors(config, comments, diagnostics, stdout, expected)),
{
    law_extension_of_expected_files(case, comments, "stderr"@);
    law_extension_of_expected_files(case, comments, "stdout"@);
    law_annotation_errors_can_be_explained(
        comments.annotations(),
        pending_of(diagnostics),
        case.revision,
        case.path,
        config.mode,
    );
}

/// The command gets all arguments of the configuration, the test file, the revision where it has a
/// name, the format of the diagnostics, and all flags of the test file, one argument each and in this
/// order, and nothing else.
pub proof fn law_which_arguments_the_command_gets(
    config: Config,
    revision: Seq<char>,
    comments: Comments,
)
    ensures
        ({
            let arguments = arguments_of(config, revision, comments);
            let first = config.args@.len() as int;
            let flags = comments.compile_flags@.len() as int;
            let named: int = if revision.len() > 0 {
                1
            } else {
                0
            };
            &&& arguments.len() == first + 2 + flags + named
            &&& forall|i: int|
                0 <= i < first ==> #[trigger] arguments[i] == ArgumentView::Text(config.args@[i]@)
            &&& arguments[first] == ArgumentView::TestFile
            &&& revision.len() > 0 ==> arguments[first + 1] == ArgumentView::Text(
                "--cfg="@ + revision,
            )
            &&& arguments[first + 1 + named] == ArgumentView::Text("--error-format=json"@)
            &&& forall|i: int|
                #![trigger comments.compile_flags@[i]]
                0 <= i < flags ==> arguments[arguments.len() - flags + i] == ArgumentView::Text(
                    comments.compile_flags@[i]@,
                )
        }),
{
}

/// The file with an expected output stands beside the test and is named after it: in place of the
/// extension comes the pointer width, where the test asks for it, the revision, where it has a name,
/// and the kind of the output, with dots in between.
pub proof fn law_names_of_expected_files(
    path: TestPathView,
    name: Seq<char>,
    ending: Seq<char>,
    comments: Comments,
    revision: Seq<char>,
    kind: Seq<char>,
    target: Seq<char>,
)
    requires
        name.len() > 0,
        ending.len() > 0,
        dotless(ending),
        path.file_name == name + seq!['.'] + ending,
        is_kind(kind),
    ensures
        ({
            let file = expected_file(path, comments, revision, kind, target);
            &&& file.prefix == path.prefix
            &&& file.parent == path.parent
            &&& file.file_name == name + seq!['.'] + (if comments.stderr_per_bitwidth {
                pointer_width(target) + seq!['.']
            } else {
                Seq::empty()
            }) + (if revision.len() > 0 {
                revision + seq!['.']
            } else {
                Seq::empty()
            }) + kind
        }),
{
    lemma_kind(kind);
    let full = output_extension(comments, revised(revision, kind), target);
    assert(full.len() > 0);
    assert(path.file_name != seq!['.', '.']) by {
        assert(path.file_name[path.file_name.len() - 1] == ending[ending.len() - 1]);
    }
    law_names_with_an_extension(name, ending, full);
    let file = expected_file(path, comments, revision, kind, target);
    assert(file.file_name =~= name + seq!['.'] + (if comments.stderr_per_bitwidth {
        pointer_width(target) + seq!['.']
    } else {
        Seq::empty()
    }) + (if revision.len() > 0 {
        revision + seq!['.']
    } else {
        Seq::empty()
    }) + kind);
}

/// What the output of a test is held against: each of its two outputs, made comparable with the
/// filters for that output, against its own file, where conflicts are errors, and the diagnostics
/// against the announcements in any case. What differs in the standard error output comes first,
/// then what differs in the standard output.
pub proof fn law_both_outputs_and_the_diagnostics_are_checked(
    case: Case,
    config: Config,
    comments: Comments,
    diagnostics: Diagnostics,
    stdout: Seq<char>,
    expected: ExpectedOutput,
)
    ensures
        ({
            let errors = case.errors(config, comments, diagnostics, stdout, expected);
            let announced = comments.annotations().errors(
                Pending {
                    lines: line_views(diagnostics.messages@),
                    unknown: message_views(diagnostics.messages_from_unknown_file_or_line@),
                },
                case.revision,
                case.path,
                config.mode,
            );
            let err = normalized(
                case.path,
                diagnostics.rendered@,
                config.stderr_filters,
                comments,
                case.lib_path,
            );
            let out = normalized(
                case.path,
                stdout,
                config.stdout_filters,
                comments,
                case.lib_path,
            );
            let expected_err = match expected.stderr {
                Some(content) => content@,
                None => Seq::empty(),
            };
            let expected_out = match expected.stdout {
                Some(content) => content@,
                None => Seq::empty(),
            };
            let err_differs = ErrorView::OutputDiffers {
                path: expected_file(case.path, comments, case.revision, "stderr"@, case.target),
                actual: err,
                expected: expected_err,
            };
            let out_differs = ErrorView::OutputDiffers {
                path: expected_file(case.path, comments, case.revision, "stdout"@, case.target),
                actual: out,
                expected: expected_out,
            };
            if config.output_conflict_handling is Error {
                &&& err == expected_err && out == expected_out ==> errors == announced
                &&& err != expected_err && out == expected_out ==> errors == seq![err_differs]
                    + announced
                &&& err == expected_err && out != expected_out ==> errors == seq![out_differs]
                    + announced
                &&& err != expected_err && out != expected_out ==> errors == seq![
                    err_differs,
                    out_differs,
                ] + announced
            } else {
                errors == announced
            }
        }),
{
}

/// What is done after a test: where output is blessed, each of its two files takes over the output
/// of its kind, made comparable with the filters for that output, or is removed where there is none.
/// Otherwise neither file is touched. The standard error output is handed on as it was.
pub proof fn law_what_is_done_after_a_test(
    case: Case,
    config: Config,
    comments: Comments,
    rendered: Seq<char>,
    stdout: Seq<char>,
    aftermath: Aftermath,
)
    requires
        case.leads_to(config, comments, rendered, stdout, aftermath),
    ensures
        ({
            let err = normalized(
                case.path,
                rendered,
                config.stderr_filters,
                comments,
                case.lib_path,
            );
            let out = normalized(
                case.path,
                stdout,
                config.stdout_filters,
                comments,
                case.lib_path,
            );
            let err_file = expected_file(
                case.path,
                comments,
                case.revision,
                "stderr"@,
                case.target,
            );
            let out_file = expected_file(
                case.path,
                comments,
                case.revision,
                "stdout"@,
                case.target,
            );
            &&& aftermath.rendered@ == rendered
            &&& config.output_conflict_handling is Bless ==> {
                &&& aftermath.stderr@ == if err.len() > 0 {
                    OutputActionView::Write(err_file, err)
                } else {
                    OutputActionView::Remove(err_file)
                }
                &&& aftermath.stdout@ == if out.len() > 0 {
                    OutputActionView::Write(out_file, out)
                } else {
                    OutputActionView::Remove(out_file)
                }
            }
            &&& !(config.output_conflict_handling is Bless) ==> {
                &&& aftermath.stderr@ == OutputActionView::Keep
                &&& aftermath.stdout@ == OutputActionView::Keep
            }
        }),
{
}

} // verus!
