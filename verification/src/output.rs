//! Comparing the output of a test with the output that is expected of it.

use crate::comments::Comments;
use crate::config::{Config, Filter, OutputConflictHandling};
use crate::error::{error_views, Error, ErrorView, Errors};
use crate::path::{TestPath, TestPathView};
use crate::target::{get_pointer_width, pointer_width};
use crate::text;
use regex::Regex;
use vstd::prelude::*;

verus! {

/// The text that `regex::Regex::replace_all` makes of `text`: every match of `regex` is exchanged
/// for what `template` says, in which `$` refers to groups of the match.
pub uninterp spec fn replacement(
    regex: Regex,
    text: Seq<char>,
    template: Seq<char>,
) -> Seq<char>;

/// Calls `regex::Regex::replace_all` with a replacement text. What it returns depends on the
/// expression, the text and the replacement alone.
#[verifier::external_body]
fn replace_all(regex: &Regex, text: &str, template: &str) -> (result: String)
    ensures
        result@ == replacement(*regex, text@, template@),
{
    regex.replace_all(text, template).into_owned()
}

/// Some text after replacements have been made in it, one after the other.
pub open spec fn filtered(rules: Seq<(Regex, Seq<char>)>, text: Seq<char>) -> Seq<char>
    decreases rules.len(),
{
    if rules.len() == 0 {
        text
    } else {
        replacement(rules.last().0, filtered(rules.drop_last(), text), rules.last().1)
    }
}

/// The replacements of a filter.
pub open spec fn filter_rules(filters: Filter) -> Seq<(Regex, Seq<char>)> {
    filters@.map_values(|rule: (Regex, &'static str)| (rule.0, rule.1@))
}

/// The replacements that a test file asks for.
pub open spec fn comment_rules(rules: Seq<(Regex, String)>) -> Seq<(Regex, Seq<char>)> {
    rules.map_values(|rule: (Regex, String)| (rule.0, rule.1@))
}

/// Some text without the paths of this machine: the directory of the test file is shown as `$DIR`,
/// the one of the compiler's libraries as `RUSTLIB`.
pub open spec fn without_paths(
    path: TestPathView,
    text: Seq<char>,
    lib_path: Option<Seq<char>>,
) -> Seq<char> {
    let here = text::replaced(text, path.parent, "$DIR"@);
    match lib_path {
        Some(lib) => text::replaced(here, lib, "RUSTLIB"@),
        None => here,
    }
}

/// Some output of a test as it is compared: without the paths of this machine, and with the
/// replacements that the configuration and then those that the test file asks for.
pub open spec fn normalized(
    path: TestPathView,
    text: Seq<char>,
    filters: Filter,
    comments: Comments,
    lib_path: Option<Seq<char>>,
) -> Seq<char> {
    filtered(
        comment_rules(comments.normalize_stderr@),
        filtered(filter_rules(filters), without_paths(path, text, lib_path)),
    )
}

/// Takes the paths of this machine out of some text.
pub fn strip_paths(path: &TestPath, text: &str, lib_path: Option<&str>) -> (result: String)
    ensures
        result@ == without_paths(path@, text@, text::optional_str(lib_path)),
{
    let result = text::replace(text, path.parent(), "$DIR");
    match lib_path {
        Some(lib) => text::replace(result.as_str(), lib, "RUSTLIB"),
        None => result,
    }
}

/// Makes the output of a test comparable.
pub fn normalize(
    path: &TestPath,
    text: &str,
    filters: &Filter,
    comments: &Comments,
    lib_path: Option<&str>,
) -> (result: String)
    ensures
        result@ == normalized(path@, text@, *filters, *comments, text::optional_str(lib_path)),
{
    let mut result = strip_paths(path, text, lib_path);
    let ghost stripped = result@;
    let ghost rules = filter_rules(*filters);
    let mut i: usize = 0;
    while i < filters.len()
        invariant
            i <= filters.len(),
            rules == filter_rules(*filters),
            result@ == filtered(rules.take(i as int), stripped),
        decreases filters.len() - i,
    {
        assert(rules.take(i + 1).drop_last() =~= rules.take(i as int));
        let rule = &filters[i];
        result = replace_all(&rule.0, result.as_str(), rule.1);
        i += 1;
    }
    assert(rules.take(i as int) =~= rules);
    let ghost middle = result@;
    let ghost own = comment_rules(comments.normalize_stderr@);
    let mut j: usize = 0;
    while j < comments.normalize_stderr.len()
        invariant
            j <= comments.normalize_stderr.len(),
            own == comment_rules(comments.normalize_stderr@),
            result@ == filtered(own.take(j as int), middle),
        decreases comments.normalize_stderr.len() - j,
    {
        assert(own.take(j + 1).drop_last() =~= own.take(j as int));
        let rule = &comments.normalize_stderr[j];
        result = replace_all(&rule.0, result.as_str(), rule.1.as_str());
        j += 1;
    }
    assert(own.take(j as int) =~= own);
    result
}

/// The extension of a file with expected output.
pub open spec fn output_extension(
    comments: Comments,
    kind: Seq<char>,
    target: Seq<char>,
) -> Seq<char> {
    if comments.stderr_per_bitwidth {
        pointer_width(target).push('.') + kind
    } else {
        kind
    }
}

/// The extension of a file with expected output.
pub fn extension_for(comments: &Comments, kind: &str, target: &str) -> (extension: String)
    ensures
        extension@ == output_extension(*comments, kind@, target@),
{
    if comments.stderr_per_bitwidth {
        let mut extension = get_pointer_width(target).to_owned();
        extension.push('.');
        extension.append(kind);
        return extension;
    }
    kind.to_owned()
}

/// The file that holds the expected output of a test.
pub fn output_path(path: &TestPath, comments: &Comments, kind: &str, target: &str) -> (file:
    TestPath)
    ensures
        file@ == path@.with_extension(output_extension(*comments, kind@, target@)),
        file@.wf(),
{
    path.with_extension(extension_for(comments, kind, target).as_str())
}

/// What has to be done to a file with expected output.
#[derive(Debug)]
pub enum OutputAction {
    /// Nothing.
    Keep,
    /// The file is not to exist.
    Remove(TestPath),
    /// The file is to hold this text and nothing else.
    Write(TestPath, String),
}

/// The value of an [`OutputAction`].
pub enum OutputActionView {
    Keep,
    Remove(TestPathView),
    Write(TestPathView, Seq<char>),
}

impl View for OutputAction {
    type V = OutputActionView;

    open spec fn view(&self) -> OutputActionView {
        match *self {
            OutputAction::Keep => OutputActionView::Keep,
            OutputAction::Remove(path) => OutputActionView::Remove(path@),
            OutputAction::Write(path, text) => OutputActionView::Write(path@, text@),
        }
    }
}

/// What is done to the file with expected output: only where output is blessed it takes over the
/// output, and then there is no file for output that is empty.
pub open spec fn action_for(
    handling: OutputConflictHandling,
    output: Seq<char>,
    path: TestPathView,
) -> OutputActionView {
    match handling {
        OutputConflictHandling::Bless => if output.len() == 0 {
            OutputActionView::Remove(path)
        } else {
            OutputActionView::Write(path, output)
        },
        OutputConflictHandling::Error => OutputActionView::Keep,
        OutputConflictHandling::Ignore => OutputActionView::Keep,
    }
}

/// The output that is expected: what the file holds, or nothing where there is no such file.
pub open spec fn expected_text(file: Option<Seq<char>>) -> Seq<char> {
    match file {
        Some(content) => content,
        None => Seq::empty(),
    }
}

/// What is wrong with the output of a test. Only where conflicts are errors it has to be what the
/// file holds.
pub open spec fn conflict_errors(
    handling: OutputConflictHandling,
    output: Seq<char>,
    path: TestPathView,
    file: Option<Seq<char>>,
) -> Seq<ErrorView> {
    if handling == OutputConflictHandling::Error && output != expected_text(file) {
        seq![ErrorView::OutputDiffers { path, actual: output, expected: expected_text(file) }]
    } else {
        Seq::empty()
    }
}

/// Checks output that has been made comparable against the file `path`, which holds `expected`.
pub fn check_normalized_output(
    output: String,
    path: TestPath,
    errors: &mut Errors,
    handling: OutputConflictHandling,
    expected: Option<String>,
) -> (action: OutputAction)
    ensures
        action@ == action_for(handling, output@, path@),
        error_views(final(errors)@) == error_views(old(errors)@) + conflict_errors(
            handling,
            output@,
            path@,
            text::optional(expected),
        ),
{
    let ghost before = error_views(errors@);
    match handling {
        OutputConflictHandling::Bless => if output.as_str().is_empty() {
            OutputAction::Remove(path)
        } else {
            OutputAction::Write(path, output)
        },
        OutputConflictHandling::Error => {
            let expected = match expected {
                Some(content) => content,
                None => String::new(),
            };
            if !text::same(output.as_str(), expected.as_str()) {
                errors.push(Error::OutputDiffers { path, actual: output, expected });
                assert(error_views(errors@) =~= before.push(errors@.last()@));
            }
            OutputAction::Keep
        },
        OutputConflictHandling::Ignore => OutputAction::Keep,
    }
}

/// Checks one of the outputs of a test. `expected` is what its file with expected output holds.
pub fn check_output(
    output: &str,
    path: &TestPath,
    errors: &mut Errors,
    kind: &str,
    target: &str,
    filters: &Filter,
    config: &Config,
    comments: &Comments,
    lib_path: Option<&str>,
    expected: Option<String>,
) -> (action: OutputAction)
    ensures
        ({
            let text = normalized(
                path@,
                output@,
                *filters,
                *comments,
                text::optional_str(lib_path),
            );
            let file = path@.with_extension(output_extension(*comments, kind@, target@));
            &&& action@ == action_for(config.output_conflict_handling, text, file)
            &&& error_views(final(errors)@) == error_views(old(errors)@) + conflict_errors(
                config.output_conflict_handling,
                text,
                file,
                text::optional(expected),
            )
        }),
{
    let output = normalize(path, output, filters, comments, lib_path);
    let path = output_path(path, comments, kind, target);
    check_normalized_output(output, path, errors, config.output_conflict_handling, expected)
}

/// What a file holds once an action has been taken, if it held `before`.
pub open spec fn content_after(
    action: OutputActionView,
    before: Option<Seq<char>>,
) -> Option<Seq<char>> {
    match action {
        OutputActionView::Keep => before,
        OutputActionView::Remove(_) => None,
        OutputActionView::Write(_, text) => Some(text),
    }
}

/// The file that an action changes.
pub open spec fn changed_file(action: OutputActionView) -> Option<TestPathView> {
    match action {
        OutputActionView::Keep => None,
        OutputActionView::Remove(path) => Some(path),
        OutputActionView::Write(path, _) => Some(path),
    }
}

/// Output that has been blessed is what is expected from then on, whatever the file held before.
pub proof fn law_blessed_output_is_expected(
    output: Seq<char>,
    path: TestPathView,
    before: Option<Seq<char>>,
)
    ensures
        ({
            let action = action_for(OutputConflictHandling::Bless, output, path);
            &&& changed_file(action) == Some(path)
            &&& expected_text(content_after(action, before)) == output
            &&& conflict_errors(
                OutputConflictHandling::Error,
                output,
                path,
                content_after(action, before),
            ) == Seq::<ErrorView>::empty()
        }),
{
    if output.len() == 0 {
        assert(output =~= Seq::empty());
    }
}

/// No file is changed unless output is blessed, and differing output is no error unless conflicts
/// are errors.
pub proof fn law_conflicts_are_handled_one_way(
    handling: OutputConflictHandling,
    output: Seq<char>,
    path: TestPathView,
    file: Option<Seq<char>>,
)
    ensures
        handling != OutputConflictHandling::Bless ==> changed_file(
            action_for(handling, output, path),
        ) is None,
        handling != OutputConflictHandling::Error ==> conflict_errors(
            handling,
            output,
            path,
            file,
        ) == Seq::<ErrorView>::empty(),
{
}

/// Output that names no directory of this machine, and for which nobody asks for replacements, is
/// compared as it is.
pub proof fn law_neutral_output_is_compared_as_it_is(
    path: TestPathView,
    text: Seq<char>,
    filters: Filter,
    comments: Comments,
    lib_path: Option<Seq<char>>,
)
    requires
        !text::includes(text, path.parent),
        lib_path matches Some(lib) ==> !text::includes(text, lib),
        filters@.len() == 0,
        comments.normalize_stderr@.len() == 0,
    ensures
        normalized(path, text, filters, comments, lib_path) == text,
{
    text::law_replacing_nothing_changes_nothing(text, path.parent, "$DIR"@);
    if let Some(lib) = lib_path {
        text::law_replacing_nothing_changes_nothing(text, lib, "RUSTLIB"@);
    }
}

/// One more replacement that a test file asks for is made in what all others before it made of the
/// output, however many these are.
pub proof fn law_one_more_replacement_of_the_test_file(
    path: TestPathView,
    text: Seq<char>,
    filters: Filter,
    comments: Comments,
    more: Comments,
    rule: (Regex, String),
    lib_path: Option<Seq<char>>,
)
    requires
        more.normalize_stderr@ == comments.normalize_stderr@.push(rule),
    ensures
        normalized(path, text, filters, more, lib_path) == replacement(
            rule.0,
            normalized(path, text, filters, comments, lib_path),
            rule.1@,
        ),
{
    let rules = comment_rules(comments.normalize_stderr@);
    assert(comment_rules(more.normalize_stderr@) =~= rules.push((rule.0, rule.1@)));
    assert(rules.push((rule.0, rule.1@)).drop_last() =~= rules);
}

/// One more filter of the configuration is applied to what all filters before it made of the output,
/// however many these are, and before any replacement that the test file asks for.
pub proof fn law_one_more_filter_of_the_configuration(
    path: TestPathView,
    text: Seq<char>,
    filters: Filter,
    more: Filter,
    rule: (Regex, &'static str),
    comments: Comments,
    lib_path: Option<Seq<char>>,
)
    requires
        more@ == filters@.push(rule),
        comments.normalize_stderr@.len() == 0,
    ensures
        normalized(path, text, more, comments, lib_path) == replacement(
            rule.0,
            normalized(path, text, filters, comments, lib_path),
            rule.1@,
        ),
{
    let rules = filter_rules(filters);
    assert(filter_rules(more) =~= rules.push((rule.0, rule.1@)));
    assert(rules.push((rule.0, rule.1@)).drop_last() =~= rules);
}

/// Where nobody asks for replacements, the directory of the test is exchanged everywhere for `$DIR`,
/// and then the one of the libraries, where it is known, for `RUSTLIB`.
pub proof fn law_paths_of_this_machine_are_taken_out(
    path: TestPathView,
    text: Seq<char>,
    filters: Filter,
    comments: Comments,
    lib: Seq<char>,
)
    requires
        filters@.len() == 0,
        comments.normalize_stderr@.len() == 0,
    ensures
        normalized(path, text, filters, comments, None) == text::replaced(
            text,
            path.parent,
            "$DIR"@,
        ),
        normalized(path, text, filters, comments, Some(lib)) == text::replaced(
            normalized(path, text, filters, comments, None),
            lib,
            "RUSTLIB"@,
        ),
{
}

/// The extension of a file with expected output is the kind of the output, with the pointer width of
/// the target and a dot before it where the test asks for it.
pub proof fn law_extensions_of_expected_output(
    comments: Comments,
    kind: Seq<char>,
    target: Seq<char>,
)
    ensures
        !comments.stderr_per_bitwidth ==> output_extension(comments, kind, target) == kind,
        comments.stderr_per_bitwidth ==> output_extension(comments, kind, target) == pointer_width(
            target,
        ) + seq!['.'] + kind,
{
    assert(pointer_width(target).push('.') + kind =~= pointer_width(target) + seq!['.'] + kind);
}

/// Where conflicts are errors, output that is not exactly what the file holds is reported, together
/// with the file and with both texts, and all other output is accepted. A file that does not exist
/// stands for empty output.
pub proof fn law_conflicts_are_reported_with_both_texts(
    output: Seq<char>,
    path: TestPathView,
    content: Seq<char>,
)
    ensures
        conflict_errors(OutputConflictHandling::Error, content, path, Some(content)).len() == 0,
        output != content ==> conflict_errors(
            OutputConflictHandling::Error,
            output,
            path,
            Some(content),
        ) == seq![ErrorView::OutputDiffers { path, actual: output, expected: content }],
        conflict_errors(OutputConflictHandling::Error, output, path, None) == conflict_errors(
            OutputConflictHandling::Error,
            output,
            path,
            Some(Seq::empty()),
        ),
{
}

/// Where output is blessed, the file takes over all of it, and there is no file for empty output.
/// Otherwise no file is touched.
pub proof fn law_what_blessing_does_to_a_file(
    handling: OutputConflictHandling,
    output: Seq<char>,
    path: TestPathView,
)
    ensures
        handling is Bless && output.len() > 0 ==> action_for(handling, output, path)
            == OutputActionView::Write(path, output),
        handling is Bless && output.len() == 0 ==> action_for(handling, output, path)
            == OutputActionView::Remove(path),
        !(handling is Bless) ==> action_for(handling, output, path) == OutputActionView::Keep,
{
}

} // verus!
