//! On which targets, and in which variants, a test is run.

use crate::comments::Comments;
use crate::text;
use vstd::prelude::*;

verus! {

/// The pointer width of a target, by its triple.
pub open spec fn pointer_width(triple: Seq<char>) -> Seq<char> {
    if (text::includes(triple, "64"@) && !text::finishes(triple, "gnux32"@) && !text::finishes(
        triple,
        "gnu_ilp32"@,
    )) || text::begins(triple, "s390x"@) {
        "64bit"@
    } else if text::begins(triple, "avr"@) {
        "16bit"@
    } else {
        "32bit"@
    }
}

/// The pointer width of a target, by its triple.
pub fn get_pointer_width(triple: &str) -> (width: &'static str)
    ensures
        width@ == pointer_width(triple@),
{
    if (text::contains(triple, "64") && !text::ends_with(triple, "gnux32") && !text::ends_with(
        triple,
        "gnu_ilp32",
    )) || text::starts_with(triple, "s390x") {
        "64bit"
    } else if text::starts_with(triple, "avr") {
        "16bit"
    } else {
        "32bit"
    }
}

/// A rule describes a target where it is a part of the triple, or where it is the pointer width.
pub open spec fn describes(rule: Seq<char>, target: Seq<char>) -> bool {
    text::includes(target, rule) || pointer_width(target) == rule
}

/// A test is ignored on a target where one of the rules in `ignore` describes it, or where one of
/// those in `only` is no part of the triple.
pub open spec fn ignored(
    ignore: Seq<Seq<char>>,
    only: Seq<Seq<char>>,
    target: Seq<char>,
) -> bool {
    ||| exists|i: int| 0 <= i < ignore.len() && describes(#[trigger] ignore[i], target)
    ||| exists|i: int| 0 <= i < only.len() && !text::includes(target, #[trigger] only[i])
}

/// Whether a test is ignored on a target.
pub fn ignore_file(comments: &Comments, target: &str) -> (ignore: bool)
    ensures
        ignore == ignored(
            text::views(comments.ignore@),
            text::views(comments.only@),
            target@,
        ),
{
    let ghost ignore = text::views(comments.ignore@);
    let ghost only = text::views(comments.only@);
    let width = get_pointer_width(target);
    let mut i: usize = 0;
    while i < comments.ignore.len()
        invariant
            i <= comments.ignore.len(),
            ignore == text::views(comments.ignore@),
            width@ == pointer_width(target@),
            forall|k: int| 0 <= k < i ==> !describes(#[trigger] ignore[k], target@),
        decreases comments.ignore.len() - i,
    {
        let rule = comments.ignore[i].as_str();
        assert(ignore[i as int] == rule@);
        if text::contains(target, rule) || text::same(width, rule) {
            return true;
        }
        i += 1;
    }
    let mut j: usize = 0;
    while j < comments.only.len()
        invariant
            j <= comments.only.len(),
            only == text::views(comments.only@),
            forall|k: int| 0 <= k < j ==> text::includes(target@, #[trigger] only[k]),
        decreases comments.only.len() - j,
    {
        let rule = comments.only[j].as_str();
        assert(only[j as int] == rule@);
        if !text::contains(target, rule) {
            return true;
        }
        j += 1;
    }
    false
}

/// The variants in which a test is run: those that it names, or a single one without a name.
pub open spec fn revisions_of(comments: Comments) -> Seq<Seq<char>> {
    match comments.revisions {
        Some(names) => text::views(names@),
        None => seq![Seq::empty()],
    }
}

/// The variants in which a test is run.
pub fn revisions_to_run(comments: &Comments) -> (revisions: Vec<String>)
    ensures
        text::views(revisions@) == revisions_of(*comments),
{
    match &comments.revisions {
        Some(names) => text::copy_all(names),
        None => {
            let mut revisions: Vec<String> = Vec::new();
            revisions.push(String::new());
            assert(text::views(revisions@) =~= seq![Seq::empty()]);
            revisions
        },
    }
}

/// A test without rules is run on every target.
pub proof fn law_without_rules_nothing_is_ignored(target: Seq<char>)
    ensures
        !ignored(Seq::empty(), Seq::empty(), target),
{
}

/// Further rules never make a test run where it was ignored, wherever they stand among the others.
pub proof fn law_rules_only_narrow(
    ignore: Seq<Seq<char>>,
    only: Seq<Seq<char>>,
    more_ignore: Seq<Seq<char>>,
    more_only: Seq<Seq<char>>,
    target: Seq<char>,
)
    requires
        ignored(ignore, only, target),
        forall|rule: Seq<char>| #[trigger] ignore.contains(rule) ==> more_ignore.contains(rule),
        forall|rule: Seq<char>| #[trigger] only.contains(rule) ==> more_only.contains(rule),
    ensures
        ignored(more_ignore, more_only, target),
{
    if exists|i: int| 0 <= i < ignore.len() && describes(#[trigger] ignore[i], target) {
        let i = choose|i: int| 0 <= i < ignore.len() && describes(#[trigger] ignore[i], target);
        assert(ignore.contains(ignore[i]));
        assert(describes(more_ignore[more_ignore.index_of(ignore[i])], target));
    } else {
        let i = choose|i: int| 0 <= i < only.len() && !text::includes(target, #[trigger] only[i]);
        assert(only.contains(only[i]));
        assert(!text::includes(target, more_only[more_only.index_of(only[i])]));
    }
}

/// A test that ignores the pointer width of a target is not run there, whatever its other rules.
pub proof fn law_ignoring_a_pointer_width(
    ignore: Seq<Seq<char>>,
    only: Seq<Seq<char>>,
    target: Seq<char>,
)
    requires
        ignore.contains(pointer_width(target)),
    ensures
        ignored(ignore, only, target),
{
    let i = ignore.index_of(pointer_width(target));
    assert(describes(ignore[i], target));
}

/// A triple with `64` in it is that of a target with 64 bit, unless it ends in `gnux32` or
/// `gnu_ilp32`.
pub proof fn law_triples_with_64_in_them(a: Seq<char>, b: Seq<char>)
    ensures
        ({
            let triple = a + "64"@ + b;
            (exists|rest: Seq<char>| triple == #[trigger] (rest + "gnux32"@)) || (exists|
                rest: Seq<char>,
            |
                triple == #[trigger] (rest + "gnu_ilp32"@)) || pointer_width(triple) == "64bit"@
        }),
{
    let triple = a + "64"@ + b;
    text::law_what_is_included(triple, "64"@);
    text::law_beginnings_and_ends(triple, "gnux32"@);
    text::law_beginnings_and_ends(triple, "gnu_ilp32"@);
}

/// A triple that begins with `s390x` is that of a target with 64 bit, however it goes on.
pub proof fn law_triples_that_begin_with_s390x(rest: Seq<char>)
    ensures
        pointer_width("s390x"@ + rest) == "64bit"@,
{
    text::law_beginnings_and_ends("s390x"@ + rest, "s390x"@);
}

/// Any other triple is that of a target with 16 bit if it begins with `avr`, and with 32 bit if it
/// does not. Others are those without `64` in them and those that end in `gnux32` or `gnu_ilp32`,
/// as far as they do not begin with `s390x`.
pub proof fn law_other_triples(triple: Seq<char>)
    requires
        forall|rest: Seq<char>| triple != #[trigger] ("s390x"@ + rest),
        (forall|a: Seq<char>, b: Seq<char>| triple != #[trigger] (a + "64"@ + b)) || (exists|
            rest: Seq<char>,
        |
            triple == #[trigger] (rest + "gnux32"@)) || (exists|rest: Seq<char>|
            triple == #[trigger] (rest + "gnu_ilp32"@)),
    ensures
        pointer_width(triple) == (if exists|rest: Seq<char>| triple == #[trigger] ("avr"@ + rest) {
            "16bit"@
        } else {
            "32bit"@
        }),
{
    text::law_what_is_included(triple, "64"@);
    text::law_beginnings_and_ends(triple, "s390x"@);
    text::law_beginnings_and_ends(triple, "avr"@);
    text::law_beginnings_and_ends(triple, "gnux32"@);
    text::law_beginnings_and_ends(triple, "gnu_ilp32"@);
}

/// Each rule counts by itself: a test is ignored where it would be for some of its rules or for the
/// others.
pub proof fn law_each_rule_counts_by_itself(
    ignore1: Seq<Seq<char>>,
    only1: Seq<Seq<char>>,
    ignore2: Seq<Seq<char>>,
    only2: Seq<Seq<char>>,
    target: Seq<char>,
)
    ensures
        ignored(ignore1 + ignore2, only1 + only2, target) <==> ignored(ignore1, only1, target)
            || ignored(ignore2, only2, target),
{
    let ignore = ignore1 + ignore2;
    let only = only1 + only2;
    assert forall|i: int| 0 <= i < ignore1.len() implies #[trigger] ignore1[i] == ignore[i] by {}
    assert forall|i: int| 0 <= i < ignore2.len() implies #[trigger] ignore2[i] == ignore[i
        + ignore1.len()] by {}
    assert forall|i: int| 0 <= i < only1.len() implies #[trigger] only1[i] == only[i] by {}
    assert forall|i: int| 0 <= i < only2.len() implies #[trigger] only2[i] == only[i
        + only1.len()] by {}
}

/// A single rule: a test that ignores some targets is ignored on those whose triple holds the rule
/// and on those whose pointer width it is, and on no others. A test that is run only on some targets
/// is ignored on those whose triple does not hold the rule, and on no others.
pub proof fn law_a_single_rule(rule: Seq<char>, target: Seq<char>)
    ensures
        ignored(seq![rule], Seq::empty(), target) <==> rule == pointer_width(target) || exists|
            a: Seq<char>,
            b: Seq<char>,
        |
            target == #[trigger] (a + rule + b),
        ignored(Seq::empty(), seq![rule], target) <==> forall|a: Seq<char>, b: Seq<char>|
            target != #[trigger] (a + rule + b),
{
    text::law_what_is_included(target, rule);
    assert(seq![rule][0] == rule);
}

/// A test is run in all variants that it names, in order, or once and without a name where it names
/// none.
pub proof fn law_which_variants_are_run(comments: Comments)
    ensures
        comments.revisions matches Some(names) ==> {
            &&& revisions_of(comments).len() == names@.len()
            &&& forall|i: int|
                0 <= i < names@.len() ==> #[trigger] revisions_of(comments)[i] == names@[i]@
        },
        comments.revisions is None ==> {
            &&& revisions_of(comments).len() == 1
            &&& revisions_of(comments)[0].len() == 0
        },
{
}

} // verus!
