//! Which files are tests, and the count of what became of them.

use crate::comments::Comments;
use crate::config::Config;
use crate::error::{all_explicable, error_views, ErrorView, Errors};
use crate::path::{
    extension, law_names_with_an_extension, splits_extension, TestPath, TestPathView,
};
use crate::target::{ignore_file, ignored, revisions_of, revisions_to_run};
use crate::text;
use vstd::prelude::*;

verus! {

/// What is done with a path that the search for tests has come to.
#[derive(Debug, Copy, Clone, PartialEq, Eq, Structural)]
pub enum Visit {
    /// It is a directory: everything in it is visited too.
    Expand,
    /// It is no test.
    Skip,
    /// It is a test that the configuration does not select.
    Filtered,
    /// It is a test, and its comments say whether it is run.
    Inspect,
}

/// A test is selected where there are no filters, or where one of them is a part of its path.
pub open spec fn selected(path: TestPathView, filters: Seq<Seq<char>>) -> bool {
    filters.len() == 0 || exists|i: int|
        0 <= i < filters.len() && text::includes(path.display(), #[trigger] filters[i])
}

/// What is done with a path. `path` is `None` for a path that ends in no file name. The tests are
/// the files with the extension `rs`.
pub open spec fn visit_of(
    is_dir: bool,
    path: Option<TestPathView>,
    filters: Seq<Seq<char>>,
) -> Visit {
    if is_dir {
        Visit::Expand
    } else {
        match path {
            None => Visit::Skip,
            Some(file) => if extension(file.file_name) != Some("rs"@) {
                Visit::Skip
            } else if !selected(file, filters) {
                Visit::Filtered
            } else {
                Visit::Inspect
            },
        }
    }
}

/// The value of a path that may be missing.
pub open spec fn optional_path(path: Option<&TestPath>) -> Option<TestPathView> {
    match path {
        Some(p) => Some(p@),
        None => None,
    }
}

/// Whether a test is selected.
fn is_selected(path: &TestPath, filters: &Vec<String>) -> (b: bool)
    ensures
        b == selected(path@, text::views(filters@)),
{
    if filters.len() == 0 {
        return true;
    }
    let ghost rules = text::views(filters@);
    let display = path.display();
    let mut i: usize = 0;
    while i < filters.len()
        invariant
            i <= filters.len(),
            rules == text::views(filters@),
            display@ == path@.display(),
            forall|k: int| 0 <= k < i ==> !text::includes(path@.display(), #[trigger] rules[k]),
        decreases filters.len() - i,
    {
        assert(rules[i as int] == filters@[i as int]@);
        if text::contains(display.as_str(), filters[i].as_str()) {
            return true;
        }
        i += 1;
    }
    false
}

/// What is done with a path that the search for tests has come to.
pub fn visit(is_dir: bool, path: Option<&TestPath>, config: &Config) -> (v: Visit)
    ensures
        v == visit_of(is_dir, optional_path(path), text::views(config.path_filter@)),
{
    if is_dir {
        return Visit::Expand;
    }
    match path {
        None => Visit::Skip,
        Some(file) => {
            let is_test: bool = match file.extension() {
                Some(ext) => text::same(ext.as_str(), "rs"),
                None => false,
            };
            if !is_test {
                Visit::Skip
            } else if !is_selected(file, &config.path_filter) {
                Visit::Filtered
            } else {
                Visit::Inspect
            }
        },
    }
}

/// The revisions of a test that are run on a target: none at all where the test is ignored there.
pub open spec fn planned(comments: Comments, target: Seq<char>) -> Option<Seq<Seq<char>>> {
    if ignored(text::views(comments.ignore@), text::views(comments.only@), target) {
        None
    } else {
        Some(revisions_of(comments))
    }
}

/// The revisions of a test that are run on a target; `None` where the test is ignored there.
pub fn plan(comments: &Comments, target: &str) -> (revisions: Option<Vec<String>>)
    ensures
        match revisions {
            Some(names) => planned(*comments, target@) == Some(text::views(names@)),
            None => planned(*comments, target@) is None,
        },
{
    if ignore_file(comments, target) {
        None
    } else {
        Some(revisions_to_run(comments))
    }
}

/// A revision of a test that failed.
#[derive(Debug)]
pub struct Failure {
    pub path: TestPath,
    /// The command that was executed, as it is shown.
    pub command: String,
    pub revision: String,
    pub errors: Errors,
    /// The standard error output, as the compiler would have shown it.
    pub stderr: String,
}

/// The value of a [`Failure`].
pub struct FailureView {
    pub path: TestPathView,
    pub command: Seq<char>,
    pub revision: Seq<char>,
    pub errors: Seq<ErrorView>,
    pub stderr: Seq<char>,
}

impl View for Failure {
    type V = FailureView;

    open spec fn view(&self) -> FailureView {
        FailureView {
            path: self.path@,
            command: self.command@,
            revision: self.revision@,
            errors: error_views(self.errors@),
            stderr: self.stderr@,
        }
    }
}

/// The values of some failures.
pub open spec fn failure_views(failures: Seq<Failure>) -> Seq<FailureView> {
    failures.map_values(|f: Failure| f@)
}

/// What became of a test.
pub enum Event {
    /// The configuration does not select it.
    Filtered,
    /// Its comments say that it is not run.
    Ignored,
    /// One of its revisions was run.
    Ran(FailureView),
}

impl Event {
    /// The run revision has no fault.
    pub open spec fn passed(self) -> bool {
        self matches Event::Ran(run) && run.errors.len() == 0
    }

    /// The run revision has a fault.
    pub open spec fn failed(self) -> bool {
        self matches Event::Ran(run) && run.errors.len() > 0
    }
}

/// The count of what became of the tests.
#[derive(Debug)]
pub struct Tally {
    pub failures: Vec<Failure>,
    pub succeeded: usize,
    pub ignored: usize,
    pub filtered: usize,
}

/// The value of a [`Tally`].
pub struct TallyView {
    pub failures: Seq<FailureView>,
    pub succeeded: usize,
    pub ignored: usize,
    pub filtered: usize,
}

/// The next value of a counter. Counters wrap around.
pub open spec fn next(counter: usize) -> usize {
    if counter == usize::MAX {
        0
    } else {
        (counter + 1) as usize
    }
}

impl TallyView {
    /// The count of nothing.
    pub open spec fn zero() -> TallyView {
        TallyView { failures: Seq::empty(), succeeded: 0, ignored: 0, filtered: 0 }
    }

    /// All failures can be explained.
    pub open spec fn explicable(self) -> bool {
        forall|i: int|
            0 <= i < self.failures.len() ==> all_explicable((#[trigger] self.failures[i]).errors)
    }

    /// The count after one more event.
    pub open spec fn after(self, event: Event) -> TallyView {
        match event {
            Event::Filtered => TallyView { filtered: next(self.filtered), ..self },
            Event::Ignored => TallyView { ignored: next(self.ignored), ..self },
            Event::Ran(run) => if run.errors.len() == 0 {
                TallyView { succeeded: next(self.succeeded), ..self }
            } else {
                TallyView { failures: self.failures.push(run), ..self }
            },
        }
    }

    /// The count after some more events.
    pub open spec fn after_all(self, events: Seq<Event>) -> TallyView
        decreases events.len(),
    {
        if events.len() == 0 {
            self
        } else {
            self.after_all(events.drop_last()).after(events.last())
        }
    }
}

impl View for Tally {
    type V = TallyView;

    open spec fn view(&self) -> TallyView {
        TallyView {
            failures: failure_views(self.failures@),
            succeeded: self.succeeded,
            ignored: self.ignored,
            filtered: self.filtered,
        }
    }
}

impl Tally {
    /// The count of nothing.
    pub fn new() -> (tally: Tally)
        ensures
            tally@ == TallyView::zero(),
            tally@.explicable(),
    {
        let tally = Tally { failures: Vec::new(), succeeded: 0, ignored: 0, filtered: 0 };
        assert(failure_views(tally.failures@) =~= Seq::empty());
        tally
    }

    /// Counts a test that the configuration does not select.
    pub fn count_filtered(&mut self)
        ensures
            final(self)@ == old(self)@.after(Event::Filtered),
            old(self)@.explicable() ==> final(self)@.explicable(),
    {
        self.filtered = self.filtered.wrapping_add(1);
        assert(self@.failures == old(self)@.failures);
    }

    /// Counts a test that is not run.
    pub fn count_ignored(&mut self)
        ensures
            final(self)@ == old(self)@.after(Event::Ignored),
            old(self)@.explicable() ==> final(self)@.explicable(),
    {
        self.ignored = self.ignored.wrapping_add(1);
        assert(self@.failures == old(self)@.failures);
    }

    /// Counts a revision of a test that was run. It passed if it has no errors; otherwise all of it
    /// is kept.
    pub fn count_run(&mut self, run: Failure) -> (passed: bool)
        ensures
            final(self)@ == old(self)@.after(Event::Ran(run@)),
            passed == (run.errors@.len() == 0),
            old(self)@.explicable() && all_explicable(run@.errors) ==> final(self)@.explicable(),
    {
        let ghost before = self@;
        let ghost view = run@;
        assert(view.errors.len() == run.errors@.len());
        if run.errors.len() == 0 {
            self.succeeded = self.succeeded.wrapping_add(1);
            assert(self@.failures == before.failures);
            assert(self@.succeeded == next(before.succeeded));
            true
        } else {
            self.failures.push(run);
            assert(self@.failures =~= before.failures.push(view));
            proof {
                if before.explicable() && all_explicable(view.errors) {
                    assert forall|i: int| 0 <= i < self@.failures.len() implies all_explicable(
                        (#[trigger] self@.failures[i]).errors,
                    ) by {
                        if i < before.failures.len() {
                            assert(self@.failures[i] == before.failures[i]);
                        }
                    }
                }
            }
            false
        }
    }

    /// Whether the run of all tests is a success: nothing failed.
    pub fn is_ok(&self) -> (ok: bool)
        ensures
            ok == (self@.failures.len() == 0),
    {
        self.failures.len() == 0
    }
}

/// The runs among some events that have a fault.
pub open spec fn failed_runs(events: Seq<Event>) -> Seq<FailureView> {
    events.filter(|e: Event| e.failed()).map_values(|e: Event| e->Ran_0)
}

/// The number of events of one sort.
pub open spec fn count(events: Seq<Event>, sort: spec_fn(Event) -> bool) -> nat {
    events.filter(sort).len()
}

/// Every event is counted once, in the place that it belongs to, and the failures are kept in the
/// order in which they came.
pub proof fn law_every_event_is_counted_once(events: Seq<Event>)
    requires
        events.len() <= usize::MAX,
    ensures
        ({
            let tally = TallyView::zero().after_all(events);
            &&& tally.failures == failed_runs(events)
            &&& tally.succeeded == count(events, |e: Event| e.passed())
            &&& tally.ignored == count(events, |e: Event| e is Ignored)
            &&& tally.filtered == count(events, |e: Event| e is Filtered)
            &&& tally.failures.len() + tally.succeeded + tally.ignored + tally.filtered
                == events.len()
        }),
    decreases events.len(),
{
    let tally = TallyView::zero().after_all(events);
    let failed = |e: Event| e.failed();
    let passed = |e: Event| e.passed();
    let ignored = |e: Event| e is Ignored;
    let filtered = |e: Event| e is Filtered;
    if events.len() == 0 {
        reveal(Seq::filter);
        assert(tally.failures =~= failed_runs(events));
    } else {
        let init = events.drop_last();
        let last = events.last();
        law_every_event_is_counted_once(init);
        assert(events =~= init.push(last));
        init.lemma_filter_push(last, failed);
        init.lemma_filter_push(last, passed);
        init.lemma_filter_push(last, ignored);
        init.lemma_filter_push(last, filtered);
        assert(tally.failures =~= failed_runs(events));
    }
}

/// The run of all tests is a success exactly where no revision of a test has a fault.
pub proof fn law_success_means_no_fault(events: Seq<Event>)
    ensures
        TallyView::zero().after_all(events).failures.len() == 0 <==> (forall|i: int|
            0 <= i < events.len() ==> !(#[trigger] events[i]).failed()),
    decreases events.len(),
{
    if events.len() > 0 {
        let init = events.drop_last();
        law_success_means_no_fault(init);
        let n = init.len() as int;
        if forall|i: int| 0 <= i < events.len() ==> !(#[trigger] events[i]).failed() {
            assert(!events[n].failed());
            assert forall|i: int| 0 <= i < init.len() implies !(#[trigger] init[i]).failed() by {
                assert(!events[i].failed());
            }
        } else if TallyView::zero().after_all(events).failures.len() == 0 {
            assert forall|i: int| 0 <= i < events.len() implies !(#[trigger] events[i]).failed() by {
                if i < n {
                    assert(!init[i].failed());
                }
            }
        }
    }
}

/// Two counts are the same but for the order of the failures.
pub open spec fn agree(a: TallyView, b: TallyView) -> bool {
    &&& a.succeeded == b.succeeded
    &&& a.ignored == b.ignored
    &&& a.filtered == b.filtered
    &&& a.failures.to_multiset() == b.failures.to_multiset()
}

/// Counts that agree still do after one more event.
proof fn lemma_agree_after(a: TallyView, b: TallyView, event: Event)
    requires
        agree(a, b),
    ensures
        agree(a.after(event), b.after(event)),
{
    broadcast use vstd::seq_lib::group_to_multiset_ensures;

}

/// It does not matter which of two events is counted first.
proof fn lemma_agree_swapped(tally: TallyView, a: Event, b: Event)
    ensures
        agree(tally.after(a).after(b), tally.after(b).after(a)),
{
    broadcast use vstd::seq_lib::group_to_multiset_ensures;

    let ab = tally.after(a).after(b).failures;
    let ba = tally.after(b).after(a).failures;
    assert(ab.to_multiset() =~= ba.to_multiset());
}

/// Any event may as well be counted last.
proof fn lemma_agree_moved(events: Seq<Event>, i: int)
    requires
        0 <= i < events.len(),
    ensures
        agree(
            TallyView::zero().after_all(events),
            TallyView::zero().after_all(events.remove(i)).after(events[i]),
        ),
    decreases events.len(),
{
    let init = events.drop_last();
    let last = events.last();
    if i == init.len() {
        assert(events.remove(i) =~= init);
    } else {
        lemma_agree_moved(init, i);
        let rest = events.remove(i);
        assert(rest.drop_last() =~= init.remove(i));
        assert(rest.last() == last);
        let before = TallyView::zero().after_all(init.remove(i));
        lemma_agree_after(TallyView::zero().after_all(init), before.after(events[i]), last);
        lemma_agree_swapped(before, events[i], last);
    }
}

/// It does not matter in which order the events come: the numbers, the failures apart from their
/// order, and the success of the run are the same.
pub proof fn law_order_does_not_matter(s: Seq<Event>, t: Seq<Event>)
    requires
        s.to_multiset() == t.to_multiset(),
    ensures
        ({
            let a = TallyView::zero().after_all(s);
            let b = TallyView::zero().after_all(t);
            &&& agree(a, b)
            &&& a.failures.len() == b.failures.len()
        }),
    decreases s.len(),
{
    broadcast use vstd::seq_lib::group_to_multiset_ensures;

    let a = TallyView::zero().after_all(s);
    let b = TallyView::zero().after_all(t);
    assert(s.len() == s.to_multiset().len());
    assert(t.len() == t.to_multiset().len());
    if s.len() > 0 {
        let last = s.last();
        assert(s.contains(last));
        assert(t.to_multiset().count(last) > 0);
        let i = t.index_of(last);
        assert(s.remove(s.len() - 1) =~= s.drop_last());
        law_order_does_not_matter(s.drop_last(), t.remove(i));
        lemma_agree_after(
            TallyView::zero().after_all(s.drop_last()),
            TallyView::zero().after_all(t.remove(i)),
            last,
        );
        lemma_agree_moved(t, i);
    }
    assert(a.failures.len() == a.failures.to_multiset().len());
    assert(b.failures.len() == b.failures.to_multiset().len());
}

/// Where the errors of every run can be explained, the failures that have been counted can be, too.
pub proof fn law_counted_failures_can_be_explained(events: Seq<Event>)
    requires
        forall|i: int|
            0 <= i < events.len() ==> ((#[trigger] events[i]) matches Event::Ran(run)
                ==> all_explicable(run.errors)),
    ensures
        TallyView::zero().after_all(events).explicable(),
    decreases events.len(),
{
    if events.len() > 0 {
        let init = events.drop_last();
        assert forall|i: int| 0 <= i < init.len() implies ((#[trigger] init[i]) matches Event::Ran(
            run,
        ) ==> all_explicable(run.errors)) by {
            assert(init[i] == events[i]);
        }
        law_counted_failures_can_be_explained(init);
        let before = TallyView::zero().after_all(init);
        let tally = TallyView::zero().after_all(events);
        assert(events[events.len() - 1] == events.last());
        assert forall|i: int| 0 <= i < tally.failures.len() implies all_explicable(
            (#[trigger] tally.failures[i]).errors,
        ) by {
            if i < before.failures.len() {
                assert(tally.failures[i] == before.failures[i]);
            }
        }
    }
}

/// A test is selected where there are no filters. Otherwise it is selected by any filter that stands
/// somewhere in its path, whichever of the filters it is, and by nothing else.
pub proof fn law_filters_select_by_the_path(
    path: TestPathView,
    filter: Seq<char>,
    some: Seq<Seq<char>>,
    others: Seq<Seq<char>>,
)
    ensures
        selected(path, Seq::empty()),
        selected(path, seq![filter]) <==> exists|a: Seq<char>, b: Seq<char>|
            path.prefix + path.file_name == #[trigger] (a + filter + b),
        some.len() > 0 && others.len() > 0 ==> (selected(path, some + others) <==> selected(
            path,
            some,
        ) || selected(path, others)),
{
    text::law_what_is_included(path.display(), filter);
    assert(seq![filter][0] == filter);
    let all = some + others;
    assert forall|i: int| 0 <= i < some.len() implies #[trigger] some[i] == all[i] by {}
    assert forall|i: int| 0 <= i < others.len() implies #[trigger] others[i] == all[i
        + some.len()] by {}
}

/// The tests are the files whose names end in `.rs` behind something else, and directories are gone
/// through, whatever they are called.
pub proof fn law_which_files_are_tests(path: TestPathView, filters: Seq<Seq<char>>)
    ensures
        visit_of(true, None, filters) == Visit::Expand,
        visit_of(true, Some(path), filters) == Visit::Expand,
        visit_of(false, None, filters) == Visit::Skip,
        ({
            let is_test = exists|name: Seq<char>|
                name.len() > 0 && path.file_name == #[trigger] (name + ".rs"@);
            &&& !is_test ==> visit_of(false, Some(path), filters) == Visit::Skip
            &&& is_test && selected(path, filters) ==> visit_of(false, Some(path), filters)
                == Visit::Inspect
            &&& is_test && !selected(path, filters) ==> visit_of(false, Some(path), filters)
                == Visit::Filtered
        }),
{
    reveal_strlit(".rs");
    reveal_strlit("rs");
    let is_test = exists|name: Seq<char>|
        name.len() > 0 && path.file_name == #[trigger] (name + ".rs"@);
    if is_test {
        let name = choose|name: Seq<char>|
            name.len() > 0 && path.file_name == #[trigger] (name + ".rs"@);
        assert(path.file_name =~= name + seq!['.'] + "rs"@);
        law_names_with_an_extension(name, "rs"@, "rs"@);
    }
    if extension(path.file_name) == Some("rs"@) {
        let at = choose|at: int| splits_extension(path.file_name, at);
        assert(splits_extension(path.file_name, at));
        let tail = path.file_name.skip(at + 1);
        assert(tail == "rs"@);
        assert(tail.len() == 2);
        assert(path.file_name[at + 1] == tail[0]);
        assert(path.file_name[at + 2] == tail[1]);
        assert(path.file_name =~= path.file_name.take(at) + ".rs"@);
    }
}

/// A test that is ignored on a target is not run in any of its variants there, and any other one is
/// run in all of them.
pub proof fn law_all_variants_or_none_are_run(comments: Comments, target: Seq<char>)
    ensures
        ignored(text::views(comments.ignore@), text::views(comments.only@), target) ==> planned(
            comments,
            target,
        ) is None,
        !ignored(text::views(comments.ignore@), text::views(comments.only@), target) ==> planned(
            comments,
            target,
        ) == Some(revisions_of(comments)),
{
}

/// Every event changes one thing in the count: a test that is not selected, one that is not run, and
/// a run without errors change one number by one, and a run with any error is put behind the
/// failures as it is. Behind the highest number comes zero.
pub proof fn law_what_an_event_changes(tally: TallyView, run: FailureView)
    ensures
        tally.filtered < usize::MAX ==> tally.after(Event::Filtered) == (TallyView {
            filtered: (tally.filtered + 1) as usize,
            ..tally
        }),
        tally.ignored < usize::MAX ==> tally.after(Event::Ignored) == (TallyView {
            ignored: (tally.ignored + 1) as usize,
            ..tally
        }),
        run.errors.len() == 0 && tally.succeeded < usize::MAX ==> tally.after(Event::Ran(run)) == (
        TallyView { succeeded: (tally.succeeded + 1) as usize, ..tally }),
        run.errors.len() > 0 ==> tally.after(Event::Ran(run)) == (TallyView {
            failures: tally.failures.push(run),
            ..tally
        }),
        tally.filtered == usize::MAX ==> tally.after(Event::Filtered) == (TallyView {
            filtered: 0,
            ..tally
        }),
        tally.ignored == usize::MAX ==> tally.after(Event::Ignored) == (TallyView {
            ignored: 0,
            ..tally
        }),
        run.errors.len() == 0 && tally.succeeded == usize::MAX ==> tally.after(Event::Ran(run)) == (
        TallyView { succeeded: 0, ..tally }),
{
}

/// The values of failures are those of each of them, in order and with everything in them.
pub proof fn law_values_of_failures(failures: Seq<Failure>)
    ensures
        failure_views(failures).len() == failures.len(),
        forall|i: int|
            0 <= i < failures.len() ==> {
                let view = #[trigger] failure_views(failures)[i];
                &&& view.path == failures[i].path@
                &&& view.command == failures[i].command@
                &&& view.revision == failures[i].revision@
                &&& view.errors == error_views(failures[i].errors@)
                &&& view.stderr == failures[i].stderr@
            },
{
}

} // verus!
