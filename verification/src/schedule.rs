//! Runs of all tests by several workers, and that nothing depends on who does what when.

use crate::comments::Comments;
use crate::path::TestPathView;
use crate::tally::{
    agree, law_order_does_not_matter, planned, visit_of, Event, TallyView, Visit,
};
use crate::worker::{run_event, step_after_path, step_for, Outcome, RunningView, StepView};
use vstd::multiset::Multiset;
use vstd::prelude::*;

verus! {

/// A file or a directory, with everything in it.
pub enum Entry {
    Directory(Seq<Entry>),
    /// A file with the instructions in its comments. `path` is `None` for a path that ends in no
    /// file name.
    File { path: Option<TestPathView>, comments: Comments },
}

/// What a worker may do next.
pub enum Task {
    /// Take a path from the queue.
    Take(Entry),
    /// Read the comments of a test.
    Read(TestPathView, Comments),
    /// Run the next revision of a test.
    Run(RunningView),
}

/// What all workers have in common.
pub struct Setting {
    pub filters: Seq<Seq<char>>,
    pub target: Seq<char>,
    /// How the run of a revision of a test ends.
    pub outcome: spec_fn(TestPathView, Seq<char>) -> Outcome,
}

/// What is left to do for a file after a step. `comments` are those of the file.
pub open spec fn tasks_after(step: StepView, comments: Comments) -> Seq<Task> {
    match step {
        StepView::Expand => Seq::empty(),
        StepView::Next => Seq::empty(),
        StepView::Read(path) => seq![Task::Read(path, comments)],
        StepView::Run(running) => seq![Task::Run(running)],
    }
}

impl Setting {
    /// What is counted for the run of a revision.
    pub open spec fn event_of(self, path: TestPathView, revision: Seq<char>) -> Event {
        run_event(path, revision, (self.outcome)(path, revision))
    }

    /// What is left to do once a task has been done.
    pub open spec fn tasks_from(self, task: Task) -> Seq<Task> {
        match task {
            Task::Take(Entry::Directory(entries)) => entries.map_values(|e: Entry| Task::Take(e)),
            Task::Take(Entry::File { path, comments }) => tasks_after(
                step_after_path(false, path, self.filters),
                comments,
            ),
            Task::Read(path, comments) => match planned(comments, self.target) {
                Some(revisions) => tasks_after(step_for(path, comments, revisions), comments),
                None => Seq::empty(),
            },
            Task::Run(running) => if running.remaining.len() == 0 {
                Seq::empty()
            } else {
                tasks_after(
                    step_for(running.path, running.comments, running.remaining.skip(1)),
                    running.comments,
                )
            },
        }
    }

    /// What is counted when a task is done.
    pub open spec fn events_from(self, task: Task) -> Seq<Event> {
        match task {
            Task::Take(Entry::Directory(_)) => Seq::empty(),
            Task::Take(Entry::File { path, comments: _ }) => if visit_of(false, path, self.filters)
                == Visit::Filtered {
                seq![Event::Filtered]
            } else {
                Seq::empty()
            },
            Task::Read(_, comments) => if planned(comments, self.target) is None {
                seq![Event::Ignored]
            } else {
                Seq::empty()
            },
            Task::Run(running) => if running.remaining.len() == 0 {
                Seq::empty()
            } else {
                seq![self.event_of(running.path, running.remaining[0])]
            },
        }
    }
}

/// A moment in the run of all tests: what is left to do, and what has been counted so far.
pub struct Moment {
    pub tasks: Seq<Task>,
    pub events: Seq<Event>,
}

/// Some worker does one of the tasks, whichever it is. The tasks that are left may come in any
/// order: neither the queue nor the listing of a directory has to keep one.
pub open spec fn is_step(setting: Setting, before: Moment, after: Moment) -> bool {
    exists|i: int|
        {
            &&& 0 <= i < before.tasks.len()
            &&& after.events == before.events + setting.events_from(#[trigger] before.tasks[i])
            &&& after.tasks.to_multiset() == (before.tasks.remove(i) + setting.tasks_from(
                before.tasks[i],
            )).to_multiset()
        }
}

/// The moments of a run of all tests below `root`, which ends when nothing is left to do.
pub open spec fn is_run(setting: Setting, root: Entry, moments: Seq<Moment>) -> bool {
    &&& moments.len() > 0
    &&& moments[0].tasks == seq![Task::Take(root)]
    &&& moments[0].events == Seq::<Event>::empty()
    &&& forall|k: int|
        0 < k < moments.len() ==> is_step(setting, moments[k - 1], #[trigger] moments[k])
    &&& moments.last().tasks.len() == 0
}

impl Setting {
    /// What is counted for the revisions of a test: each is run once.
    pub open spec fn events_of_runs(self, path: TestPathView, revisions: Seq<Seq<char>>) -> Multiset<
        Event,
    > {
        revisions.map_values(|revision: Seq<char>| self.event_of(path, revision)).to_multiset()
    }

    /// What is counted for a test that is selected.
    pub open spec fn events_of_test(self, path: TestPathView, comments: Comments) -> Multiset<
        Event,
    > {
        match planned(comments, self.target) {
            Some(revisions) => self.events_of_runs(path, revisions),
            None => Multiset::singleton(Event::Ignored),
        }
    }

    /// What is counted for a file or a directory: every file in it is dealt with once.
    pub open spec fn events_of(self, entry: Entry) -> Multiset<Event>
        decreases entry,
    {
        match entry {
            Entry::Directory(entries) => self.events_of_all(entries),
            Entry::File { path, comments } => match visit_of(false, path, self.filters) {
                Visit::Filtered => Multiset::singleton(Event::Filtered),
                Visit::Inspect => self.events_of_test(path.unwrap(), comments),
                _ => Multiset::empty(),
            },
        }
    }

    /// What is counted for some files and directories.
    pub open spec fn events_of_all(self, entries: Seq<Entry>) -> Multiset<Event>
        decreases entries,
    {
        if entries.len() == 0 {
            Multiset::empty()
        } else {
            self.events_of_all(entries.drop_last()).add(self.events_of(entries.last()))
        }
    }

    /// What will be counted for a task and for everything that is left to do after it.
    spec fn events_ahead(self, task: Task) -> Multiset<Event> {
        match task {
            Task::Take(entry) => self.events_of(entry),
            Task::Read(path, comments) => self.events_of_test(path, comments),
            Task::Run(running) => self.events_of_runs(running.path, running.remaining),
        }
    }

    /// What will be counted for some tasks.
    spec fn events_ahead_of_all(self, tasks: Seq<Task>) -> Multiset<Event>
        decreases tasks.len(),
    {
        if tasks.len() == 0 {
            Multiset::empty()
        } else {
            self.events_ahead_of_all(tasks.drop_last()).add(self.events_ahead(tasks.last()))
        }
    }
}

proof fn lemma_ahead_of_one(setting: Setting, task: Task)
    ensures
        setting.events_ahead_of_all(seq![task]) == setting.events_ahead(task),
{
    let tasks = seq![task];
    assert(tasks.drop_last() =~= Seq::empty());
    assert(setting.events_ahead_of_all(tasks.drop_last()) == Multiset::<Event>::empty());
    assert(setting.events_ahead_of_all(tasks) =~= setting.events_ahead(task));
}

proof fn lemma_ahead_of_more(setting: Setting, some: Seq<Task>, others: Seq<Task>)
    ensures
        setting.events_ahead_of_all(some + others) == setting.events_ahead_of_all(some).add(
            setting.events_ahead_of_all(others),
        ),
    decreases others.len(),
{
    let tasks = some + others;
    if others.len() == 0 {
        assert(tasks =~= some);
    } else {
        lemma_ahead_of_more(setting, some, others.drop_last());
        assert(tasks.drop_last() =~= some + others.drop_last());
        assert(tasks.last() == others.last());
    }
    assert(setting.events_ahead_of_all(tasks) =~= setting.events_ahead_of_all(some).add(
        setting.events_ahead_of_all(others),
    ));
}

proof fn lemma_ahead_without_one(setting: Setting, tasks: Seq<Task>, i: int)
    requires
        0 <= i < tasks.len(),
    ensures
        setting.events_ahead_of_all(tasks) == setting.events_ahead_of_all(tasks.remove(i)).add(
            setting.events_ahead(tasks[i]),
        ),
{
    let head = tasks.take(i);
    let tail = tasks.skip(i + 1);
    let one = seq![tasks[i]];
    assert(tasks =~= head + one + tail);
    assert(tasks.remove(i) =~= head + tail);
    lemma_ahead_of_more(setting, head + one, tail);
    lemma_ahead_of_more(setting, head, one);
    lemma_ahead_of_more(setting, head, tail);
    lemma_ahead_of_one(setting, tasks[i]);
    assert(setting.events_ahead_of_all(tasks) =~= setting.events_ahead_of_all(tasks.remove(i)).add(
        setting.events_ahead(tasks[i]),
    ));
}

/// The order of the tasks does not matter.
proof fn lemma_ahead_in_any_order(setting: Setting, s: Seq<Task>, t: Seq<Task>)
    requires
        s.to_multiset() == t.to_multiset(),
    ensures
        setting.events_ahead_of_all(s) == setting.events_ahead_of_all(t),
    decreases s.len(),
{
    broadcast use vstd::seq_lib::group_to_multiset_ensures;

    assert(s.len() == s.to_multiset().len());
    assert(t.len() == t.to_multiset().len());
    if s.len() > 0 {
        let last = s.last();
        assert(s.contains(last));
        assert(t.to_multiset().count(last) > 0);
        let i = t.index_of(last);
        assert(s.remove(s.len() - 1) =~= s.drop_last());
        lemma_ahead_in_any_order(setting, s.drop_last(), t.remove(i));
        lemma_ahead_without_one(setting, t, i);
    }
}

/// What is ahead of some paths is what is counted for them.
proof fn lemma_ahead_of_entries(setting: Setting, entries: Seq<Entry>)
    ensures
        setting.events_ahead_of_all(entries.map_values(|e: Entry| Task::Take(e)))
            == setting.events_of_all(entries),
    decreases entries.len(),
{
    let tasks = entries.map_values(|e: Entry| Task::Take(e));
    if entries.len() > 0 {
        lemma_ahead_of_entries(setting, entries.drop_last());
        assert(tasks.drop_last() =~= entries.drop_last().map_values(|e: Entry| Task::Take(e)));
    }
}

proof fn lemma_one_event(event: Event)
    ensures
        seq![event].to_multiset() == Multiset::singleton(event),
        Seq::<Event>::empty().to_multiset() == Multiset::<Event>::empty(),
{
    broadcast use vstd::seq_lib::group_to_multiset_ensures;

    let none = Seq::<Event>::empty();
    assert(none.to_multiset().len() == 0);
    assert(none.to_multiset() =~= Multiset::empty());
    assert(seq![event] =~= none.push(event));
    assert(seq![event].to_multiset() =~= Multiset::singleton(event));
}

/// What is ahead of a task that runs the first of some revisions, or of nothing where there are none.
proof fn lemma_ahead_of_runs(
    setting: Setting,
    path: TestPathView,
    comments: Comments,
    revisions: Seq<Seq<char>>,
)
    ensures
        setting.events_ahead_of_all(tasks_after(step_for(path, comments, revisions), comments))
            == setting.events_of_runs(path, revisions),
{
    if revisions.len() == 0 {
        lemma_one_event(Event::Ignored);
        assert(revisions.map_values(|revision: Seq<char>| setting.event_of(path, revision))
            =~= Seq::empty());
    } else {
        lemma_ahead_of_one(setting, Task::Run(RunningView { path, comments, remaining: revisions }));
    }
}

/// Doing a task counts a part of what is ahead of it, and leaves the rest.
proof fn lemma_task(setting: Setting, task: Task)
    ensures
        setting.events_from(task).to_multiset().add(
            setting.events_ahead_of_all(setting.tasks_from(task)),
        ) == setting.events_ahead(task),
{
    lemma_one_event(Event::Ignored);
    lemma_one_event(Event::Filtered);
    let counted = setting.events_from(task).to_multiset();
    let left = setting.events_ahead_of_all(setting.tasks_from(task));
    match task {
        Task::Take(Entry::Directory(entries)) => {
            lemma_ahead_of_entries(setting, entries);
        },
        Task::Take(Entry::File { path, comments }) => {
            if visit_of(false, path, setting.filters) == Visit::Inspect {
                lemma_ahead_of_one(setting, Task::Read(path.unwrap(), comments));
            }
        },
        Task::Read(path, comments) => {
            if let Some(revisions) = planned(comments, setting.target) {
                lemma_ahead_of_runs(setting, path, comments, revisions);
            }
        },
        Task::Run(running) => {
            let events = running.remaining.map_values(
                |revision: Seq<char>| setting.event_of(running.path, revision),
            );
            if running.remaining.len() == 0 {
                assert(events =~= Seq::empty());
            } else {
                let rest = running.remaining.skip(1);
                let first = setting.event_of(running.path, running.remaining[0]);
                lemma_one_event(first);
                lemma_ahead_of_runs(setting, running.path, running.comments, rest);
                let later = rest.map_values(
                    |revision: Seq<char>| setting.event_of(running.path, revision),
                );
                assert(events =~= seq![first] + later);
                vstd::seq_lib::lemma_multiset_commutative(seq![first], later);
            }
        },
    }
    assert(counted.add(left) =~= setting.events_ahead(task));
}

/// What has been counted and what is ahead make up the same whole at all times.
proof fn lemma_whole(setting: Setting, root: Entry, moments: Seq<Moment>, k: int)
    requires
        is_run(setting, root, moments),
        0 <= k < moments.len(),
    ensures
        moments[k].events.to_multiset().add(setting.events_ahead_of_all(moments[k].tasks))
            == setting.events_of(root),
    decreases k,
{
    let now = moments[k];
    if k == 0 {
        lemma_one_event(Event::Ignored);
        lemma_ahead_of_one(setting, Task::Take(root));
    } else {
        lemma_whole(setting, root, moments, k - 1);
        let before = moments[k - 1];
        assert(is_step(setting, before, now));
        let i = choose|i: int|
            {
                &&& 0 <= i < before.tasks.len()
                &&& now.events == before.events + setting.events_from(#[trigger] before.tasks[i])
                &&& now.tasks.to_multiset() == (before.tasks.remove(i) + setting.tasks_from(
                    before.tasks[i],
                )).to_multiset()
            };
        let task = before.tasks[i];
        vstd::seq_lib::lemma_multiset_commutative(before.events, setting.events_from(task));
        lemma_ahead_in_any_order(
            setting,
            now.tasks,
            before.tasks.remove(i) + setting.tasks_from(task),
        );
        lemma_ahead_of_more(setting, before.tasks.remove(i), setting.tasks_from(task));
        lemma_ahead_without_one(setting, before.tasks, i);
        lemma_task(setting, task);
    }
    assert(now.events.to_multiset().add(setting.events_ahead_of_all(now.tasks))
        =~= setting.events_of(root));
}

/// However many workers there are and whatever they do when, every file below the root is dealt with
/// exactly once: what has been counted in the end is what is counted for each of the files, and
/// nothing else.
pub proof fn law_every_file_is_dealt_with_once(setting: Setting, root: Entry, moments: Seq<Moment>)
    requires
        is_run(setting, root, moments),
    ensures
        moments.last().events.to_multiset() == setting.events_of(root),
{
    lemma_whole(setting, root, moments, moments.len() - 1);
    assert(moments.last().events.to_multiset() =~= setting.events_of(root));
}

/// However many workers there are, whatever they do when and in whatever order directories are
/// listed: two runs of the same tests with the same outcomes end with the same numbers, with the
/// same failures apart from their order, and with the same success.
pub proof fn law_schedule_does_not_matter(
    setting: Setting,
    root: Entry,
    one: Seq<Moment>,
    other: Seq<Moment>,
)
    requires
        is_run(setting, root, one),
        is_run(setting, root, other),
    ensures
        ({
            let a = TallyView::zero().after_all(one.last().events);
            let b = TallyView::zero().after_all(other.last().events);
            &&& agree(a, b)
            &&& a.failures.len() == b.failures.len()
        }),
{
    law_every_file_is_dealt_with_once(setting, root, one);
    law_every_file_is_dealt_with_once(setting, root, other);
    law_order_does_not_matter(one.last().events, other.last().events);
}

} // verus!
