//! What a worker does with the paths that it takes from the queue, step by step.

use crate::comments::Comments;
use crate::config::Config;
use crate::error::{all_explicable, error_views, ErrorView, Errors};
use crate::path::{TestPath, TestPathView};
use crate::report::{ignored_of, progress_of, record_ignored, record_run};
use crate::style::{Report, SpanView};
use crate::tally::{
    law_which_files_are_tests, plan, planned, selected, visit, visit_of, Event, Failure,
    FailureView, Tally, Visit,
};
use crate::text;
use vstd::prelude::*;

verus! {

/// A test whose comments have to be read.
#[derive(Debug)]
pub struct Reading {
    path: TestPath,
}

impl View for Reading {
    type V = TestPathView;

    closed spec fn view(&self) -> TestPathView {
        self.path@
    }
}

/// A test of which some revisions have to be run.
#[derive(Debug)]
pub struct Running {
    path: TestPath,
    comments: Comments,
    revisions: Vec<String>,
    next: usize,
}

/// The value of a [`Running`].
pub struct RunningView {
    pub path: TestPathView,
    pub comments: Comments,
    /// The revisions that have to be run, the next one first.
    pub remaining: Seq<Seq<char>>,
}

impl View for Running {
    type V = RunningView;

    closed spec fn view(&self) -> RunningView {
        RunningView {
            path: self.path@,
            comments: self.comments,
            remaining: text::views(self.revisions@).skip(self.next as int),
        }
    }
}

/// What a worker does next.
#[derive(Debug)]
pub enum Step {
    /// Everything in the directory is put into the queue, and the next path is taken from it.
    Expand,
    /// The next path is taken from the queue.
    Next,
    /// The comments of a test are read.
    Read(Reading),
    /// The next revision of a test is run.
    Run(Running),
}

/// The value of a [`Step`].
pub enum StepView {
    Expand,
    Next,
    Read(TestPathView),
    Run(RunningView),
}

impl View for Step {
    type V = StepView;

    open spec fn view(&self) -> StepView {
        match *self {
            Step::Expand => StepView::Expand,
            Step::Next => StepView::Next,
            Step::Read(reading) => StepView::Read(reading@),
            Step::Run(running) => StepView::Run(running@),
        }
    }
}

/// The step after a path has been taken from the queue.
pub open spec fn step_after_path(
    is_dir: bool,
    path: Option<TestPathView>,
    filters: Seq<Seq<char>>,
) -> StepView {
    match visit_of(is_dir, path, filters) {
        Visit::Expand => StepView::Expand,
        Visit::Skip => StepView::Next,
        Visit::Filtered => StepView::Next,
        Visit::Inspect => StepView::Read(path.unwrap()),
    }
}

/// Decides what to do with a path that has been taken from the queue, and counts it if it is a test
/// that is not selected. `path` is `None` for a path that ends in no file name.
pub fn take_path(is_dir: bool, path: Option<TestPath>, config: &Config, tally: &mut Tally) -> (step:
    Step)
    ensures
        ({
            let file = match path {
                Some(p) => Some(p@),
                None => None,
            };
            let filters = text::views(config.path_filter@);
            &&& step@ == step_after_path(is_dir, file, filters)
            &&& final(tally)@ == if visit_of(is_dir, file, filters) == Visit::Filtered {
                old(tally)@.after(Event::Filtered)
            } else {
                old(tally)@
            }
        }),
        old(tally)@.explicable() ==> final(tally)@.explicable(),
{
    let decision = visit(is_dir, path.as_ref(), config);
    match decision {
        Visit::Expand => Step::Expand,
        Visit::Skip => Step::Next,
        Visit::Filtered => {
            tally.count_filtered();
            Step::Next
        },
        Visit::Inspect => match path {
            Some(path) => Step::Read(Reading { path }),
            None => Step::Next,
        },
    }
}

/// The step that runs the first of some revisions.
pub open spec fn step_for(
    path: TestPathView,
    comments: Comments,
    remaining: Seq<Seq<char>>,
) -> StepView {
    if remaining.len() == 0 {
        StepView::Next
    } else {
        StepView::Run(RunningView { path, comments, remaining })
    }
}

impl Reading {
    /// The test.
    pub fn path(&self) -> (path: &TestPath)
        ensures
            path@ == self@,
    {
        &self.path
    }

    /// Decides what to do with a test whose comments have been read: it is ignored on the target,
    /// or all of its revisions are run.
    pub fn finish(self, comments: Comments, target: &str, tally: &mut Tally) -> (result: (
        Step,
        Report,
    ))
        ensures
            match planned(comments, target@) {
                Some(revisions) => {
                    &&& result.0@ == step_for(self@, comments, revisions)
                    &&& result.1@ == Seq::<SpanView>::empty()
                    &&& final(tally)@ == old(tally)@
                },
                None => {
                    &&& result.0@ == StepView::Next
                    &&& result.1@ == ignored_of(self@)
                    &&& final(tally)@ == old(tally)@.after(Event::Ignored)
                },
            },
            old(tally)@.explicable() ==> final(tally)@.explicable(),
    {
        match plan(&comments, target) {
            Some(revisions) => {
                let ghost names = text::views(revisions@);
                assert(names.skip(0) =~= names);
                if revisions.len() == 0 {
                    (Step::Next, Report::new())
                } else {
                    let running = Running { path: self.path, comments, revisions, next: 0 };
                    (Step::Run(running), Report::new())
                }
            },
            None => {
                let report = record_ignored(tally, &self.path);
                (Step::Next, report)
            },
        }
    }
}

impl Running {
    /// There is always a revision that has to be run.
    #[verifier::type_invariant]
    spec fn inv(self) -> bool {
        self.next < self.revisions@.len()
    }

    /// The test.
    pub fn path(&self) -> (path: &TestPath)
        ensures
            path@ == self@.path,
    {
        &self.path
    }

    /// The comments of the test.
    pub fn comments(&self) -> (comments: &Comments)
        ensures
            *comments == self@.comments,
    {
        &self.comments
    }

    /// The revision that has to be run next.
    pub fn revision(&self) -> (revision: &str)
        ensures
            self@.remaining.len() > 0,
            revision@ == self@.remaining[0],
    {
        proof {
            use_type_invariant(self);
        }
        self.revisions[self.next].as_str()
    }

    /// Counts the revision that has been run, and goes on to the next one.
    pub fn finish(
        self,
        command: String,
        errors: Errors,
        stderr: String,
        tally: &mut Tally,
    ) -> (result: (Step, Report))
        ensures
            ({
                let run = FailureView {
                    path: self@.path,
                    command: command@,
                    revision: self@.remaining[0],
                    errors: error_views(errors@),
                    stderr: stderr@,
                };
                &&& self@.remaining.len() > 0
                &&& result.0@ == step_for(self@.path, self@.comments, self@.remaining.skip(1))
                &&& result.1@ == progress_of(run.path, run.revision, run.errors.len() == 0)
                &&& final(tally)@ == old(tally)@.after(Event::Ran(run))
            }),
            old(tally)@.explicable() && all_explicable(error_views(errors@))
                ==> final(tally)@.explicable(),
    {
        proof {
            use_type_invariant(&self);
        }
        let ghost view = self@;
        let Running { path, comments, revisions, next } = self;
        let run = Failure {
            path: path.clone(),
            command,
            revision: revisions[next].clone(),
            errors,
            stderr,
        };
        let report = record_run(tally, run);
        let count: usize = revisions.len();
        let next: usize = next + 1;
        assert(view.remaining.skip(1) =~= text::views(revisions@).skip(next as int));
        if next < count {
            (Step::Run(Running { path, comments, revisions, next }), report)
        } else {
            (Step::Next, report)
        }
    }
}

/// How a run of a revision ended.
pub struct Outcome {
    pub command: Seq<char>,
    pub errors: Seq<ErrorView>,
    pub stderr: Seq<char>,
}

/// What is counted for a revision that has been run.
pub open spec fn run_event(path: TestPathView, revision: Seq<char>, outcome: Outcome) -> Event {
    Event::Ran(
        FailureView {
            path,
            command: outcome.command,
            revision,
            errors: outcome.errors,
            stderr: outcome.stderr,
        },
    )
}

/// The step and the counted events after some runs, one after the other, of a test of which some
/// revisions have to be run.
pub open spec fn after_runs(
    path: TestPathView,
    comments: Comments,
    remaining: Seq<Seq<char>>,
    outcomes: Seq<Outcome>,
) -> (StepView, Seq<Event>)
    decreases outcomes.len(),
{
    if outcomes.len() == 0 || remaining.len() == 0 {
        (step_for(path, comments, remaining), Seq::empty())
    } else {
        let (step, events) = after_runs(path, comments, remaining.skip(1), outcomes.skip(1));
        (step, seq![run_event(path, remaining[0], outcomes[0])] + events)
    }
}

/// Every revision of a test is run once, in the order in which the test names them, and every run
/// is counted. Then the worker goes on to the next path.
pub proof fn law_every_revision_is_run_once(
    path: TestPathView,
    comments: Comments,
    remaining: Seq<Seq<char>>,
    outcomes: Seq<Outcome>,
)
    requires
        outcomes.len() == remaining.len(),
    ensures
        after_runs(path, comments, remaining, outcomes) == (
            StepView::Next,
            Seq::new(
                remaining.len(),
                |i: int| run_event(path, remaining[i], outcomes[i]),
            ),
        ),
    decreases outcomes.len(),
{
    let events = Seq::new(remaining.len(), |i: int| run_event(path, remaining[i], outcomes[i]));
    if remaining.len() == 0 {
        assert(events =~= Seq::empty());
    } else {
        let rest = remaining.skip(1);
        let later = outcomes.skip(1);
        law_every_revision_is_run_once(path, comments, rest, later);
        assert(seq![run_event(path, remaining[0], outcomes[0])] + Seq::new(
            rest.len(),
            |i: int| run_event(path, rest[i], later[i]),
        ) =~= events);
    }
}

/// A directory is gone through, a test that is selected is read, and nothing else is done with any
/// other path.
pub proof fn law_what_is_done_with_a_path(path: TestPathView, filters: Seq<Seq<char>>)
    ensures
        step_after_path(true, None, filters) == StepView::Expand,
        step_after_path(true, Some(path), filters) == StepView::Expand,
        step_after_path(false, None, filters) == StepView::Next,
        ({
            let is_test = exists|name: Seq<char>|
                name.len() > 0 && path.file_name == #[trigger] (name + ".rs"@);
            step_after_path(false, Some(path), filters) == if is_test && selected(path, filters) {
                StepView::Read(path)
            } else {
                StepView::Next
            }
        }),
{
    law_which_files_are_tests(path, filters);
}

/// As long as there are revisions that have to be run, all of them are kept, and the first one is
/// run. When there are none, the worker goes on.
pub proof fn law_all_revisions_are_kept(
    path: TestPathView,
    comments: Comments,
    remaining: Seq<Seq<char>>,
)
    ensures
        remaining.len() == 0 ==> step_for(path, comments, remaining) == StepView::Next,
        remaining.len() > 0 ==> {
            &&& step_for(path, comments, remaining) matches StepView::Run(running)
            &&& running.path == path
            &&& running.comments == comments
            &&& running.remaining == remaining
        },
{
}

} // verus!
