//! Work on the host as a list of steps, and the order in which the steps are
//! taken.

use crate::backend::{Args, HostCommand, HostCommandView};
use crate::backend;
use crate::text;
use vstd::prelude::*;

verus! {

/// A file of the host that goes into an image.
#[derive(Debug)]
pub struct CopyIn {
    pub src: String,
    pub dest: String,
}

#[verifier::ext_equal]
pub struct CopyInView {
    pub src: Seq<char>,
    pub dest: Seq<char>,
}

impl View for CopyIn {
    type V = CopyInView;

    open spec fn view(&self) -> CopyInView {
        CopyInView { src: self.src@, dest: self.dest@ }
    }
}

impl Clone for CopyIn {
    fn clone(&self) -> (r: Self)
        ensures
            r == *self,
    {
        CopyIn { src: self.src.clone(), dest: self.dest.clone() }
    }
}

/// Something to do on the host.
#[derive(Debug)]
pub enum Action {
    Run(HostCommand),
    /// Make the directory that is to hold `path`, and those above it.
    MakeParent { path: String },
    WriteFile { path: String, contents: String },
    RemoveFile { path: String },
    /// Put files into a disk image and enable services in it.
    InjectFiles { image: String, files: Vec<CopyIn>, services: Vec<String> },
}

pub enum ActionView {
    Run(HostCommandView),
    MakeParent { path: Seq<char> },
    WriteFile { path: Seq<char>, contents: Seq<char> },
    RemoveFile { path: Seq<char> },
    InjectFiles { image: Seq<char>, files: Seq<CopyInView>, services: Seq<Seq<char>> },
}

impl View for Action {
    type V = ActionView;

    open spec fn view(&self) -> ActionView {
        match *self {
            Action::Run(c) => ActionView::Run(c@),
            Action::MakeParent { path } => ActionView::MakeParent { path: path@ },
            Action::WriteFile { path, contents } => ActionView::WriteFile {
                path: path@,
                contents: contents@,
            },
            Action::RemoveFile { path } => ActionView::RemoveFile { path: path@ },
            Action::InjectFiles { image, files, services } => ActionView::InjectFiles {
                image: image@,
                files: text::views(files@),
                services: text::views(services@),
            },
        }
    }
}

/// One step: `action`, unless `unless` succeeds. If it fails, `undo` is done
/// and the work ends, except where the failure is of no account.
#[derive(Debug)]
pub struct Step {
    pub unless: Option<Action>,
    pub action: Action,
    /// The work goes on if the action fails.
    pub optional: bool,
    pub undo: Vec<Action>,
    /// What the step is for, in words, where that is worth saying.
    pub purpose: String,
}

pub struct StepView {
    pub unless: Option<ActionView>,
    pub action: ActionView,
    pub optional: bool,
    pub undo: Seq<ActionView>,
    pub purpose: Seq<char>,
}

impl View for Step {
    type V = StepView;

    open spec fn view(&self) -> StepView {
        StepView {
            unless: text::opt(self.unless),
            action: self.action@,
            optional: self.optional,
            undo: text::views(self.undo@),
            purpose: self.purpose@,
        }
    }
}

// ----------------------------------------------------------------- plain steps

/// A command that has to succeed.
pub open spec fn must(program: Seq<char>, args: Seq<Seq<char>>) -> StepView {
    step_of(ActionView::Run(HostCommandView { program, args }))
}

/// An action that has to succeed, with nothing to undo.
pub open spec fn step_of(action: ActionView) -> StepView {
    StepView { unless: None, action, optional: false, undo: Seq::empty(), purpose: Seq::empty() }
}

/// A command whose failure is of no account.
pub open spec fn may(program: Seq<char>, args: Seq<Seq<char>>) -> StepView {
    StepView { optional: true, ..must(program, args) }
}

/// A step with an action that has to succeed.
pub fn new_step(action: Action) -> (r: Step)
    ensures
        r@ == step_of(action@),
{
    let undo: Vec<Action> = Vec::new();
    let purpose = String::new();
    proof {
        assert(text::views(undo@) =~= Seq::<ActionView>::empty());
        assert(purpose@ =~= Seq::<char>::empty());
    }
    Step { unless: None, action, optional: false, undo, purpose }
}

pub fn must_run(program: &str, args: Args) -> (r: Step)
    ensures
        r@ == must(program@, args@),
{
    new_step(Action::Run(backend::host_command(program, args)))
}

pub fn may_run(program: &str, args: Args) -> (r: Step)
    ensures
        r@ == may(program@, args@),
{
    let mut s = must_run(program, args);
    s.optional = true;
    s
}

/// A list of steps in the making.
pub struct Steps {
    items: Vec<Step>,
}

impl View for Steps {
    type V = Seq<StepView>;

    closed spec fn view(&self) -> Seq<StepView> {
        text::views(self.items@)
    }
}

impl Steps {
    pub fn new() -> (r: Self)
        ensures
            r@ == Seq::<StepView>::empty(),
    {
        let r = Steps { items: Vec::new() };
        proof {
            assert(r@ =~= Seq::<StepView>::empty());
        }
        r
    }

    pub fn put(&mut self, step: Step)
        ensures
            final(self)@ == old(self)@.push(step@),
    {
        proof {
            text::lemma_views_push(self.items@, step);
        }
        self.items.push(step);
    }

    pub fn done(self) -> (r: Vec<Step>)
        ensures
            text::views(r@) == self@,
    {
        self.items
    }
}

// --------------------------------------------------------------------- running

/// How far a plan has come.
#[derive(Debug, Clone, Copy, PartialEq, Eq, Structural)]
pub enum Progress {
    /// The condition of step `i` is next.
    Checking { i: usize },
    /// The action of step `i` is next.
    Acting { i: usize },
    /// Step `i` failed; its `j`-th undoing action is next.
    Undoing { i: usize, j: usize },
    Done,
    /// Step `i` failed, and nothing is left to undo.
    Failed { i: usize },
}

/// Step `i` comes next.
pub open spec fn at(steps: Seq<StepView>, i: int) -> Progress {
    if i >= steps.len() {
        Progress::Done
    } else if steps[i].unless is Some {
        Progress::Checking { i: i as usize }
    } else {
        Progress::Acting { i: i as usize }
    }
}

/// The action to take, if the work has not ended.
pub open spec fn next_action(steps: Seq<StepView>, p: Progress) -> Option<ActionView> {
    match p {
        Progress::Checking { i } => steps[i as int].unless,
        Progress::Acting { i } => Some(steps[i as int].action),
        Progress::Undoing { i, j } => Some(steps[i as int].undo[j as int]),
        Progress::Done => None,
        Progress::Failed { .. } => None,
    }
}

/// What follows when the action succeeded or failed.
pub open spec fn after(steps: Seq<StepView>, p: Progress, ok: bool) -> Progress {
    match p {
        Progress::Checking { i } => if ok {
            at(steps, i + 1)
        } else {
            Progress::Acting { i }
        },
        Progress::Acting { i } => if ok || steps[i as int].optional {
            at(steps, i + 1)
        } else if steps[i as int].undo.len() > 0 {
            Progress::Undoing { i, j: 0 }
        } else {
            Progress::Failed { i }
        },
        Progress::Undoing { i, j } => if j + 1 < steps[i as int].undo.len() {
            Progress::Undoing { i, j: (j + 1) as usize }
        } else {
            Progress::Failed { i }
        },
        _ => p,
    }
}

/// The progress points at something that the plan has.
pub open spec fn on_track(steps: Seq<StepView>, p: Progress) -> bool {
    match p {
        Progress::Checking { i } => i < steps.len() && steps[i as int].unless is Some,
        Progress::Acting { i } => i < steps.len(),
        Progress::Undoing { i, j } => i < steps.len() && j < steps[i as int].undo.len(),
        Progress::Done => true,
        Progress::Failed { i } => i < steps.len(),
    }
}

/// A plan under way.
pub struct Run {
    steps: Vec<Step>,
    progress: Progress,
}

impl Run {
    pub closed spec fn steps(&self) -> Seq<StepView> {
        text::views(self.steps@)
    }

    pub closed spec fn progress(&self) -> Progress {
        self.progress
    }

    pub open spec fn wf(&self) -> bool {
        on_track(self.steps(), self.progress()) && self.steps().len() < usize::MAX
    }

    /// The plan at its first step.
    pub fn start(steps: Vec<Step>) -> (r: Self)
        requires
            steps@.len() < usize::MAX,
        ensures
            r.wf(),
            r.steps() == text::views(steps@),
            r.progress() == at(r.steps(), 0),
    {
        let progress = if steps.len() == 0 {
            Progress::Done
        } else if steps[0].unless.is_some() {
            Progress::Checking { i: 0 }
        } else {
            Progress::Acting { i: 0 }
        };
        Run { steps, progress }
    }

    /// The action to take now, if the work has not ended.
    pub fn action(&self) -> (r: Option<&Action>)
        requires
            self.wf(),
        ensures
            match r {
                Some(a) => next_action(self.steps(), self.progress()) == Some(a@),
                None => next_action(self.steps(), self.progress()) is None,
            },
    {
        match self.progress {
            Progress::Checking { i } => self.steps[i].unless.as_ref(),
            Progress::Acting { i } => Some(&self.steps[i].action),
            Progress::Undoing { i, j } => Some(&self.steps[i].undo[j]),
            Progress::Done => None,
            Progress::Failed { .. } => None,
        }
    }

    /// The action to take now succeeded or failed.
    pub fn answered(&mut self, ok: bool)
        requires
            old(self).wf(),
        ensures
            final(self).wf(),
            final(self).steps() == old(self).steps(),
            final(self).progress() == after(old(self).steps(), old(self).progress(), ok),
    {
        match self.progress {
            Progress::Checking { i } => {
                if ok {
                    self.go_to(i + 1);
                } else {
                    self.progress = Progress::Acting { i };
                }
            },
            Progress::Acting { i } => {
                if ok || self.steps[i].optional {
                    self.go_to(i + 1);
                } else if self.steps[i].undo.len() > 0 {
                    self.progress = Progress::Undoing { i, j: 0 };
                } else {
                    self.progress = Progress::Failed { i };
                }
            },
            Progress::Undoing { i, j } => {
                if self.steps[i].undo.len() - j > 1 {
                    self.progress = Progress::Undoing { i, j: j + 1 };
                } else {
                    self.progress = Progress::Failed { i };
                }
            },
            Progress::Done => {},
            Progress::Failed { .. } => {},
        }
    }

    fn go_to(&mut self, i: usize)
        requires
            old(self).steps().len() < usize::MAX,
        ensures
            final(self).wf(),
            final(self).steps() == old(self).steps(),
            final(self).progress() == at(old(self).steps(), i as int),
    {
        self.progress = if i >= self.steps.len() {
            Progress::Done
        } else if self.steps[i].unless.is_some() {
            Progress::Checking { i }
        } else {
            Progress::Acting { i }
        };
    }

    /// Where the work stands.
    pub fn state(&self) -> (r: Progress)
        ensures
            r == self.progress(),
    {
        self.progress
    }

    /// What the step is for that failed; `None` as long as none did.
    pub fn failure(&self) -> (r: Option<&str>)
        requires
            self.wf(),
        ensures
            match r {
                Some(purpose) => self.progress() matches Progress::Failed { i } && purpose@
                    == self.steps()[i as int].purpose,
                None => !(self.progress() is Failed),
            },
    {
        match self.progress {
            Progress::Failed { i } => Some(self.steps[i].purpose.as_str()),
            _ => None,
        }
    }
}

// ------------------------------------------------------------------------ laws

/// The most actions that can still follow.
pub open spec fn left(steps: Seq<StepView>, p: Progress) -> nat {
    match p {
        Progress::Checking { i } => 2 + left_from(steps, i + 1) + steps[i as int].undo.len(),
        Progress::Acting { i } => 1 + left_from(steps, i + 1) + steps[i as int].undo.len(),
        Progress::Undoing { i, j } => (steps[i as int].undo.len() - j) as nat,
        _ => 0,
    }
}

/// The most actions that steps `i` and later can take.
pub open spec fn left_from(steps: Seq<StepView>, i: int) -> nat
    decreases steps.len() - i,
{
    if i >= steps.len() || i < 0 {
        0
    } else {
        2 + steps[i].undo.len() + left_from(steps, i + 1)
    }
}

/// The work always ends: every answer leaves fewer actions that can follow,
/// until there is none to take.
pub proof fn work_ends(steps: Seq<StepView>, p: Progress, ok: bool)
    requires
        on_track(steps, p),
        steps.len() < usize::MAX,
        forall|i: int| 0 <= i < steps.len() ==> (#[trigger] steps[i]).undo.len() <= usize::MAX,
    ensures
        next_action(steps, p) is Some ==> left(steps, after(steps, p, ok)) < left(steps, p),
        next_action(steps, p) is None <==> (p is Done || p is Failed),
{
    match p {
        Progress::Checking { i } => {
            lemma_left_at(steps, i + 1);
        },
        Progress::Acting { i } => {
            lemma_left_at(steps, i + 1);
        },
        _ => {},
    }
}

proof fn lemma_left_at(steps: Seq<StepView>, i: int)
    requires
        0 <= i,
        steps.len() < usize::MAX,
    ensures
        left(steps, at(steps, i)) <= left_from(steps, i),
{
}

/// How far a plan has come after a series of answers.
pub open spec fn progress_after(steps: Seq<StepView>, answers: Seq<bool>) -> Progress
    decreases answers.len(),
{
    if answers.len() == 0 {
        at(steps, 0)
    } else {
        after(steps, progress_after(steps, answers.drop_last()), answers.last())
    }
}

/// If every action succeeds, none is undone and the work does not fail.
pub proof fn nothing_is_undone_without_a_failure(steps: Seq<StepView>, answers: Seq<bool>)
    requires
        forall|i: int| 0 <= i < answers.len() ==> answers[i],
    ensures
        !(progress_after(steps, answers) is Undoing),
        !(progress_after(steps, answers) is Failed),
    decreases answers.len(),
{
    if answers.len() > 0 {
        nothing_is_undone_without_a_failure(steps, answers.drop_last());
    }
}

/// No step after a failed one is ever begun.
pub proof fn a_failure_is_final(steps: Seq<StepView>, p: Progress, ok: bool, i: usize)
    requires
        p == (Progress::Failed { i }) || (exists|j: usize| p == Progress::Undoing { i, j }),
    ensures
        after(steps, p, ok) == (Progress::Failed { i }) || (exists|j: usize|
            after(steps, p, ok) == Progress::Undoing { i, j }),
{
    if p is Undoing {
        let j = choose|j: usize| p == Progress::Undoing { i, j };
        if j + 1 < steps[i as int].undo.len() {
            assert(after(steps, p, ok) == Progress::Undoing { i, j: (j + 1) as usize });
        }
    }
}

/// The step runs a command, come what may, and the work fails if that does.
pub open spec fn has_to_run(s: StepView, program: Seq<char>, args: Seq<Seq<char>>) -> bool {
    &&& s.action == ActionView::Run(HostCommandView { program, args })
    &&& s.unless is None
    &&& !s.optional
}

/// As long as nothing fails, the steps are taken one after the other, each of
/// them, and the work is done after the last.
pub proof fn steps_are_taken_in_order(steps: Seq<StepView>, answers: Seq<bool>)
    requires
        steps.len() < usize::MAX,
        answers.len() <= steps.len(),
        forall|i: int| 0 <= i < steps.len() ==> (#[trigger] steps[i]).unless is None,
        forall|i: int|
            0 <= i < answers.len() ==> #[trigger] answers[i] || steps[i].optional,
    ensures
        answers.len() == steps.len() ==> progress_after(steps, answers) == Progress::Done,
        answers.len() < steps.len() ==> {
            &&& progress_after(steps, answers) == (Progress::Acting { i: answers.len() as usize })
            &&& next_action(steps, progress_after(steps, answers)) == Some(
                steps[answers.len() as int].action,
            )
        },
    decreases answers.len(),
{
    if answers.len() > 0 {
        let before = answers.drop_last();
        assert forall|i: int| 0 <= i < before.len() implies #[trigger] before[i]
            || steps[i].optional by {
            assert(before[i] == answers[i]);
        }
        steps_are_taken_in_order(steps, before);
        let n = answers.len() - 1;
        assert(answers[n] || steps[n].optional);
        if answers.len() < steps.len() {
            assert(steps[answers.len() as int].unless is None);
        }
    }
}

/// A step whose condition holds is passed over; one whose condition does not is
/// taken.
pub proof fn a_condition_that_holds_saves_the_step(steps: Seq<StepView>, i: usize)
    requires
        i < steps.len() < usize::MAX,
        steps[i as int].unless is Some,
    ensures
        next_action(steps, Progress::Checking { i }) == steps[i as int].unless,
        after(steps, Progress::Checking { i }, false) == (Progress::Acting { i }),
        ({
            let next = after(steps, Progress::Checking { i }, true);
            if i + 1 == steps.len() {
                next == Progress::Done
            } else {
                next == (Progress::Checking { i: (i + 1) as usize }) || next == (Progress::Acting {
                    i: (i + 1) as usize,
                })
            }
        }),
        i + 1 < steps.len() ==> (after(steps, Progress::Checking { i }, true) is Checking
            <==> steps[i + 1].unless is Some),
{
}

/// A step that has to succeed and does not is undone, action by action, whether
/// the undoing succeeds or not, and the work ends with its failure.
pub proof fn a_failed_step_is_undone(steps: Seq<StepView>, i: usize, j: usize, ok: bool)
    requires
        i < steps.len(),
        !steps[i as int].optional,
        j < steps[i as int].undo.len() <= usize::MAX,
    ensures
        after(steps, Progress::Acting { i }, false) == (Progress::Undoing { i, j: 0 }),
        next_action(steps, Progress::Undoing { i, j }) == Some(steps[i as int].undo[j as int]),
        j + 1 < steps[i as int].undo.len() ==> after(steps, Progress::Undoing { i, j }, ok) == (
        Progress::Undoing { i, j: (j + 1) as usize }),
        j + 1 == steps[i as int].undo.len() ==> after(steps, Progress::Undoing { i, j }, ok) == (
        Progress::Failed { i }),
{
}

/// With nothing to undo, a step that has to succeed and does not ends the work at
/// once.
pub proof fn a_failure_ends_the_work(steps: Seq<StepView>, i: usize)
    requires
        i < steps.len(),
        !steps[i as int].optional,
        steps[i as int].undo.len() == 0,
    ensures
        after(steps, Progress::Acting { i }, false) == (Progress::Failed { i }),
{
}

/// A step that comes next is begun with its condition, if it has one, and else
/// with its action; behind the last step the work is done.
pub proof fn a_step_begins_with_its_condition(steps: Seq<StepView>, i: int)
    requires
        0 <= i,
        steps.len() < usize::MAX,
    ensures
        i >= steps.len() ==> at(steps, i) == Progress::Done,
        i < steps.len() && steps[i].unless is Some ==> at(steps, i) == (Progress::Checking {
            i: i as usize,
        }),
        i < steps.len() && steps[i].unless is None ==> at(steps, i) == (Progress::Acting {
            i: i as usize,
        }),
{
}

/// The views of an action and of a step show all that they say.
pub proof fn steps_are_shown_in_full(a: Action, s: Step)
    ensures
        match a {
            Action::Run(c) => a@ == ActionView::Run(c@),
            Action::MakeParent { path } => a@ == (ActionView::MakeParent { path: path@ }),
            Action::WriteFile { path, contents } => a@ == (ActionView::WriteFile {
                path: path@,
                contents: contents@,
            }),
            Action::RemoveFile { path } => a@ == (ActionView::RemoveFile { path: path@ }),
            Action::InjectFiles { image, files, services } => a@ == (ActionView::InjectFiles {
                image: image@,
                files: text::views(files@),
                services: text::views(services@),
            }),
        },
        s@.unless == text::opt(s.unless),
        s@.action == s.action@,
        s@.optional == s.optional,
        s@.undo == text::views(s.undo@),
        s@.purpose == s.purpose@,
{
}

/// A step that succeeded, and one whose failure is of no account, is followed by
/// the next one.
pub proof fn a_step_is_followed_by_the_next(steps: Seq<StepView>, i: usize, ok: bool)
    requires
        i < steps.len() < usize::MAX,
        ok || steps[i as int].optional,
    ensures
        ({
            let next = after(steps, Progress::Acting { i }, ok);
            if i + 1 == steps.len() {
                next == Progress::Done
            } else if steps[i + 1].unless is Some {
                next == (Progress::Checking { i: (i + 1) as usize })
            } else {
                next == (Progress::Acting { i: (i + 1) as usize })
            }
        }),
        next_action(steps, Progress::Acting { i }) == Some(steps[i as int].action),
        next_action(steps, Progress::Done) is None,
        next_action(steps, Progress::Failed { i }) is None,
{
}

/// Plain steps are what they are called: one that has to succeed, and one whose
/// failure is of no account, both without a condition and with nothing to undo.
pub proof fn plain_steps_have_nothing_to_undo(
    action: ActionView,
    program: Seq<char>,
    args: Seq<Seq<char>>,
)
    ensures
        step_of(action).action == action,
        step_of(action).unless is None,
        !step_of(action).optional,
        step_of(action).undo.len() == 0,
        has_to_run(must(program, args), program, args),
        must(program, args).undo.len() == 0,
        may(program, args).action == ActionView::Run(HostCommandView { program, args }),
        may(program, args).unless is None,
        may(program, args).optional,
        may(program, args).undo.len() == 0,
{
}

} // verus!
