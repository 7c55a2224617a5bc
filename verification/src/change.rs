//! Carrying out what the library asks for.
//!
//! A `Script` is a list of actions that must all succeed. A `Change` is one
//! mutation of a record: the file operations that make it, and the commit
//! that records it, which is left out when the operations changed nothing.
//! Both are carried out by the caller, one action at a time: each step takes
//! the outcome of the action before and answers with the next action or
//! with the end.

use vstd::prelude::*;
use crate::fs::action_views;
use crate::fs::Action;
use crate::fs::ActionView;
use crate::fs::Location;
use crate::fs::LocationView;
use crate::comment::CommentError;
use crate::comment::CommentFault;
use crate::fs::IoFault;
use crate::git::checked;
use crate::git::CommandView;
use crate::git::EditFault;
use crate::git::EditFaultView;
use crate::git::GitError;
use crate::git::GitFault;
use crate::git::Outcome;
use crate::issue::IssueError;
use crate::issue::IssueFault;

verus! {

/// A list of actions that must all succeed, in order.
#[derive(Debug, PartialEq, Eq)]
pub struct Script {
    pub steps: Vec<Action>,
}

impl View for Script {
    type V = Seq<ActionView>;

    open spec fn view(&self) -> Seq<ActionView> {
        action_views(self.steps@)
    }
}

/// What a step of a script answers.
#[derive(Debug, PartialEq, Eq)]
pub enum ScriptStep {
    /// Carry out this action and come back with `done` and its outcome.
    Do { done: usize, action: Action },
    /// The script is over.
    Done { result: Result<(), GitError> },
}

/// A script step's answer as texts.
pub enum ScriptStepView {
    Do { done: usize, action: ActionView },
    Done { result: Result<(), GitFault> },
}

impl View for ScriptStep {
    type V = ScriptStepView;

    open spec fn view(&self) -> ScriptStepView {
        match self {
            ScriptStep::Do { done, action } => ScriptStepView::Do { done: *done, action: action@ },
            ScriptStep::Done { result } => ScriptStepView::Done {
                result: match result {
                    Ok(()) => Ok(()),
                    Err(e) => Err(e@),
                },
            },
        }
    }
}

/// Why an action did not succeed.
#[derive(Debug, PartialEq, Eq)]
pub enum Failure {
    /// A file operation failed.
    Io(IoFault),
    /// The engine could not be started or reported failure.
    Git(GitError),
    /// An editing session brought no description.
    Edit(EditFault),
}

/// Why an action did not succeed, as texts.
pub enum FailureView {
    Io(IoFault),
    Git(GitFault),
    Edit(EditFaultView),
}

impl View for Failure {
    type V = FailureView;

    open spec fn view(&self) -> FailureView {
        match self {
            Failure::Io(f) => FailureView::Io(*f),
            Failure::Git(e) => FailureView::Git(e@),
            Failure::Edit(e) => FailureView::Edit(e@),
        }
    }
}

/// How an action ended: a run of the engine must report success, an
/// editing session must bring a description, and a file operation must not
/// have failed.
pub open spec fn acted(action: ActionView, outcome: Outcome) -> Result<(), FailureView> {
    match action {
        ActionView::Run { .. } => match checked(outcome) {
            Ok(_) => Ok(()),
            Err(e) => Err(FailureView::Git(e@)),
        },
        _ => match outcome {
            Outcome::Failed(f) => Err(FailureView::Io(f)),
            Outcome::Abandoned(e) => Err(FailureView::Edit(e@)),
            _ => Ok(()),
        },
    }
}

/// Reads how an action ended.
fn act(action: &Action, outcome: Outcome) -> (r: Result<(), Failure>)
    ensures
        match acted(action@, outcome) {
            Ok(()) => r is Ok,
            Err(e) => r matches Err(x) && x@ == e,
        },
{
    match action {
        Action::Run { .. } => match crate::git::check(outcome) {
            Ok(_) => Ok(()),
            Err(e) => Err(Failure::Git(e)),
        },
        _ => match outcome {
            Outcome::Failed(f) => Err(Failure::Io(f)),
            Outcome::Abandoned(e) => Err(Failure::Edit(e)),
            _ => Ok(()),
        },
    }
}

/// The error of a script that a failure makes.
pub open spec fn script_fault(f: FailureView) -> GitFault {
    match f {
        FailureView::Io(x) => GitFault::StdIoError(x),
        FailureView::Git(e) => e,
        FailureView::Edit(_) => GitFault::Oops,
    }
}

/// How an action of a script ended.
pub open spec fn settled(action: ActionView, outcome: Outcome) -> Result<(), GitFault> {
    match acted(action, outcome) {
        Ok(()) => Ok(()),
        Err(f) => Err(script_fault(f)),
    }
}

/// How an action of a script ended.
fn settle(action: &Action, outcome: Outcome) -> (r: Result<(), GitError>)
    ensures
        match settled(action@, outcome) {
            Ok(()) => r is Ok,
            Err(e) => r matches Err(x) && x@ == e,
        },
{
    match act(action, outcome) {
        Ok(()) => Ok(()),
        Err(Failure::Io(x)) => Err(GitError::StdIoError(x)),
        Err(Failure::Git(e)) => Err(e),
        Err(Failure::Edit(_)) => Err(GitError::Oops),
    }
}

/// One step of a script, of which `done` actions were handed out and
/// `outcome` is how the last of them ended: the next action if that one
/// succeeded and there is another, else the end. The first failure ends the
/// script; no action behind it is handed out.
pub open spec fn script_step(steps: Seq<ActionView>, done: usize, outcome: Outcome) -> ScriptStepView {
    if done > steps.len() {
        ScriptStepView::Done { result: Err(GitFault::Oops) }
    } else if done > 0 && settled(steps[done - 1], outcome) is Err {
        ScriptStepView::Done { result: settled(steps[done - 1], outcome) }
    } else if done == steps.len() {
        ScriptStepView::Done { result: Ok(()) }
    } else {
        ScriptStepView::Do { done: (done + 1) as usize, action: steps[done as int] }
    }
}

impl Script {
    /// One step of the script.
    ///
    /// Call it first with `done == 0` and any outcome; then carry out the
    /// action that each `ScriptStep::Do` holds and call again with the
    /// `done` it names and the outcome of that action, until a step is
    /// `ScriptStep::Done`.
    pub fn step(&self, done: usize, outcome: Outcome) -> (step: ScriptStep)
        ensures
            step@ == script_step(self@, done, outcome),
    {
        if done > self.steps.len() {
            return ScriptStep::Done { result: Err(GitError::Oops) };
        }
        if done > 0 {
            assert(self@[done - 1] == self.steps@[done - 1]@);
            match settle(&self.steps[done - 1], outcome) {
                Ok(()) => {},
                Err(e) => {
                    return ScriptStep::Done { result: Err(e) };
                },
            }
        }
        if done == self.steps.len() {
            ScriptStep::Done { result: Ok(()) }
        } else {
            assert(self@[done as int] == self.steps@[done as int]@);
            ScriptStep::Do { done: done + 1, action: self.steps[done].duplicate() }
        }
    }
}

/// One mutation of a record: the file operations that make it, what is
/// staged after them, the directory in which the commit is made, and the
/// message of the commit.
#[derive(Debug, PartialEq, Eq)]
pub struct Change {
    pub actions: Vec<Action>,
    pub stage: Location,
    pub dir: String,
    pub message: String,
    /// Whether the record is a comment: a failure is then a `CommentError`.
    pub of_comment: bool,
}

/// A change as texts.
pub struct ChangeView {
    pub actions: Seq<ActionView>,
    pub stage: LocationView,
    pub dir: Seq<char>,
    pub message: Seq<char>,
    pub of_comment: bool,
}

impl View for Change {
    type V = ChangeView;

    open spec fn view(&self) -> ChangeView {
        ChangeView {
            actions: action_views(self.actions@),
            stage: self.stage@,
            dir: self.dir@,
            message: self.message@,
            of_comment: self.of_comment,
        }
    }
}

/// How far a change has come: the action whose outcome is awaited.
#[derive(Clone, Copy, Debug, PartialEq, Eq, Structural)]
pub enum ChangeStage {
    /// Nothing has been asked for yet.
    Start,
    /// The file operation of this index is being carried out.
    Acting(usize),
    /// The record's directory is being staged.
    Staging,
    /// The engine is being asked whether anything changed.
    Checking,
    /// The commit is being made.
    Committing,
}

/// What a step of a change answers.
#[derive(Debug, PartialEq)]
pub enum ChangeStep {
    /// Carry out this action and come back at this stage with its outcome.
    Do { stage: ChangeStage, action: Action },
    /// The change is over.
    Done { result: Result<(), IssueError> },
}

/// A change step's answer as texts.
pub enum ChangeStepView {
    Do { stage: ChangeStage, action: ActionView },
    Done { result: Result<(), IssueFault> },
}

impl View for ChangeStep {
    type V = ChangeStepView;

    open spec fn view(&self) -> ChangeStepView {
        match self {
            ChangeStep::Do { stage, action } => ChangeStepView::Do {
                stage: *stage,
                action: action@,
            },
            ChangeStep::Done { result } => ChangeStepView::Done {
                result: match result {
                    Ok(()) => Ok(()),
                    Err(e) => Err(e@),
                },
            },
        }
    }
}

/// The command that stages what lies at a location, run from the directory
/// that holds it.
pub open spec fn add_command(at: LocationView) -> CommandView {
    CommandView { args: seq!["add"@, at.path()], dir: Some(at.parent) }
}

/// The command that asks for the changes in the checkout at `dir`, staged
/// or not, leaving untracked files out.
pub open spec fn status_command(dir: Seq<char>) -> CommandView {
    CommandView {
        args: seq!["status"@, "--porcelain"@, "--untracked-files=no"@],
        dir: Some(dir),
    }
}

/// The command that commits what is staged in the checkout at `dir`.
pub open spec fn commit_command(dir: Seq<char>, message: Seq<char>) -> CommandView {
    CommandView { args: seq!["commit"@, "-m"@, message], dir: Some(dir) }
}

/// What follows the file operations before `i`: the operation `i`, or the
/// staging of the record's directory where there is none.
pub open spec fn change_from(c: ChangeView, i: int) -> ChangeStepView {
    if 0 <= i < c.actions.len() {
        ChangeStepView::Do { stage: ChangeStage::Acting(i as usize), action: c.actions[i] }
    } else {
        ChangeStepView::Do {
            stage: ChangeStage::Staging,
            action: ActionView::Run { command: add_command(c.stage) },
        }
    }
}

/// The error of an issue that a failure makes.
pub open spec fn issue_fault(f: FailureView) -> IssueFault {
    match f {
        FailureView::Io(x) => IssueFault::StdIoError(x),
        FailureView::Git(e) => IssueFault::GitError(e),
        FailureView::Edit(e) => match e {
            EditFaultView::NotTerminal => IssueFault::StdioIsNotTerminal,
            EditFaultView::EnvVar => IssueFault::EnvVarError,
            EditFaultView::Editor => IssueFault::EditorError,
            EditFaultView::Empty => IssueFault::EmptyDescription,
            EditFaultView::Git(g) => IssueFault::GitError(g),
        },
    }
}

/// The error of a comment that a failure makes.
pub open spec fn comment_fault(f: FailureView) -> CommentFault {
    match f {
        FailureView::Io(x) => CommentFault::StdIoError(x),
        FailureView::Git(e) => CommentFault::GitError(e),
        FailureView::Edit(e) => match e {
            EditFaultView::NotTerminal => CommentFault::StdioIsNotTerminal,
            EditFaultView::EnvVar => CommentFault::EnvVarError,
            EditFaultView::Editor => CommentFault::EditorError,
            EditFaultView::Empty => CommentFault::EmptyDescription,
            EditFaultView::Git(g) => CommentFault::GitError(g),
        },
    }
}

/// The error with which a change ends on a failure.
pub open spec fn change_fault(c: ChangeView, f: FailureView) -> IssueFault {
    if c.of_comment {
        IssueFault::CommentError(comment_fault(f))
    } else {
        issue_fault(f)
    }
}

/// The end of a change on a failure.
pub open spec fn change_failed(c: ChangeView, f: FailureView) -> ChangeStepView {
    ChangeStepView::Done { result: Err(change_fault(c, f)) }
}

/// One step of a change: from the stage that was reached and the outcome of
/// its action to the next action, or to the end.
///
/// 1. The file operations, in order. The first that fails ends the change.
/// 2. What the change names is staged.
/// 3. The engine is asked whether anything changed. If it prints nothing,
///    the change ends there with `Ok`: no commit is made.
/// 4. The commit is made.
/// A run of the engine that fails ends the change with `GitError`.
pub open spec fn change_step(c: ChangeView, stage: ChangeStage, outcome: Outcome) -> ChangeStepView {
    match stage {
        ChangeStage::Start => change_from(c, 0),
        ChangeStage::Acting(i) => if i >= c.actions.len() {
            change_failed(c, FailureView::Git(GitFault::Oops))
        } else {
            match acted(c.actions[i as int], outcome) {
                Ok(()) => change_from(c, i + 1),
                Err(f) => change_failed(c, f),
            }
        },
        ChangeStage::Staging => match checked(outcome) {
            Ok(_) => ChangeStepView::Do {
                stage: ChangeStage::Checking,
                action: ActionView::Run { command: status_command(c.dir) },
            },
            Err(e) => change_failed(c, FailureView::Git(e@)),
        },
        ChangeStage::Checking => match outcome {
            Outcome::Exited(o) => if o.stdout@.len() > 0 {
                ChangeStepView::Do {
                    stage: ChangeStage::Committing,
                    action: ActionView::Run { command: commit_command(c.dir, c.message) },
                }
            } else {
                ChangeStepView::Done { result: Ok(()) }
            },
            Outcome::Failed(f) => change_failed(c, FailureView::Git(GitFault::StdIoError(f))),
            _ => change_failed(c, FailureView::Git(GitFault::Oops)),
        },
        ChangeStage::Committing => match checked(outcome) {
            Ok(_) => ChangeStepView::Done { result: Ok(()) },
            Err(e) => change_failed(c, FailureView::Git(e@)),
        },
    }
}

/// The error of an issue that a failure makes.
fn issue_error(f: Failure) -> (e: IssueError)
    ensures
        e@ == issue_fault(f@),
{
    match f {
        Failure::Io(x) => IssueError::StdIoError(x),
        Failure::Git(e) => IssueError::GitError(e),
        Failure::Edit(e) => match e {
            EditFault::NotTerminal => IssueError::StdioIsNotTerminal,
            EditFault::EnvVar => IssueError::EnvVarError,
            EditFault::Editor => IssueError::EditorError,
            EditFault::Empty => IssueError::EmptyDescription,
            EditFault::Git(g) => IssueError::GitError(g),
        },
    }
}

/// The error of a comment that a failure makes.
fn comment_error(f: Failure) -> (e: CommentError)
    ensures
        e@ == comment_fault(f@),
{
    match f {
        Failure::Io(x) => CommentError::StdIoError(x),
        Failure::Git(e) => CommentError::GitError(e),
        Failure::Edit(e) => match e {
            EditFault::NotTerminal => CommentError::StdioIsNotTerminal,
            EditFault::EnvVar => CommentError::EnvVarError,
            EditFault::Editor => CommentError::EditorError,
            EditFault::Empty => CommentError::EmptyDescription,
            EditFault::Git(g) => CommentError::GitError(g),
        },
    }
}

impl Change {
    /// What follows the file operations before `i`.
    fn from(&self, i: usize) -> (step: ChangeStep)
        ensures
            step@ == change_from(self@, i as int),
    {
        if i < self.actions.len() {
            assert(self@.actions[i as int] == self.actions@[i as int]@);
            ChangeStep::Do { stage: ChangeStage::Acting(i), action: self.actions[i].duplicate() }
        } else {
            ChangeStep::Do {
                stage: ChangeStage::Staging,
                action: Action::Run { command: crate::git::add(&self.stage) },
            }
        }
    }

    /// The end of the change on a failure.
    fn failed(&self, f: Failure) -> (step: ChangeStep)
        ensures
            step@ == change_failed(self@, f@),
    {
        if self.of_comment {
            ChangeStep::Done { result: Err(IssueError::CommentError(comment_error(f))) }
        } else {
            ChangeStep::Done { result: Err(issue_error(f)) }
        }
    }

    /// One step of the change.
    ///
    /// Call it first at `ChangeStage::Start`, with any outcome; then carry
    /// out the action that each `ChangeStep::Do` holds and call again at the
    /// stage it names, with the outcome of that action, until a step is
    /// `ChangeStep::Done`.
    pub fn step(&self, stage: ChangeStage, outcome: Outcome) -> (step: ChangeStep)
        ensures
            step@ == change_step(self@, stage, outcome),
    {
        match stage {
            ChangeStage::Start => self.from(0),
            ChangeStage::Acting(i) => {
                if i >= self.actions.len() {
                    return self.failed(Failure::Git(GitError::Oops));
                }
                assert(self@.actions[i as int] == self.actions@[i as int]@);
                match act(&self.actions[i], outcome) {
                    Ok(()) => self.from(i + 1),
                    Err(f) => self.failed(f),
                }
            },
            ChangeStage::Staging => match crate::git::check(outcome) {
                Ok(_) => ChangeStep::Do {
                    stage: ChangeStage::Checking,
                    action: Action::Run { command: crate::git::status(self.dir.as_str()) },
                },
                Err(e) => self.failed(Failure::Git(e)),
            },
            ChangeStage::Checking => match crate::git::worktree_is_dirty(outcome) {
                Ok(dirty) => if dirty {
                    ChangeStep::Do {
                        stage: ChangeStage::Committing,
                        action: Action::Run {
                            command: crate::git::commit(self.dir.as_str(), self.message.as_str()),
                        },
                    }
                } else {
                    ChangeStep::Done { result: Ok(()) }
                },
                Err(e) => self.failed(Failure::Git(e)),
            },
            ChangeStage::Committing => match crate::git::check(outcome) {
                Ok(_) => ChangeStep::Done { result: Ok(()) },
                Err(e) => self.failed(Failure::Git(e)),
            },
        }
    }
}

/// A commit is asked for only when the engine was asked whether anything
/// changed and printed something: a change that changed nothing is not
/// committed.
pub proof fn lemma_commit_only_if_dirty(c: ChangeView, stage: ChangeStage, outcome: Outcome)
    requires
        change_step(c, stage, outcome) matches ChangeStepView::Do { stage: next, .. }
            && next == ChangeStage::Committing,
    ensures
        stage == ChangeStage::Checking,
        outcome matches Outcome::Exited(o) && o.stdout@.len() > 0,
{
}

/// A script hands out no action after one that failed.
pub proof fn lemma_script_stops_at_failure(steps: Seq<ActionView>, done: usize, outcome: Outcome)
    requires
        0 < done <= steps.len(),
        settled(steps[done - 1], outcome) is Err,
    ensures
        script_step(steps, done, outcome) == (ScriptStepView::Done {
            result: settled(steps[done - 1], outcome),
        }),
{
}

} // verus!
