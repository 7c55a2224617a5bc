//! Synchronising a branch with a remote: fetch, look at what differs, merge,
//! push.
//!
//! The protocol is a state machine. The caller runs each command that a step
//! asks for and hands the outcome to the next step. Any failure ends the
//! protocol: nothing is retried and nothing is undone, so that a human finds
//! the checkout as the engine left it.

use vstd::prelude::*;
use crate::git::checked;
use crate::git::command;
use crate::git::slices;
use crate::git::CommandView;
use crate::git::GitCommand;
use crate::git::GitError;
use crate::git::GitFault;
use crate::git::GitOutput;
use crate::git::Outcome;
use crate::text::join2;
use crate::text::join3;
use crate::text::texts;

verus! {

/// How far a synchronisation has come: the command whose outcome is awaited.
#[derive(Clone, Copy, Debug, PartialEq, Eq, Structural)]
pub enum SyncStage {
    /// Nothing has been asked for yet.
    Start,
    /// The remote is being fetched.
    Fetch,
    /// The commits that the remote has and the branch lacks are being listed.
    Incoming,
    /// The commits that the branch has and the remote lacks are being listed.
    Outgoing,
    /// The remote's branch is being merged.
    Merge,
    /// The merged branch is being pushed.
    Push,
}

/// What a step of the synchronisation answers.
#[derive(Debug, PartialEq, Eq)]
pub enum SyncStep {
    /// Run this command and come back at this stage; `report` is for the human.
    Run { stage: SyncStage, command: GitCommand, report: Vec<String> },
    /// The synchronisation is over; `report` is for the human.
    Done { result: Result<(), GitError>, report: Vec<String> },
}

/// A step's answer as texts.
pub enum SyncStepView {
    Run { stage: SyncStage, command: CommandView, report: Seq<Seq<char>> },
    Done { result: Result<(), GitFault>, report: Seq<Seq<char>> },
}

impl View for SyncStep {
    type V = SyncStepView;

    open spec fn view(&self) -> SyncStepView {
        match self {
            SyncStep::Run { stage, command, report } => SyncStepView::Run {
                stage: *stage,
                command: command@,
                report: texts(report@),
            },
            SyncStep::Done { result, report } => SyncStepView::Done {
                result: match result {
                    Ok(()) => Ok(()),
                    Err(e) => Err(e@),
                },
                report: texts(report@),
            },
        }
    }
}

/// The name of the remote's copy of a branch.
pub open spec fn tracking(remote: Seq<char>, branch: Seq<char>) -> Seq<char> {
    remote + "/"@ + branch
}

/// The command that fetches from the remote.
pub open spec fn fetch_command(dir: Seq<char>, remote: Seq<char>) -> CommandView {
    CommandView { args: seq!["fetch"@, remote], dir: Some(dir) }
}

/// The command that lists what `to` has and `from` lacks, one line for each
/// commit that is no merge: author and subject.
pub open spec fn log_command(dir: Seq<char>, to: Seq<char>, from: Seq<char>) -> CommandView {
    CommandView {
        args: seq!["log"@, "--no-merges"@, "--pretty=format:%an: %s"@, to, "^"@ + from],
        dir: Some(dir),
    }
}

/// The command that merges the remote's copy of the branch into the branch.
pub open spec fn merge_command(dir: Seq<char>, remote: Seq<char>, branch: Seq<char>) -> CommandView {
    CommandView { args: seq!["merge"@, tracking(remote, branch)], dir: Some(dir) }
}

/// The command that pushes the branch to the remote.
pub open spec fn push_command(dir: Seq<char>, remote: Seq<char>, branch: Seq<char>) -> CommandView {
    CommandView { args: seq!["push"@, remote, branch], dir: Some(dir) }
}

/// What is said to the human when a command of the synchronisation failed:
/// which one, and what the engine wrote.
pub open spec fn failure_lines(what: Seq<char>, branch: Seq<char>, outcome: Outcome) -> Seq<
    Seq<char>,
> {
    let head = "Sync failed!  "@ + what + "  Help, a human needs to fix the mess in \""@ + branch
        + "\""@;
    match outcome {
        Outcome::Exited(o) => seq![head, "stdout: "@ + o.stdout@, "stderr: "@ + o.stderr@],
        _ => seq![head],
    }
}

/// What is said to the human about a list of commits: nothing if it is
/// empty, else a heading, the list, and an empty line.
pub open spec fn listing_lines(heading: Seq<char>, remote: Seq<char>, output: GitOutput) -> Seq<
    Seq<char>,
> {
    if output.stdout@.len() == 0 {
        Seq::empty()
    } else {
        seq![heading + remote + ":"@, output.stdout@, Seq::<char>::empty()]
    }
}

/// One step of the synchronisation of `branch` in the checkout at `dir` with
/// `remote`: from the stage that was reached and the outcome of its command
/// to the next command, or to the end.
///
/// 1. Fetch. A failure is a `FetchError` that names the remote and holds
///    what the engine wrote to its error stream.
/// 2. List what came in, then what will go out. Either failing ends the
///    synchronisation with `Oops`.
/// 3. Merge the remote's branch. A failure, such as a conflict, ends the
///    synchronisation with `Oops`.
/// 4. Push. A failure ends the synchronisation with `Oops`; success ends it
///    with `Ok`.
pub open spec fn sync_step(
    dir: Seq<char>,
    remote: Seq<char>,
    branch: Seq<char>,
    stage: SyncStage,
    outcome: Outcome,
) -> SyncStepView {
    match stage {
        SyncStage::Start => SyncStepView::Run {
            stage: SyncStage::Fetch,
            command: fetch_command(dir, remote),
            report: Seq::empty(),
        },
        SyncStage::Fetch => match outcome {
            Outcome::Exited(o) => if o.success {
                SyncStepView::Run {
                    stage: SyncStage::Incoming,
                    command: log_command(dir, tracking(remote, branch), branch),
                    report: Seq::empty(),
                }
            } else {
                SyncStepView::Done {
                    result: Err(GitFault::FetchError { remote, error: o.stderr@ }),
                    report: Seq::empty(),
                }
            },
            Outcome::Failed(f) => SyncStepView::Done {
                result: Err(GitFault::StdIoError(f)),
                report: Seq::empty(),
            },
            _ => SyncStepView::Done { result: Err(GitFault::Oops), report: Seq::empty() },
        },
        SyncStage::Incoming => match checked(outcome) {
            Ok(o) => SyncStepView::Run {
                stage: SyncStage::Outgoing,
                command: log_command(dir, branch, tracking(remote, branch)),
                report: listing_lines("Changes fetched from remote "@, remote, o),
            },
            Err(e) => SyncStepView::Done {
                result: Err(e@),
                report: failure_lines("'git log' error!"@, branch, outcome),
            },
        },
        SyncStage::Outgoing => match checked(outcome) {
            Ok(o) => SyncStepView::Run {
                stage: SyncStage::Merge,
                command: merge_command(dir, remote, branch),
                report: listing_lines("Changes to push to remote "@, remote, o),
            },
            Err(e) => SyncStepView::Done {
                result: Err(e@),
                report: failure_lines("'git log' error!"@, branch, outcome),
            },
        },
        SyncStage::Merge => match checked(outcome) {
            Ok(o) => SyncStepView::Run {
                stage: SyncStage::Push,
                command: push_command(dir, remote, branch),
                report: Seq::empty(),
            },
            Err(e) => SyncStepView::Done {
                result: Err(e@),
                report: failure_lines("Merge error!"@, branch, outcome),
            },
        },
        SyncStage::Push => match checked(outcome) {
            Ok(o) => SyncStepView::Done { result: Ok(()), report: Seq::empty() },
            Err(e) => SyncStepView::Done {
                result: Err(e@),
                report: failure_lines("Push error!"@, branch, outcome),
            },
        },
    }
}

/// Lists what `to` has and `from` lacks.
fn log_between(dir: &str, to: &str, from: &str) -> (c: GitCommand)
    ensures
        c@ == log_command(dir@, to@, from@),
{
    let not_from = join2("^", from);
    let w = vec!["log", "--no-merges", "--pretty=format:%an: %s", to, not_from.as_str()];
    assert(slices(w@) =~= seq![
        "log"@,
        "--no-merges"@,
        "--pretty=format:%an: %s"@,
        to@,
        "^"@ + from@,
    ]);
    command(w, Some(dir))
}

/// Says what failed, and what the engine wrote.
fn report_failure(what: &str, branch: &str, outcome: &Outcome) -> (lines: Vec<String>)
    ensures
        texts(lines@) == failure_lines(what@, branch@, *outcome),
{
    let mut head = join3("Sync failed!  ", what, "  Help, a human needs to fix the mess in \"");
    head.append(branch);
    head.append("\"");
    let mut lines: Vec<String> = Vec::new();
    lines.push(head);
    match outcome {
        Outcome::Exited(o) => {
            lines.push(join2("stdout: ", o.stdout.as_str()));
            lines.push(join2("stderr: ", o.stderr.as_str()));
            assert(texts(lines@) =~= failure_lines(what@, branch@, *outcome));
        },
        _ => {
            assert(texts(lines@) =~= failure_lines(what@, branch@, *outcome));
        },
    }
    lines
}

/// Says which commits a listing found.
fn report_listing(heading: &str, remote: &str, output: &GitOutput) -> (lines: Vec<String>)
    ensures
        texts(lines@) == listing_lines(heading@, remote@, *output),
{
    let mut lines: Vec<String> = Vec::new();
    if output.stdout.as_str().is_empty() {
        assert(texts(lines@) =~= listing_lines(heading@, remote@, *output));
    } else {
        lines.push(join3(heading, remote, ":"));
        lines.push(output.stdout.clone());
        lines.push(String::new());
        assert(texts(lines@) =~= listing_lines(heading@, remote@, *output));
    }
    lines
}

/// Ends the synchronisation with the failure of a command.
fn failed(e: GitError, what: &str, branch: &str, outcome: &Outcome) -> (step: SyncStep)
    ensures
        step@ == (SyncStepView::Done {
            result: Err(e@),
            report: failure_lines(what@, branch@, *outcome),
        }),
{
    SyncStep::Done { result: Err(e), report: report_failure(what, branch, outcome) }
}

/// Reads the engine's run without taking the outcome away.
fn inspect(outcome: &Outcome) -> (r: Result<&GitOutput, GitError>)
    ensures
        match checked(*outcome) {
            Ok(o) => r matches Ok(x) && *x == o,
            Err(e) => r matches Err(x) && x == e,
        },
{
    match outcome {
        Outcome::Exited(o) => if o.success {
            Ok(o)
        } else {
            Err(GitError::Oops)
        },
        Outcome::Failed(f) => Err(GitError::StdIoError(*f)),
        _ => Err(GitError::Oops),
    }
}

/// One step of the synchronisation of `branch` in the checkout at `dir` with
/// `remote`.
///
/// Call it first at `SyncStage::Start`, with any outcome; then run the
/// command that each `SyncStep::Run` holds and call again at the stage it
/// names, with the outcome of that command, until a step is
/// `SyncStep::Done`.
pub fn sync(dir: &str, remote: &str, branch: &str, stage: SyncStage, outcome: Outcome) -> (step:
    SyncStep)
    ensures
        step@ == sync_step(dir@, remote@, branch@, stage, outcome),
{
    let none: Vec<String> = Vec::new();
    assert(texts(none@) =~= Seq::<Seq<char>>::empty());
    match stage {
        SyncStage::Start => SyncStep::Run {
            stage: SyncStage::Fetch,
            command: fetch(dir, remote),
            report: none,
        },
        SyncStage::Fetch => match outcome {
            Outcome::Exited(o) => if o.success {
                let theirs = join3(remote, "/", branch);
                SyncStep::Run {
                    stage: SyncStage::Incoming,
                    command: log_between(dir, theirs.as_str(), branch),
                    report: none,
                }
            } else {
                SyncStep::Done {
                    result: Err(GitError::FetchError { remote: remote.to_owned(), error: o.stderr }),
                    report: none,
                }
            },
            Outcome::Failed(f) => SyncStep::Done {
                result: Err(GitError::StdIoError(f)),
                report: none,
            },
            _ => SyncStep::Done { result: Err(GitError::Oops), report: none },
        },
        SyncStage::Incoming => match inspect(&outcome) {
            Ok(o) => {
                let theirs = join3(remote, "/", branch);
                SyncStep::Run {
                    stage: SyncStage::Outgoing,
                    command: log_between(dir, branch, theirs.as_str()),
                    report: report_listing("Changes fetched from remote ", remote, o),
                }
            },
            Err(e) => failed(e, "'git log' error!", branch, &outcome),
        },
        SyncStage::Outgoing => match inspect(&outcome) {
            Ok(o) => {
                let theirs = join3(remote, "/", branch);
                let w = vec!["merge", theirs.as_str()];
                assert(slices(w@) =~= seq!["merge"@, tracking(remote@, branch@)]);
                SyncStep::Run {
                    stage: SyncStage::Merge,
                    command: command(w, Some(dir)),
                    report: report_listing("Changes to push to remote ", remote, o),
                }
            },
            Err(e) => failed(e, "'git log' error!", branch, &outcome),
        },
        SyncStage::Merge => match inspect(&outcome) {
            Ok(_) => {
                let w = vec!["push", remote, branch];
                assert(slices(w@) =~= seq!["push"@, remote@, branch@]);
                SyncStep::Run { stage: SyncStage::Push, command: command(w, Some(dir)), report: none }
            },
            Err(e) => failed(e, "Merge error!", branch, &outcome),
        },
        SyncStage::Push => match inspect(&outcome) {
            Ok(_) => SyncStep::Done { result: Ok(()), report: none },
            Err(e) => failed(e, "Push error!", branch, &outcome),
        },
    }
}

/// The first step of a synchronisation: fetching from the remote.
pub fn fetch(dir: &str, remote: &str) -> (c: GitCommand)
    ensures
        c@ == fetch_command(dir@, remote@),
{
    let w = vec!["fetch", remote];
    assert(slices(w@) =~= seq!["fetch"@, remote@]);
    command(w, Some(dir))
}

/// The branch is pushed only after a merge that succeeded: the one step
/// that asks for the push is the step that takes a successful outcome at
/// the merge.
pub proof fn lemma_push_follows_merge(
    dir: Seq<char>,
    remote: Seq<char>,
    branch: Seq<char>,
    stage: SyncStage,
    outcome: Outcome,
)
    requires
        sync_step(dir, remote, branch, stage, outcome) matches SyncStepView::Run { stage: next, .. }
            && next == SyncStage::Push,
    ensures
        stage == SyncStage::Merge,
        outcome matches Outcome::Exited(o) && o.success,
        sync_step(dir, remote, branch, stage, outcome) matches SyncStepView::Run { command, .. }
            && command == push_command(dir, remote, branch),
{
}

/// A merge that fails ends the synchronisation then and there, with an
/// error and with a report that is not the report of a failed push.
pub proof fn lemma_failed_merge_ends_sync(
    dir: Seq<char>,
    remote: Seq<char>,
    branch: Seq<char>,
    outcome: Outcome,
)
    requires
        checked(outcome) is Err,
    ensures
        sync_step(dir, remote, branch, SyncStage::Merge, outcome) matches SyncStepView::Done {
            result,
            report,
        } && result is Err && report == failure_lines("Merge error!"@, branch, outcome),
        failure_lines("Merge error!"@, branch, outcome) != failure_lines(
            "Push error!"@,
            branch,
            outcome,
        ),
{
    reveal_strlit("Sync failed!  ");
    reveal_strlit("Merge error!");
    reveal_strlit("Push error!");
    let a = "Sync failed!  "@;
    let b = "  Help, a human needs to fix the mess in \""@;
    let c = "\""@;
    let merge = a + "Merge error!"@ + b + branch + c;
    let push = a + "Push error!"@ + b + branch + c;
    assert(merge[14] == 'M');
    assert(push[14] == 'P');
    assert(failure_lines("Merge error!"@, branch, outcome)[0] == merge);
    assert(failure_lines("Push error!"@, branch, outcome)[0] == push);
}

/// Whatever happens, a synchronisation moves forward: a step that asks for
/// a command names the stage that follows the stage it was called at.
pub proof fn lemma_sync_moves_forward(
    dir: Seq<char>,
    remote: Seq<char>,
    branch: Seq<char>,
    stage: SyncStage,
    outcome: Outcome,
)
    requires
        sync_step(dir, remote, branch, stage, outcome) is Run,
    ensures
        sync_step(dir, remote, branch, stage, outcome)->Run_stage == following(stage),
        stage != SyncStage::Push,
{
}

/// The stage that follows a stage.
pub open spec fn following(stage: SyncStage) -> SyncStage {
    match stage {
        SyncStage::Start => SyncStage::Fetch,
        SyncStage::Fetch => SyncStage::Incoming,
        SyncStage::Incoming => SyncStage::Outgoing,
        SyncStage::Outgoing => SyncStage::Merge,
        SyncStage::Merge => SyncStage::Push,
        SyncStage::Push => SyncStage::Push,
    }
}

} // verus!
