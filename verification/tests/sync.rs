use entomologist::fs::IoFault;
use entomologist::fs::IoFaultKind;
use entomologist::git::add;
use entomologist::git::check;
use entomologist::git::checkout_branch_in_worktree;
use entomologist::git::commit;
use entomologist::git::create_orphan_branch;
use entomologist::git::create_orphan_branch_at_path;
use entomologist::git::ensure_branch_exists;
use entomologist::git::failure_report;
use entomologist::git::git_branch_exists;
use entomologist::git::git_commit_file;
use entomologist::git::git_log_oldest_author_timestamp;
use entomologist::git::git_remove_branch;
use entomologist::git::git_worktree_prune;
use entomologist::git::log_authors;
use entomologist::git::restore_file;
use entomologist::git::show_ref;
use entomologist::git::status;
use entomologist::git::worktree_add;
use entomologist::git::worktree_is_dirty;
use entomologist::git::worktree_remove;
use entomologist::git::EnsureStage;
use entomologist::git::EnsureStep;
use entomologist::git::GitCommand;
use entomologist::git::GitError;
use entomologist::git::GitOutput;
use entomologist::git::Outcome;
use entomologist::git::Worktree;
use entomologist::change::Script;
use entomologist::change::ScriptStep;
use entomologist::fs::Action;
use entomologist::fs::Location;
use entomologist::sync::fetch;
use entomologist::sync::sync;
use entomologist::sync::SyncStage;
use entomologist::sync::SyncStep;
use entomologist::timestamp::Timestamp;

fn command(args: &[&str], dir: Option<&str>) -> GitCommand {
    GitCommand { args: args.iter().map(|a| String::from(*a)).collect(), dir: dir.map(String::from) }
}

fn succeeded(stdout: &str) -> Outcome {
    Outcome::Exited(GitOutput { success: true, stdout: String::from(stdout), stderr: String::new() })
}

fn failed(stderr: &str) -> Outcome {
    Outcome::Exited(GitOutput {
        success: false,
        stdout: String::from("some output"),
        stderr: String::from(stderr),
    })
}

fn unstarted() -> (IoFault, Outcome) {
    let fault = IoFault { kind: IoFaultKind::NotFound, os_code: Some(2) };
    (fault, Outcome::Failed(fault))
}

/// Runs a synchronisation against an engine that answers each command with
/// the next of the given outcomes.
fn run_sync(outcomes: Vec<Outcome>) -> (Vec<GitCommand>, Vec<String>, Result<(), GitError>) {
    let mut commands = Vec::new();
    let mut lines = Vec::new();
    let mut answers = outcomes.into_iter();
    let mut stage = SyncStage::Start;
    let mut outcome = Outcome::Done;
    loop {
        match sync("/tmp/checkout", "origin", "entomologist-data", stage, outcome) {
            SyncStep::Run { stage: next, command, report } => {
                lines.extend(report);
                commands.push(command);
                stage = next;
                outcome = answers.next().expect("the engine was asked more often than expected");
            }
            SyncStep::Done { result, report } => {
                lines.extend(report);
                return (commands, lines, result);
            }
        }
    }
}

fn sync_commands() -> Vec<GitCommand> {
    let dir = Some("/tmp/checkout");
    vec![
        command(&["fetch", "origin"], dir),
        command(
            &[
                "log",
                "--no-merges",
                "--pretty=format:%an: %s",
                "origin/entomologist-data",
                "^entomologist-data",
            ],
            dir,
        ),
        command(
            &[
                "log",
                "--no-merges",
                "--pretty=format:%an: %s",
                "entomologist-data",
                "^origin/entomologist-data",
            ],
            dir,
        ),
        command(&["merge", "origin/entomologist-data"], dir),
        command(&["push", "origin", "entomologist-data"], dir),
    ]
}

#[test]
fn sync_runs_fetch_log_log_merge_push() {
    let (commands, lines, result) = run_sync(vec![
        succeeded(""),
        succeeded("seb: theirs"),
        succeeded(""),
        succeeded("Merge made"),
        succeeded(""),
    ]);
    assert_eq!(result, Ok(()));
    assert_eq!(commands, sync_commands());
    assert_eq!(
        lines,
        vec![
            String::from("Changes fetched from remote origin:"),
            String::from("seb: theirs"),
            String::new()
        ]
    );
    assert_eq!(fetch("/tmp/checkout", "origin"), sync_commands()[0]);
}

#[test]
fn sync_reports_what_goes_out() {
    let (_, lines, result) = run_sync(vec![
        succeeded(""),
        succeeded(""),
        succeeded("seb: mine\nseb: mine too"),
        succeeded(""),
        succeeded(""),
    ]);
    assert_eq!(result, Ok(()));
    assert_eq!(
        lines,
        vec![
            String::from("Changes to push to remote origin:"),
            String::from("seb: mine\nseb: mine too"),
            String::new()
        ]
    );
}

#[test]
fn sync_with_a_merge_conflict_never_pushes() {
    let (commands, lines, result) =
        run_sync(vec![succeeded(""), succeeded(""), succeeded(""), failed("CONFLICT (content)")]);
    assert_eq!(result, Err(GitError::Oops));
    assert_eq!(commands[..], sync_commands()[..4]);
    assert!(commands.iter().all(|c| c.args[0] != "push"));
    assert_eq!(
        lines,
        vec![
            String::from(
                "Sync failed!  Merge error!  Help, a human needs to fix the mess in \"entomologist-data\""
            ),
            String::from("stdout: some output"),
            String::from("stderr: CONFLICT (content)"),
        ]
    );
}

#[test]
fn sync_with_a_failed_push_says_so() {
    let (commands, lines, result) = run_sync(vec![
        succeeded(""),
        succeeded(""),
        succeeded(""),
        succeeded(""),
        failed("rejected"),
    ]);
    assert_eq!(result, Err(GitError::Oops));
    assert_eq!(commands.len(), 5);
    assert_eq!(
        lines[0],
        "Sync failed!  Push error!  Help, a human needs to fix the mess in \"entomologist-data\""
    );
}

#[test]
fn sync_with_a_failed_fetch_names_the_remote() {
    let (commands, lines, result) = run_sync(vec![failed("no such remote")]);
    assert_eq!(
        result,
        Err(GitError::FetchError {
            remote: String::from("origin"),
            error: String::from("no such remote")
        })
    );
    assert_eq!(commands.len(), 1);
    assert!(lines.is_empty());
}

#[test]
fn sync_with_a_failed_listing_stops() {
    let (commands, lines, result) = run_sync(vec![succeeded(""), failed("bad revision")]);
    assert_eq!(result, Err(GitError::Oops));
    assert_eq!(commands.len(), 2);
    assert_eq!(
        lines[0],
        "Sync failed!  'git log' error!  Help, a human needs to fix the mess in \"entomologist-data\""
    );
    let (commands, _, result) = run_sync(vec![succeeded(""), succeeded(""), failed("bad revision")]);
    assert_eq!(result, Err(GitError::Oops));
    assert_eq!(commands.len(), 3);
}

#[test]
fn sync_without_an_engine_fails_with_the_fault() {
    for before in 0..5 {
        let (fault, outcome) = unstarted();
        let mut outcomes: Vec<Outcome> = (0..before).map(|_| succeeded("")).collect();
        outcomes.push(outcome);
        let (commands, _, result) = run_sync(outcomes);
        assert_eq!(result, Err(GitError::StdIoError(fault)));
        assert_eq!(commands.len(), before + 1);
    }
}

#[test]
fn test_worktree() {
    let (worktree, command_made) = Worktree::new("origin/main", "/tmp/wt");
    assert_eq!(worktree.path(), "/tmp/wt");
    assert_eq!(command_made, command(&["worktree", "add", "/tmp/wt", "origin/main"], None));
    assert_eq!(check(succeeded("")).map(|_| ()), Ok(()));
    assert_eq!(worktree.remove(), command(&["worktree", "remove", "--force", "/tmp/wt"], None));

    let (detached, command_made) = Worktree::new_detached("origin/main", "/tmp/wt");
    assert_eq!(detached.path(), "/tmp/wt");
    assert_eq!(
        command_made,
        command(&["worktree", "add", "--detach", "/tmp/wt", "origin/main"], None)
    );
}

#[test]
fn test_create_orphan_branch() {
    let branch = "entomologist-test-branch-0123456789abcdef0123456789abcdef";
    let script = create_orphan_branch(branch, "/tmp/wt");
    let at = Some("/tmp/wt");
    let want = vec![
        Action::Run { command: command(&["worktree", "add", "/tmp/wt", "HEAD"], None) },
        Action::Run { command: command(&["switch", "--orphan", branch], at) },
        Action::WriteFile {
            path: String::from("/tmp/wt/README.md"),
            contents: String::from("This branch is used by entomologist to track issues."),
        },
        Action::Run { command: command(&["add", "README.md"], at) },
        Action::Run { command: command(&["commit", "-m", "create entomologist issue branch"], at) },
        Action::RemoveDir { path: String::from("/tmp/wt") },
        Action::Run { command: command(&["worktree", "prune"], None) },
    ];
    assert_eq!(script.steps, want);
    assert_eq!(create_orphan_branch_at_path(branch, "/tmp/wt").steps, want[..5]);
    assert_eq!(git_remove_branch(branch), command(&["branch", "-D", branch], None));
}

#[test]
fn test_branch_exists_0() {
    assert_eq!(show_ref("origin/main"), command(&["show-ref", "--quiet", "origin/main"], None));
    let r = git_branch_exists(succeeded("")).unwrap();
    assert_eq!(r, true);
}

#[test]
fn test_branch_exists_1() {
    let branch = "entomologist-missing-branch-0123456789abcdef0123456789abcdef";
    assert_eq!(show_ref(branch), command(&["show-ref", "--quiet", branch], None));
    let r = git_branch_exists(failed("")).unwrap();
    assert_eq!(r, false);
    let (fault, outcome) = unstarted();
    assert_eq!(git_branch_exists(outcome), Err(GitError::StdIoError(fault)));
}

/// Carries a script out against an engine that answers each action with
/// the next of the given outcomes.
fn run_script(script: &Script, outcomes: Vec<Outcome>) -> (usize, Result<(), GitError>) {
    let mut answers = outcomes.into_iter();
    let mut done = 0;
    let mut outcome = Outcome::Done;
    let mut handed_out = 0;
    loop {
        match script.step(done, outcome) {
            ScriptStep::Do { done: next, action } => {
                assert_eq!(action, script.steps[next - 1]);
                handed_out += 1;
                done = next;
                outcome = answers.next().expect("more actions than expected");
            }
            ScriptStep::Done { result } => return (handed_out, result),
        }
    }
}

#[test]
fn a_script_stops_at_the_first_failure() {
    let script = create_orphan_branch("b", "/tmp/wt");
    let all_well = vec![
        succeeded(""),
        succeeded(""),
        Outcome::Done,
        succeeded(""),
        succeeded(""),
        Outcome::Done,
        succeeded(""),
    ];
    assert_eq!(run_script(&script, all_well), (7, Ok(())));
    assert_eq!(run_script(&script, vec![succeeded(""), failed("x")]), (2, Err(GitError::Oops)));
    let (fault, outcome) = unstarted();
    assert_eq!(
        run_script(&script, vec![succeeded(""), succeeded(""), outcome]),
        (3, Err(GitError::StdIoError(fault)))
    );
    assert_eq!(run_script(&Script { steps: Vec::new() }, Vec::new()), (0, Ok(())));
    assert_eq!(script.step(8, Outcome::Done), ScriptStep::Done { result: Err(GitError::Oops) });
}

#[test]
fn commands_of_the_engine() {
    let file = Location::new("/db/abc", "description");
    assert_eq!(add(&file), command(&["add", "/db/abc/description"], Some("/db/abc")));
    assert_eq!(restore_file(&file), command(&["restore", "/db/abc/description"], Some("/db/abc")));
    assert_eq!(commit("/db/abc", "a message"), command(&["commit", "-m", "a message"], Some("/db/abc")));
    assert_eq!(
        status("/db/abc"),
        command(&["status", "--porcelain", "--untracked-files=no"], Some("/db/abc"))
    );
    assert_eq!(git_worktree_prune(), command(&["worktree", "prune"], None));
    assert_eq!(worktree_remove("/tmp/wt"), command(&["worktree", "remove", "--force", "/tmp/wt"], None));
    assert_eq!(worktree_add("/tmp/wt", "b", false), command(&["worktree", "add", "/tmp/wt", "b"], None));
    assert_eq!(
        checkout_branch_in_worktree("b", "/tmp/wt"),
        command(&["worktree", "add", "/tmp/wt", "b"], None)
    );
    assert_eq!(
        log_authors(&Location::new("/db", "abc")),
        command(&["log", "--pretty=format:%at %an <%ae>", "--", "abc"], Some("/db"))
    );
    assert_eq!(
        git_commit_file(&Location::new("/db", "abc"), "state").steps,
        vec![
            Action::Run { command: command(&["add", "state"], Some("/db/abc")) },
            Action::Run {
                command: command(&["commit", "-m", "update 'state' in issue abc"], Some("/db/abc"))
            },
        ]
    );
}

#[test]
fn reading_outcomes() {
    assert_eq!(worktree_is_dirty(succeeded(" M description\n")), Ok(true));
    assert_eq!(worktree_is_dirty(succeeded("")), Ok(false));
    assert_eq!(worktree_is_dirty(failed("")), Ok(true));
    let (fault, outcome) = unstarted();
    assert_eq!(worktree_is_dirty(outcome), Err(GitError::StdIoError(fault)));
    assert_eq!(check(failed("x")), Err(GitError::Oops));
    assert_eq!(check(Outcome::Done), Err(GitError::Oops));
    let output = GitOutput { success: false, stdout: String::from("o"), stderr: String::from("e") };
    assert_eq!(failure_report(&output), vec![String::from("stdout: o"), String::from("stderr: e")]);
}

#[test]
fn oldest_commit_stands_in_the_last_line() {
    let output = |stdout: &str| GitOutput {
        success: true,
        stdout: String::from(stdout),
        stderr: String::new(),
    };
    assert_eq!(
        git_log_oldest_author_timestamp(&output(
            "1753371000 Young <y@x>\n1753367785 Sebastian Kuzminsky <seb@highlab.com>"
        )),
        Ok((
            String::from("Sebastian Kuzminsky <seb@highlab.com>"),
            Timestamp { secs: 1753367785, nanos: 0 }
        ))
    );
    assert_eq!(
        git_log_oldest_author_timestamp(&output("-5 A B")),
        Ok((String::from("A B"), Timestamp { secs: -5, nanos: 0 }))
    );
    assert_eq!(git_log_oldest_author_timestamp(&output("")), Err(GitError::Oops));
    assert_eq!(git_log_oldest_author_timestamp(&output("1753367785 A\n")), Err(GitError::Oops));
    assert_eq!(git_log_oldest_author_timestamp(&output("x A")), Err(GitError::ParseIntError));
    assert_eq!(git_log_oldest_author_timestamp(&output(" A")), Err(GitError::ParseIntError));
    assert_eq!(
        git_log_oldest_author_timestamp(&GitOutput {
            success: false,
            stdout: String::from("1 A"),
            stderr: String::new()
        }),
        Err(GitError::Oops)
    );
}

/// Looks for a branch against an engine that answers each command with the
/// next of the given outcomes.
fn run_ensure(outcomes: Vec<Outcome>) -> (Vec<GitCommand>, EnsureStep) {
    let mut commands = Vec::new();
    let mut answers = outcomes.into_iter();
    let mut stage = EnsureStage::Start;
    let mut outcome = Outcome::Done;
    loop {
        match ensure_branch_exists("entomologist-data", stage, outcome) {
            EnsureStep::Run { stage: next, command } => {
                commands.push(command);
                stage = next;
                outcome = answers.next().expect("more commands than expected");
            }
            last => return (commands, last),
        }
    }
}

#[test]
fn ensure_branch_exists_finds_makes_or_copies() {
    let local = command(&["show-ref", "--quiet", "refs/heads/entomologist-data"], None);
    let any = command(&["show-ref", "entomologist-data"], None);

    let (commands, last) = run_ensure(vec![succeeded("")]);
    assert_eq!(commands, vec![local.duplicate()]);
    assert_eq!(last, EnsureStep::Done { result: Ok(()) });

    let (commands, last) = run_ensure(vec![failed(""), failed("")]);
    assert_eq!(commands, vec![local.duplicate(), any.duplicate()]);
    assert_eq!(last, EnsureStep::CreateOrphan);

    let listing = "0123abc refs/remotes/origin/entomologist-data\n4567def refs/remotes/other/entomologist-data\n";
    let (commands, last) = run_ensure(vec![failed(""), succeeded(listing), succeeded("")]);
    assert_eq!(
        commands,
        vec![
            local.duplicate(),
            any.duplicate(),
            command(&["branch", "entomologist-data", "refs/remotes/origin/entomologist-data"], None)
        ]
    );
    assert_eq!(last, EnsureStep::Done { result: Ok(()) });

    let (_, last) = run_ensure(vec![failed(""), succeeded(listing), failed("")]);
    assert_eq!(last, EnsureStep::Done { result: Err(GitError::Oops) });
    let (_, last) = run_ensure(vec![failed(""), succeeded("\nx y")]);
    assert_eq!(last, EnsureStep::Done { result: Err(GitError::Oops) });
    let (fault, outcome) = unstarted();
    let (_, last) = run_ensure(vec![outcome]);
    assert_eq!(last, EnsureStep::Done { result: Err(GitError::StdIoError(fault)) });
}
