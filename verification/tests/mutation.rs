use entomologist::change::Change;
use entomologist::change::ChangeStage;
use entomologist::change::ChangeStep;
use entomologist::comment::Comment;
use entomologist::comment::CommentError;
use entomologist::database::make_issues_database;
use entomologist::database::Error;
use entomologist::issues::ReadIssuesError;
use entomologist::database::read_issues_database;
use entomologist::database::sync_branch;
use entomologist::database::IssuesDatabase;
use entomologist::database::IssuesDatabaseAccess;
use entomologist::database::IssuesDatabaseSource;
use entomologist::database::Opening;
use entomologist::edit::edit_description_file;
use entomologist::edit::EditEvent;
use entomologist::edit::EditStep;
use entomologist::edit::EditorVar;
use entomologist::fs::join;
use entomologist::fs::Action;
use entomologist::fs::IoFault;
use entomologist::fs::IoFaultKind;
use entomologist::fs::Location;
use entomologist::fs::Node;
use entomologist::git::EditFault;
use entomologist::git::GitCommand;
use entomologist::git::GitError;
use entomologist::git::GitOutput;
use entomologist::git::Outcome;
use entomologist::git::Worktree;
use entomologist::issue::Issue;
use entomologist::issue::IssueError;
use entomologist::issue::State;
use entomologist::timestamp::Timestamp;

const ID: &str = "0123456789abcdef0123456789abcdef";
const DIR: &str = "/db/0123456789abcdef0123456789abcdef";

fn issue() -> Issue {
    Issue {
        id: String::from(ID),
        author: String::from("a"),
        creation_time: Timestamp { secs: 0, nanos: 0 },
        done_time: None,
        tags: vec![String::from("bug"), String::from("docs")],
        state: State::New,
        dependencies: None,
        assignee: None,
        description: String::from("d"),
        comments: Vec::<Comment>::new(),
        dir: Location::new("/db", ID),
    }
}

fn command(args: &[&str], dir: Option<&str>) -> GitCommand {
    GitCommand { args: args.iter().map(|a| String::from(*a)).collect(), dir: dir.map(String::from) }
}

fn write(path: &str, contents: &str) -> Action {
    Action::WriteFile { path: String::from(path), contents: String::from(contents) }
}

fn succeeded(stdout: &str) -> Outcome {
    Outcome::Exited(GitOutput { success: true, stdout: String::from(stdout), stderr: String::new() })
}

fn failed() -> Outcome {
    Outcome::Exited(GitOutput { success: false, stdout: String::new(), stderr: String::new() })
}

fn committing(actions: Vec<Action>, message: &str) -> Change {
    Change {
        actions,
        stage: Location::new("/db", ID),
        dir: String::from(DIR),
        message: String::from(message),
        of_comment: false,
    }
}

/// Carries a change out against a caller that answers each action with the
/// next of the given outcomes.
fn run(change: &Change, outcomes: Vec<Outcome>) -> (Vec<Action>, Result<(), IssueError>) {
    let mut actions = Vec::new();
    let mut answers = outcomes.into_iter();
    let mut stage = ChangeStage::Start;
    let mut outcome = Outcome::Done;
    loop {
        match change.step(stage, outcome) {
            ChangeStep::Do { stage: next, action } => {
                actions.push(action);
                stage = next;
                outcome = answers.next().expect("more actions than expected");
            }
            ChangeStep::Done { result } => return (actions, result),
        }
    }
}

#[test]
fn a_change_is_written_staged_checked_and_committed() {
    let change = committing(vec![write("/db/x/state", "done")], "a message");
    let (actions, result) =
        run(&change, vec![Outcome::Done, succeeded(""), succeeded("M  state\n"), succeeded("")]);
    assert_eq!(result, Ok(()));
    assert_eq!(
        actions,
        vec![
            write("/db/x/state", "done"),
            Action::Run { command: command(&["add", DIR], Some("/db")) },
            Action::Run {
                command: command(&["status", "--porcelain", "--untracked-files=no"], Some(DIR))
            },
            Action::Run { command: command(&["commit", "-m", "a message"], Some(DIR)) },
        ]
    );
}

#[test]
fn a_change_that_changes_nothing_is_not_committed() {
    let change = committing(vec![write("/db/x/state", "done")], "a message");
    let (actions, result) = run(&change, vec![Outcome::Done, succeeded(""), succeeded("")]);
    assert_eq!(result, Ok(()));
    assert_eq!(actions.len(), 3);
    assert!(actions.iter().all(|a| match a {
        Action::Run { command } => command.args[0] != "commit",
        _ => true,
    }));
}

#[test]
fn a_change_stops_at_the_first_failure() {
    let change = committing(vec![write("/db/x/a", ""), write("/db/x/b", "")], "m");
    let fault = IoFault { kind: IoFaultKind::Other, os_code: Some(28) };
    let (actions, result) = run(&change, vec![Outcome::Failed(fault)]);
    assert_eq!((actions.len(), result), (1, Err(IssueError::StdIoError(fault))));
    let (actions, result) = run(&change, vec![Outcome::Done, Outcome::Done, failed()]);
    assert_eq!((actions.len(), result), (3, Err(IssueError::GitError(GitError::Oops))));
    let (actions, result) =
        run(&change, vec![Outcome::Done, Outcome::Done, succeeded(""), Outcome::Failed(fault)]);
    assert_eq!(
        (actions.len(), result),
        (4, Err(IssueError::GitError(GitError::StdIoError(fault))))
    );
    let (actions, result) =
        run(&change, vec![Outcome::Done, Outcome::Done, succeeded(""), succeeded("M"), failed()]);
    assert_eq!((actions.len(), result), (5, Err(IssueError::GitError(GitError::Oops))));
    assert_eq!(
        change.step(ChangeStage::Acting(2), Outcome::Done),
        ChangeStep::Done { result: Err(IssueError::GitError(GitError::Oops)) }
    );
}

#[test]
fn new_issue_with_a_description() {
    let now = Timestamp { secs: 1753367785, nanos: 7 };
    let (made, change) =
        Issue::new_with("/db", 0x0123456789abcdef0123456789abcdef, now, &Some(String::from("title\n\nbody")))
            .unwrap();
    let mut want = issue();
    want.author = String::new();
    want.creation_time = now;
    want.tags = Vec::new();
    want.description = String::from("title\n\nbody");
    assert_eq!(made, want);
    assert_eq!(
        change,
        committing(
            vec![
                Action::CreateDir { path: String::from(DIR) },
                write("/db/0123456789abcdef0123456789abcdef/description", "title\n\nbody"),
            ],
            "create new issue 0123456789abcdef0123456789abcdef"
        )
    );
}

#[test]
fn new_issue_without_a_description_is_written_in_an_editor() {
    let now = Timestamp { secs: 1, nanos: 0 };
    let (made, change) = Issue::new_with("/db", 0x0123456789abcdef0123456789abcdef, now, &None).unwrap();
    assert_eq!(made.description, "");
    assert_eq!(
        change.actions,
        vec![
            Action::CreateDir { path: String::from(DIR) },
            Action::Edit { file: Location::new(DIR, "description"), existed: false },
        ]
    );
    let (actions, result) = run(&change, vec![Outcome::Done, Outcome::Abandoned(EditFault::Empty)]);
    assert_eq!((actions.len(), result), (2, Err(IssueError::EmptyDescription)));
    let (_, result) = run(&change, vec![Outcome::Done, Outcome::Abandoned(EditFault::Editor)]);
    assert_eq!(result, Err(IssueError::EditorError));
    let (_, result) = run(&change, vec![Outcome::Done, Outcome::Abandoned(EditFault::NotTerminal)]);
    assert_eq!(result, Err(IssueError::StdioIsNotTerminal));
    let (_, result) = run(&change, vec![Outcome::Done, Outcome::Abandoned(EditFault::EnvVar)]);
    assert_eq!(result, Err(IssueError::EnvVarError));
    let (_, result) =
        run(&change, vec![Outcome::Done, Outcome::Abandoned(EditFault::Git(GitError::Oops))]);
    assert_eq!(result, Err(IssueError::GitError(GitError::Oops)));
}

#[test]
fn new_issue_refuses_an_empty_description() {
    let now = Timestamp { secs: 1, nanos: 0 };
    for text in ["", " ", "\n\t "] {
        assert_eq!(
            Issue::new_with("/db", 1, now, &Some(String::from(text))),
            Err(IssueError::EmptyDescription)
        );
        assert_eq!(Issue::new("/db", &Some(String::from(text))), Err(IssueError::EmptyDescription));
    }
}

#[test]
fn new_issues_get_identifiers_of_their_own() {
    let (a, change) = Issue::new("/db", &Some(String::from("a"))).unwrap();
    let (b, _) = Issue::new("/db", &Some(String::from("b"))).unwrap();
    assert_eq!(a.id.len(), 32);
    assert!(a.id.chars().all(|c| c.is_ascii_digit() || ('a'..='f').contains(&c)));
    assert_ne!(a.id, b.id);
    assert_eq!(a.dir, Location::new("/db", &a.id));
    assert_eq!(change.message, format!("create new issue {}", a.id));
    assert!(a.creation_time.secs > 1_735_689_600);
}

#[test]
fn set_state_writes_the_token() {
    let mut i = issue();
    let (change, stamp) = i.set_state(State::InProgress);
    assert_eq!(i.state, State::InProgress);
    assert!(!stamp);
    assert_eq!(
        change,
        committing(
            vec![write("/db/0123456789abcdef0123456789abcdef/state", "inprogress")],
            "change state of issue 0123456789abcdef0123456789abcdef, new -> inprogress"
        )
    );
}

#[test]
fn done_is_stamped_and_the_stamp_stays() {
    let mut i = issue();
    let (_, stamp) = i.set_state(State::Done);
    assert!(stamp);
    assert_eq!(i.done_time, None);
    let now = Timestamp { secs: 1753367785, nanos: 0 };
    let change = i.set_done_time(now).unwrap();
    assert_eq!(i.done_time, Some(now));
    assert_eq!(
        change,
        committing(
            vec![write("/db/0123456789abcdef0123456789abcdef/done_time", "2025-07-24T14:36:25+00:00")],
            "set done-time of issue 0123456789abcdef0123456789abcdef to 2025-07-24T14:36:25+00:00"
        )
    );
    let (change, stamp) = i.set_state(State::New);
    assert!(!stamp);
    assert_eq!(i.state, State::New);
    assert_eq!(i.done_time, Some(now));
    assert_eq!(change.actions.len(), 1);
    assert_eq!(
        change.message,
        "change state of issue 0123456789abcdef0123456789abcdef, done -> new"
    );
}

#[test]
fn a_time_out_of_range_is_refused() {
    let mut i = issue();
    assert_eq!(
        i.set_done_time(Timestamp { secs: i64::MIN, nanos: 0 }),
        Err(IssueError::ChronoParseError)
    );
    assert_eq!(i, issue());
}

#[test]
fn set_assignee_names_the_old_and_the_new() {
    let mut i = issue();
    let change = i.set_assignee("seb");
    assert_eq!(i.assignee, Some(String::from("seb")));
    assert_eq!(
        change,
        committing(
            vec![write("/db/0123456789abcdef0123456789abcdef/assignee", "seb")],
            "change assignee of issue 0123456789abcdef0123456789abcdef, None -> seb"
        )
    );
    let change = i.set_assignee("sigil");
    assert_eq!(
        change.message,
        "change assignee of issue 0123456789abcdef0123456789abcdef, seb -> sigil"
    );
}

fn tag_files(tags: &[&str]) -> Vec<Action> {
    let tags_dir = "/db/0123456789abcdef0123456789abcdef/tags";
    let mut actions = vec![Action::ResetDir { path: String::from(tags_dir) }];
    for tag in tags {
        actions.push(write(&join(tags_dir, tag), ""));
    }
    actions
}

#[test]
fn add_tag_keeps_the_tags_in_order() {
    let mut i = issue();
    let change = i.add_tag("a/b,c").unwrap();
    assert_eq!(i.tags, vec![String::from("a/b,c"), String::from("bug"), String::from("docs")]);
    assert_eq!(
        change,
        committing(
            tag_files(&["a,1b,0c", "bug", "docs"]),
            "issue 0123456789abcdef0123456789abcdef add tag a/b,c"
        )
    );
    let change = i.add_tag("zebra").unwrap();
    assert_eq!(i.tags.last().unwrap(), "zebra");
    assert_eq!(change.actions.len(), 5);
}

#[test]
fn add_tag_twice_changes_nothing() {
    let mut i = issue();
    assert_eq!(i.add_tag("bug"), None);
    assert_eq!(i, issue());
    assert!(i.add_tag("new").is_some());
    let after = i.tags.clone();
    assert_eq!(i.add_tag("new"), None);
    assert_eq!(i.tags, after);
}

#[test]
fn remove_tag_takes_the_tag_or_fails() {
    let mut i = issue();
    assert_eq!(i.remove_tag("absent"), Err(IssueError::TagNotFound(String::from("absent"))));
    assert_eq!(i, issue());
    let change = i.remove_tag("bug").unwrap();
    assert_eq!(i.tags, vec![String::from("docs")]);
    assert_eq!(
        change,
        committing(tag_files(&["docs"]), "issue 0123456789abcdef0123456789abcdef remove tag bug")
    );
    assert_eq!(i.remove_tag("bug"), Err(IssueError::TagNotFound(String::from("bug"))));
}

#[test]
fn add_dependency_marks_it() {
    let mut i = issue();
    assert_eq!(i.add_dependency(String::from(ID)), Err(IssueError::DepSelf));
    assert_eq!(i, issue());
    let change = i.add_dependency(String::from("ffff")).unwrap();
    assert_eq!(i.dependencies, Some(vec![String::from("ffff")]));
    assert_eq!(
        change,
        committing(
            vec![
                Action::EnsureDir {
                    path: String::from("/db/0123456789abcdef0123456789abcdef/dependencies")
                },
                write("/db/0123456789abcdef0123456789abcdef/dependencies/ffff", ""),
            ],
            "add dep ffff to issue 0123456789abcdef0123456789abcdef"
        )
    );
    assert_eq!(i.add_dependency(String::from("ffff")), Err(IssueError::DepExists));
    assert_eq!(i.dependencies, Some(vec![String::from("ffff")]));
    i.add_dependency(String::from("aaaa")).unwrap();
    assert_eq!(i.dependencies, Some(vec![String::from("ffff"), String::from("aaaa")]));
}

#[test]
fn remove_dependency_forgets_it() {
    let mut i = issue();
    assert_eq!(i.remove_dependency(String::from("ffff")), Err(IssueError::DepNotFound));
    i.dependencies = Some(vec![String::from("aaaa"), String::from("ffff")]);
    assert_eq!(i.remove_dependency(String::from("bbbb")), Err(IssueError::DepNotFound));
    let change = i.remove_dependency(String::from("aaaa")).unwrap();
    assert_eq!(i.dependencies, Some(vec![String::from("ffff")]));
    assert_eq!(
        change,
        committing(Vec::new(), "remove dep aaaa from issue 0123456789abcdef0123456789abcdef")
    );
}

#[test]
fn read_state_and_description() {
    let mut i = issue();
    assert_eq!(i.read_state(" Blocked\n"), Ok(()));
    assert_eq!(i.state, State::Blocked);
    assert_eq!(i.read_state("nonsense"), Err(IssueError::StateParseError));
    assert_eq!(i.state, State::Blocked);
    i.read_description(String::from("new text"));
    assert_eq!(i.description, "new text");
    assert_eq!(i.description_filename(), Location::new(DIR, "description"));
}

#[test]
fn commit_and_edit_description() {
    let i = issue();
    assert_eq!(i.commit("m"), committing(Vec::new(), "m"));
    assert_eq!(i.commit_tags("m"), committing(tag_files(&["bug", "docs"]), "m"));
    assert_eq!(
        i.edit_description(),
        committing(
            vec![Action::Edit { file: Location::new(DIR, "description"), existed: true }],
            "edit description of issue 0123456789abcdef0123456789abcdef"
        )
    );
}

#[test]
fn new_comment_lies_below_the_issue() {
    let i = issue();
    let now = Timestamp { secs: 5, nanos: 0 };
    let (comment, change) = Comment::new_with(&i, 0xabc, now, &Some(String::from("a comment"))).unwrap();
    let uuid = "00000000000000000000000000000abc";
    let comments = "/db/0123456789abcdef0123456789abcdef/comments";
    let dir = "/db/0123456789abcdef0123456789abcdef/comments/00000000000000000000000000000abc";
    assert_eq!(
        comment,
        Comment {
            uuid: String::from(uuid),
            author: String::new(),
            creation_time: now,
            description: String::from("a comment"),
            dir: Location::new(comments, uuid),
        }
    );
    assert_eq!(
        change,
        Change {
            actions: vec![
                Action::EnsureDir { path: String::from(comments) },
                Action::CreateDir { path: String::from(dir) },
                write(&join(dir, "description"), "a comment"),
            ],
            stage: Location::new(comments, uuid),
            dir: String::from(dir),
            message: String::from(
                "add comment 00000000000000000000000000000abc on issue 0123456789abcdef0123456789abcdef"
            ),
            of_comment: true,
        }
    );
    let (actions, result) =
        run(&change, vec![Outcome::Done, Outcome::Done, Outcome::Done, succeeded(""), succeeded("A"), succeeded("")]);
    assert_eq!(result, Ok(()));
    assert_eq!(actions[3], Action::Run { command: command(&["add", dir], Some(comments)) });
    assert_eq!(i, issue());
}

#[test]
fn failures_of_a_comment_are_errors_of_a_comment() {
    let mut i = issue();
    assert_eq!(
        i.add_comment(&Some(String::from(" "))),
        Err(IssueError::CommentError(CommentError::EmptyDescription))
    );
    assert_eq!(Comment::new(&i, &Some(String::new())), Err(CommentError::EmptyDescription));
    let (comment, change) = i.add_comment(&None).unwrap();
    assert_eq!(comment.uuid.len(), 32);
    assert_eq!(
        change.actions[2],
        Action::Edit { file: comment.description_filename(), existed: false }
    );
    let (_, result) =
        run(&change, vec![Outcome::Done, Outcome::Done, Outcome::Abandoned(EditFault::Empty)]);
    assert_eq!(result, Err(IssueError::CommentError(CommentError::EmptyDescription)));
    let fault = IoFault { kind: IoFaultKind::Other, os_code: None };
    let (_, result) = run(&change, vec![Outcome::Failed(fault)]);
    assert_eq!(result, Err(IssueError::CommentError(CommentError::StdIoError(fault))));
    let (_, result) = run(&change, vec![Outcome::Done, Outcome::Done, Outcome::Done, failed()]);
    assert_eq!(result, Err(IssueError::CommentError(CommentError::GitError(GitError::Oops))));

    for (fault, error) in [
        (EditFault::Editor, CommentError::EditorError),
        (EditFault::EnvVar, CommentError::EnvVarError),
        (EditFault::NotTerminal, CommentError::StdioIsNotTerminal),
        (EditFault::Git(GitError::Oops), CommentError::GitError(GitError::Oops)),
    ] {
        let (_, result) = run(&change, vec![Outcome::Done, Outcome::Done, Outcome::Abandoned(fault)]);
        assert_eq!(result, Err(IssueError::CommentError(error)));
    }

    let mut comment = comment;
    comment.read_description(String::from("written"));
    assert_eq!(comment.description, "written");
    let edit = comment.edit_description();
    assert_eq!(edit.stage, comment.description_filename());
    assert_eq!(edit.dir, comment.dir.path());
    assert_eq!(edit.message, format!("edit comment {}", comment.uuid));
}

#[test]
fn editing_session() {
    let file = Location::new(DIR, "description");
    let path = "/db/0123456789abcdef0123456789abcdef/description";
    let begin = |stdin: bool, stdout: bool, editor: EditorVar| EditEvent::Begin {
        stdin_is_terminal: stdin,
        stdout_is_terminal: stdout,
        editor,
    };
    let abandoned = |fault: EditFault| EditStep::Finished { outcome: Outcome::Abandoned(fault) };

    assert_eq!(
        edit_description_file(&file, true, begin(true, true, EditorVar::Named(String::from("nano")))),
        EditStep::Launch { program: String::from("nano"), file: String::from(path) }
    );
    assert_eq!(
        edit_description_file(&file, true, begin(true, true, EditorVar::NotPresent)),
        EditStep::Launch { program: String::from("vi"), file: String::from(path) }
    );
    assert_eq!(
        edit_description_file(&file, true, begin(true, true, EditorVar::NotUnicode)),
        abandoned(EditFault::EnvVar)
    );
    assert_eq!(
        edit_description_file(&file, true, begin(false, true, EditorVar::NotPresent)),
        abandoned(EditFault::NotTerminal)
    );
    assert_eq!(
        edit_description_file(&file, true, begin(true, false, EditorVar::NotUnicode)),
        abandoned(EditFault::NotTerminal)
    );

    let exited = |success: bool, contents: Option<&str>| EditEvent::Exited {
        success,
        contents: contents.map(String::from),
    };
    assert_eq!(
        edit_description_file(&file, true, exited(true, Some("a new text"))),
        EditStep::Finished { outcome: Outcome::Done }
    );
    assert_eq!(
        edit_description_file(&file, true, exited(false, Some("a new text"))),
        abandoned(EditFault::Editor)
    );
    let restore = EditStep::Restore { command: command(&["restore", path], Some(DIR)) };
    assert_eq!(edit_description_file(&file, true, exited(true, Some(""))), restore);
    assert_eq!(edit_description_file(&file, true, exited(true, Some(" \n"))), restore);
    assert_eq!(edit_description_file(&file, true, exited(true, None)), restore);
    assert_eq!(edit_description_file(&file, false, exited(true, Some(""))), abandoned(EditFault::Empty));
    assert_eq!(edit_description_file(&file, false, exited(true, Some("\t"))), abandoned(EditFault::Empty));
    assert_eq!(edit_description_file(&file, false, exited(true, None)), abandoned(EditFault::Empty));

    assert_eq!(
        edit_description_file(&file, true, EditEvent::Restored { outcome: succeeded("") }),
        abandoned(EditFault::Empty)
    );
    assert_eq!(
        edit_description_file(&file, true, EditEvent::Restored { outcome: failed() }),
        abandoned(EditFault::Git(GitError::Oops))
    );
}

#[test]
fn opening_a_store() {
    assert_eq!(
        make_issues_database(&IssuesDatabaseSource::Dir("/db"), IssuesDatabaseAccess::ReadWrite, "/tmp/wt"),
        Opening::Ready { database: IssuesDatabase { dir: String::from("/db"), worktree: None } }
    );
    let database = IssuesDatabase {
        dir: String::from("/tmp/wt"),
        worktree: Some(Worktree { path: String::from("/tmp/wt") }),
    };
    assert_eq!(
        make_issues_database(
            &IssuesDatabaseSource::Branch("entomologist-data"),
            IssuesDatabaseAccess::ReadOnly,
            "/tmp/wt"
        ),
        Opening::Checkout {
            command: command(&["worktree", "add", "--detach", "/tmp/wt", "entomologist-data"], None),
            database,
        }
    );
    match make_issues_database(
        &IssuesDatabaseSource::Branch("entomologist-data"),
        IssuesDatabaseAccess::ReadWrite,
        "/tmp/wt",
    ) {
        Opening::Checkout { command: made, database } => {
            assert_eq!(made, command(&["worktree", "add", "/tmp/wt", "entomologist-data"], None));
            let entries = vec![Node::File {
                name: String::from("README.md"),
                contents: String::from("This branch is used by entomologist to track issues."),
            }];
            let issues = read_issues_database(&database, &entries).unwrap();
            assert!(issues.issues.is_empty());
            let fault = IoFault { kind: IoFaultKind::Other, os_code: Some(5) };
            let unreadable = vec![Node::Unreadable { name: String::from("x"), fault }];
            assert_eq!(
                read_issues_database(&database, &unreadable),
                Err(Error::IssuesError(ReadIssuesError::StdIoError(fault)))
            );
        }
        other => panic!("{:?}", other),
    }
}

#[test]
fn only_a_branch_is_synchronised() {
    assert_eq!(sync_branch(&IssuesDatabaseSource::Branch("entomologist-data")), Some("entomologist-data"));
    assert_eq!(sync_branch(&IssuesDatabaseSource::Dir("/db")), None);
}

#[test]
fn joining_paths() {
    assert_eq!(join("/db", "x"), "/db/x");
    assert_eq!(join("/db/", "x"), "/db/x");
    assert_eq!(join("", "x"), "x");
    assert_eq!(join("/", "x"), "/x");
    assert_eq!(Location::new("/db", "x").child("y"), Location::new("/db/x", "y"));
    assert_eq!(Location::new("/db", "x").path(), "/db/x");
}
