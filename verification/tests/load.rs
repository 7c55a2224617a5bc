use entomologist::comment::needs_history;
use entomologist::comment::Comment;
use entomologist::comment::CommentError;
use entomologist::fs::IoFault;
use entomologist::fs::IoFaultKind;
use entomologist::fs::Location;
use entomologist::fs::Node;
use entomologist::git::GitError;
use entomologist::git::GitOutput;
use entomologist::issue::Issue;
use entomologist::issue::IssueError;
use entomologist::issue::State;
use entomologist::issues::Issues;
use entomologist::issues::ReadIssuesError;
use entomologist::timestamp::Timestamp;

const SEB: &str = "Sebastian Kuzminsky <seb@highlab.com>";
const SIGIL: &str = "sigil-03 <sigil@glyphs.tech>";

fn time(text: &str) -> Timestamp {
    Timestamp::parse_rfc3339(text).unwrap()
}

fn file(name: &str, contents: &str) -> Node {
    Node::File { name: String::from(name), contents: String::from(contents) }
}

fn dir(name: &str, entries: Vec<Node>) -> Node {
    Node::Dir { name: String::from(name), entries, history: None }
}

fn marker(name: &str) -> Node {
    file(name, "")
}

/// The answer of the engine to the question for the commits of a
/// directory: a younger commit by somebody else, then the oldest.
fn history(author: &str, created: &str) -> Option<Result<GitOutput, IoFault>> {
    let oldest = time(created).secs;
    Some(Ok(GitOutput {
        success: true,
        stdout: format!("{} Somebody Else <else@example.com>\n{} {}", oldest + 3600, oldest, author),
        stderr: String::new(),
    }))
}

fn record(name: &str, entries: Vec<Node>, author: &str, created: &str) -> Node {
    Node::Dir { name: String::from(name), entries, history: history(author, created) }
}

fn entries_of(node: &Node) -> &Vec<Node> {
    match node {
        Node::Dir { entries, .. } => entries,
        _ => panic!("no directory"),
    }
}

fn history_of(node: &Node) -> &Option<Result<GitOutput, IoFault>> {
    match node {
        Node::Dir { history, .. } => history,
        _ => panic!("no directory"),
    }
}

const DESCRIPTION_3943: &str = "this is the title of my issue\n\nThis is the description of my issue.\nIt is multiple lines.\n* Arbitrary contents\n* But let's use markdown by convention\n";
const DESCRIPTION_DD79: &str = "issues out the wazoo\n\nLots of words\nthat don't say much\nbecause this is just\na test\n";

fn record_3943() -> Node {
    record(
        "3943fc5c173fdf41c0a22251593cd476",
        vec![
            dir(
                "tags",
                vec![
                    marker("tag1"),
                    marker("hop,0scotch,1shoe"),
                    marker("TAG2"),
                    marker("deer,0antler,0tassle"),
                    marker("bird,1wing,1feather"),
                    marker("i-am-also-a-tag"),
                    marker("bird,1wing"),
                    marker("deer,0antler"),
                ],
            ),
            file("description", DESCRIPTION_3943),
        ],
        SEB,
        "2025-07-24T08:36:25-06:00",
    )
}

fn issue_3943(parent: &str) -> Issue {
    Issue {
        id: String::from("3943fc5c173fdf41c0a22251593cd476"),
        author: String::from(SEB),
        creation_time: time("2025-07-24T08:36:25-06:00"),
        done_time: None,
        tags: Vec::<String>::from([
            String::from("TAG2"),
            String::from("bird/wing"),
            String::from("bird/wing/feather"),
            String::from("deer,antler"),
            String::from("deer,antler,tassle"),
            String::from("hop,scotch/shoe"),
            String::from("i-am-also-a-tag"),
            String::from("tag1"),
        ]),
        state: State::New,
        dependencies: None,
        assignee: None,
        description: String::from(DESCRIPTION_3943),
        comments: Vec::<Comment>::new(),
        dir: Location::new(parent, "3943fc5c173fdf41c0a22251593cd476"),
    }
}

fn record_7792() -> Node {
    record(
        "7792b063eef6d33e7da5dc1856750c14",
        vec![
            file("assignee", "beep boop\n"),
            file("description", "minimal"),
            file("state", "inprogress\n"),
        ],
        SEB,
        "2025-07-24T08:37:07-06:00",
    )
}

fn issue_7792(parent: &str) -> Issue {
    Issue {
        id: String::from("7792b063eef6d33e7da5dc1856750c14"),
        author: String::from(SEB),
        creation_time: time("2025-07-24T08:37:07-06:00"),
        done_time: None,
        tags: Vec::<String>::new(),
        state: State::InProgress,
        dependencies: None,
        assignee: Some(String::from("beep boop")),
        description: String::from("minimal"),
        comments: Vec::<Comment>::new(),
        dir: Location::new(parent, "7792b063eef6d33e7da5dc1856750c14"),
    }
}

fn plain_issue(parent: &str, id: &str, author: &str, created: &str, state: State, description: &str) -> Issue {
    Issue {
        id: String::from(id),
        author: String::from(author),
        creation_time: time(created),
        done_time: None,
        tags: Vec::<String>::new(),
        state,
        dependencies: None,
        assignee: None,
        description: String::from(description),
        comments: Vec::<Comment>::new(),
        dir: Location::new(parent, id),
    }
}

#[test]
fn read_issue_0() {
    let node = record_3943();
    let place = Location::new("test/0000", "3943fc5c173fdf41c0a22251593cd476");
    let issue = Issue::new_from_dir(&place, entries_of(&node), history_of(&node)).unwrap();
    assert_eq!(issue, issue_3943("test/0000"));
}

#[test]
fn read_issue_1() {
    let node = record_7792();
    let place = Location::new("test/0000", "7792b063eef6d33e7da5dc1856750c14");
    let issue = Issue::new_from_dir(&place, entries_of(&node), history_of(&node)).unwrap();
    assert_eq!(issue, issue_7792("test/0000"));
}

#[test]
fn read_comment_0() {
    let place = Location::new(
        "test/0001/dd79c8cfb8beeacd0460429944b4ecbe/comments",
        "9055dac36045fe36545bed7ae7b49347",
    );
    let entries = vec![file(
        "description",
        "This is a comment on issue dd79c8cfb8beeacd0460429944b4ecbe\n\nIt has multiple lines\n",
    )];
    let comment =
        Comment::new_from_dir(&place, &entries, &history(SEB, "2025-07-24T10:08:38-06:00")).unwrap();
    let expected = Comment {
        uuid: String::from("9055dac36045fe36545bed7ae7b49347"),
        author: String::from(SEB),
        creation_time: time("2025-07-24T10:08:38-06:00"),
        description: String::from(
            "This is a comment on issue dd79c8cfb8beeacd0460429944b4ecbe\n\nIt has multiple lines\n",
        ),
        dir: Location::new(
            "test/0001/dd79c8cfb8beeacd0460429944b4ecbe/comments",
            "9055dac36045fe36545bed7ae7b49347",
        ),
    };
    assert_eq!(comment, expected);
}

#[test]
fn read_issues_0000() {
    let entries = vec![record_3943(), record_7792()];
    let issues = Issues::new_from_dir("test/0000", &entries).unwrap();

    let mut expected = Issues::new();
    expected.add_issue(issue_7792("test/0000"));
    expected.add_issue(issue_3943("test/0000"));
    assert_eq!(issues, expected);
}

#[test]
fn read_issues_0001() {
    let entries = vec![
        record(
            "dd79c8cfb8beeacd0460429944b4ecbe",
            vec![
                file("state", "wontdo\n"),
                file("description", DESCRIPTION_DD79),
                dir(
                    "comments",
                    vec![record(
                        "9055dac36045fe36545bed7ae7b49347",
                        vec![file(
                            "description",
                            "This is a comment on issue dd79c8cfb8beeacd0460429944b4ecbe\n\nIt has multiple lines\n",
                        )],
                        SEB,
                        "2025-07-24T10:08:38-06:00",
                    )],
                ),
            ],
            SEB,
            "2025-07-24T10:08:24-06:00",
        ),
        record(
            "3fa5bfd93317ad25772680071d5ac325",
            vec![
                file("done_time", "2025-07-15T15:15:15-06:00\n"),
                file("description", "oh yeah we got titles"),
                file("state", "done\n"),
            ],
            SEB,
            "2025-07-24T08:37:46-06:00",
        ),
    ];
    let issues = Issues::new_from_dir("test/0001", &entries).unwrap();

    let mut expected = Issues::new();
    let mut done = plain_issue(
        "test/0001",
        "3fa5bfd93317ad25772680071d5ac325",
        SEB,
        "2025-07-24T08:37:46-06:00",
        State::Done,
        "oh yeah we got titles",
    );
    done.done_time = Some(time("2025-07-15T15:15:15-06:00"));
    expected.add_issue(done);

    let mut commented = plain_issue(
        "test/0001",
        "dd79c8cfb8beeacd0460429944b4ecbe",
        SEB,
        "2025-07-24T10:08:24-06:00",
        State::WontDo,
        DESCRIPTION_DD79,
    );
    commented.comments.push(Comment {
        uuid: String::from("9055dac36045fe36545bed7ae7b49347"),
        author: String::from(SEB),
        creation_time: time("2025-07-24T10:08:38-06:00"),
        description: String::from(
            "This is a comment on issue dd79c8cfb8beeacd0460429944b4ecbe\n\nIt has multiple lines\n",
        ),
        dir: Location::new(
            "test/0001/dd79c8cfb8beeacd0460429944b4ecbe/comments",
            "9055dac36045fe36545bed7ae7b49347",
        ),
    });
    expected.add_issue(commented);
    assert_eq!(issues, expected);
}

#[test]
fn read_issues_0002() {
    let entries = vec![
        record(
            "a85f81fc5f14cb5d4851dd445dc9744c",
            vec![
                file(
                    "description",
                    "issue with dependencies\n\na test has begun\nfor dependencies we seek\nintertwining life",
                ),
                file("state", "wontdo\n"),
                dir(
                    "dependencies",
                    vec![
                        marker("dd79c8cfb8beeacd0460429944b4ecbe"),
                        marker("3fa5bfd93317ad25772680071d5ac325"),
                    ],
                ),
            ],
            SIGIL,
            "2025-07-24T08:39:02-06:00",
        ),
        record(
            "3fa5bfd93317ad25772680071d5ac325",
            vec![file("description", "oh yeah we got titles\n"), file("state", "done\n")],
            SIGIL,
            "2025-07-24T08:38:40-06:00",
        ),
        record(
            "dd79c8cfb8beeacd0460429944b4ecbe",
            vec![file("description", DESCRIPTION_DD79), file("state", "wontdo\n")],
            SIGIL,
            "2025-07-24T08:39:20-06:00",
        ),
    ];
    let issues = Issues::new_from_dir("test/0002", &entries).unwrap();

    let mut expected = Issues::new();
    expected.add_issue(plain_issue(
        "test/0002",
        "3fa5bfd93317ad25772680071d5ac325",
        SIGIL,
        "2025-07-24T08:38:40-06:00",
        State::Done,
        "oh yeah we got titles\n",
    ));
    expected.add_issue(plain_issue(
        "test/0002",
        "dd79c8cfb8beeacd0460429944b4ecbe",
        SIGIL,
        "2025-07-24T08:39:20-06:00",
        State::WontDo,
        DESCRIPTION_DD79,
    ));
    let mut dependent = plain_issue(
        "test/0002",
        "a85f81fc5f14cb5d4851dd445dc9744c",
        SIGIL,
        "2025-07-24T08:39:02-06:00",
        State::WontDo,
        "issue with dependencies\n\na test has begun\nfor dependencies we seek\nintertwining life",
    );
    dependent.dependencies = Some(vec![
        String::from("3fa5bfd93317ad25772680071d5ac325"),
        String::from("dd79c8cfb8beeacd0460429944b4ecbe"),
    ]);
    expected.add_issue(dependent);
    assert_eq!(issues, expected);
}

#[test]
fn issue_with_title_and_body_and_nothing_else() {
    let place = Location::new("db", "0123456789abcdef0123456789abcdef");
    let entries = vec![file("description", "title\n\nbody")];
    let issue =
        Issue::new_from_dir(&place, &entries, &history(SEB, "2025-07-24T08:36:25-06:00")).unwrap();
    assert_eq!(issue.state, State::New);
    assert_eq!(issue.title(), "title");
    assert_eq!(issue.assignee, None);
    assert_eq!(issue.id, "0123456789abcdef0123456789abcdef");
}

#[test]
fn title_is_the_first_line() {
    let mut issue = plain_issue("db", "a", SEB, "2025-07-24T08:36:25-06:00", State::New, "one line");
    assert_eq!(issue.title(), "one line");
    issue.description = String::from("first\nsecond\nthird");
    assert_eq!(issue.title(), "first");
    issue.description = String::from("\nsecond");
    assert_eq!(issue.title(), "");
    issue.description = String::from("");
    assert_eq!(issue.title(), "");
    issue.description = String::from("päivää\nx");
    assert_eq!(issue.title(), "päivää");
}

#[test]
fn files_override_the_history() {
    let place = Location::new("db", "a");
    let entries = vec![
        file("author", "An Author <a@example.com>"),
        file("creation_time", " 2020-01-02T03:04:05+00:00\n"),
        file("description", "d"),
        file("unknown", "passed over"),
    ];
    assert!(!needs_history(&entries));
    let issue = Issue::new_from_dir(&place, &entries, &None).unwrap();
    assert_eq!(issue.author, "An Author <a@example.com>");
    assert_eq!(issue.creation_time, time("2020-01-02T03:04:05Z"));
}

#[test]
fn history_fills_in_what_the_files_leave_out() {
    let place = Location::new("db", "a");
    let entries = vec![file("author", "An Author <a@example.com>"), file("description", "d")];
    assert!(needs_history(&entries));
    let issue =
        Issue::new_from_dir(&place, &entries, &history(SEB, "2025-07-24T08:36:25-06:00")).unwrap();
    assert_eq!(issue.author, "An Author <a@example.com>");
    assert_eq!(issue.creation_time, time("2025-07-24T08:36:25-06:00"));
}

#[test]
fn loading_faults() {
    let place = Location::new("db", "a");
    let h = history(SEB, "2025-07-24T08:36:25-06:00");
    let load = |entries: Vec<Node>| Issue::new_from_dir(&place, &entries, &h);

    assert_eq!(load(vec![file("state", "new")]), Err(IssueError::IssueParseError));
    assert_eq!(
        load(vec![file("description", "d"), file("state", "finished")]),
        Err(IssueError::StateParseError)
    );
    assert_eq!(
        load(vec![file("description", "d"), file("done_time", "soon")]),
        Err(IssueError::ChronoParseError)
    );
    assert_eq!(
        load(vec![file("description", "d"), file("creation_time", "")]),
        Err(IssueError::ChronoParseError)
    );
    assert_eq!(
        load(vec![file("description", "d"), file("tags", "bug\ndocs\n")]),
        Err(IssueError::IssueParseError)
    );
    assert_eq!(
        load(vec![file("description", "d"), dir("tags", vec![marker("a,")])]),
        Err(IssueError::TagTrailingEscape { filename: String::from("a,") })
    );
    assert_eq!(
        load(vec![file("description", "d"), dir("tags", vec![marker("a,9")])]),
        Err(IssueError::TagInvalidEscape { escape: String::from("9"), filename: String::from("a,9") })
    );
    let fault = IoFault { kind: IoFaultKind::Other, os_code: Some(13) };
    assert_eq!(
        load(vec![Node::Unreadable { name: String::from("description"), fault }]),
        Err(IssueError::StdIoError(fault))
    );
    assert_eq!(
        load(vec![file("description", "d"), dir("comments", vec![dir("c", vec![])])]),
        Err(IssueError::CommentError(CommentError::CommentParseError))
    );
    assert_eq!(
        load(vec![file("description", "d"), dir("comments", vec![file("c", "")])]),
        Err(IssueError::CommentError(CommentError::StdIoError(IoFault {
            kind: IoFaultKind::NotADirectory,
            os_code: None
        })))
    );
    assert_eq!(
        Issue::new_from_dir(&place, &vec![file("description", "d")], &None),
        Err(IssueError::GitError(GitError::Oops))
    );
    let untracked = Some(Ok(GitOutput { success: true, stdout: String::new(), stderr: String::new() }));
    assert_eq!(
        Issue::new_from_dir(&place, &vec![file("description", "d")], &untracked),
        Err(IssueError::GitError(GitError::Oops))
    );
    let garbled = Some(Ok(GitOutput {
        success: true,
        stdout: String::from("soon Somebody"),
        stderr: String::new(),
    }));
    assert_eq!(
        Issue::new_from_dir(&place, &vec![file("description", "d")], &garbled),
        Err(IssueError::GitError(GitError::ParseIntError))
    );
    let unstarted = Some(Err(fault));
    assert_eq!(
        Issue::new_from_dir(&place, &vec![file("description", "d")], &unstarted),
        Err(IssueError::GitError(GitError::StdIoError(fault)))
    );
}

#[test]
fn dependencies_and_comments_that_are_files_are_passed_over() {
    let place = Location::new("db", "a");
    let entries = vec![
        file("description", "d"),
        file("dependencies", "x\ny\n"),
        file("comments", ""),
        dir("dependencies", vec![]),
    ];
    let issue =
        Issue::new_from_dir(&place, &entries, &history(SEB, "2025-07-24T08:36:25-06:00")).unwrap();
    assert_eq!(issue.dependencies, None);
    assert!(issue.comments.is_empty());
}

#[test]
fn comments_come_oldest_first() {
    let place = Location::new("db", "a");
    let comment = |name: &str, created: &str| {
        record(name, vec![file("description", name)], SEB, created)
    };
    let entries = vec![
        file("description", "d"),
        dir(
            "comments",
            vec![
                comment("c3", "2025-07-24T10:00:03Z"),
                comment("c1", "2025-07-24T10:00:01Z"),
                comment("c2b", "2025-07-24T10:00:02Z"),
                comment("c2a", "2025-07-24T10:00:02Z"),
            ],
        ),
    ];
    let issue =
        Issue::new_from_dir(&place, &entries, &history(SEB, "2025-07-24T08:36:25-06:00")).unwrap();
    let uuids: Vec<&str> = issue.comments.iter().map(|c| c.uuid.as_str()).collect();
    assert_eq!(uuids, vec!["c1", "c2b", "c2a", "c3"]);
    assert_eq!(issue.comments[0].dir, Location::new("db/a/comments", "c1"));
}

#[test]
fn a_record_without_description_is_skipped() {
    let good = record_7792();
    let corrupt = dir("0000000000000000000000000000dead", vec![file("state", "new")]);
    let entries = vec![corrupt, good, file("README.md", "not an issue")];
    let issues = Issues::new_from_dir("test/0000", &entries).unwrap();
    assert_eq!(issues.issues.len(), 1);
    assert!(issues.get_issue("0000000000000000000000000000dead").is_none());
    assert_eq!(
        issues.get_issue("7792b063eef6d33e7da5dc1856750c14"),
        Some(&issue_7792("test/0000"))
    );
    let without = Issues::new_from_dir("test/0000", &vec![record_7792()]).unwrap();
    assert_eq!(issues, without);
}

#[test]
fn store_reading_faults() {
    let fault = IoFault { kind: IoFaultKind::NotFound, os_code: Some(2) };
    assert_eq!(
        Issues::new_from_dir("db", &vec![Node::Unreadable { name: String::from("x"), fault }]),
        Err(ReadIssuesError::StdIoError(fault))
    );
    let misnamed = IoFault { kind: IoFaultKind::InvalidName, os_code: None };
    assert_eq!(
        Issues::new_from_dir(
            "db",
            &vec![record_7792(), Node::Unreadable { name: String::from("ab\u{fffd}"), fault: misnamed }]
        ),
        Err(ReadIssuesError::FilenameError(String::from("ab\u{fffd}")))
    );
    assert_eq!(
        Issues::new_from_dir("db", &vec![file("config.toml", "this is = = no toml")]),
        Err(ReadIssuesError::TomlDeserializeError)
    );
    assert!(Issues::new_from_dir("db", &vec![file("config.toml", "")]).is_ok());
    assert!(Issues::new_from_dir("db", &vec![file("config.toml", "[section]\nkey = 1\n")]).is_ok());
    assert!(Issues::new_from_dir("db", &vec![file("other.toml", "= =")]).is_ok());
}

#[test]
fn store_keeps_one_issue_for_each_identifier() {
    let mut issues = Issues::new();
    assert!(issues.get_issue("b").is_none());
    issues.add_issue(plain_issue("db", "b", SEB, "2025-07-24T08:36:25-06:00", State::New, "first"));
    issues.add_issue(plain_issue("db", "a", SEB, "2025-07-24T08:36:25-06:00", State::New, "a"));
    issues.add_issue(plain_issue("db", "c", SEB, "2025-07-24T08:36:25-06:00", State::New, "c"));
    issues.add_issue(plain_issue("db", "b", SEB, "2025-07-24T08:36:25-06:00", State::Done, "second"));
    let ids: Vec<&str> = issues.issues.iter().map(|i| i.id.as_str()).collect();
    assert_eq!(ids, vec!["a", "b", "c"]);
    assert_eq!(issues.get_issue("b").unwrap().description, "second");
    assert!(issues.contains("a") && !issues.contains("d"));
    issues.get_mut_issue("c").unwrap().state = State::Blocked;
    assert_eq!(issues.get_issue("c").unwrap().state, State::Blocked);
    assert!(issues.get_mut_issue("zz").is_none());
}

#[test]
fn a_store_written_by_hand_may_be_out_of_order() {
    let mut issues = Issues::new();
    assert!(issues.well_formed());
    issues.add_issue(plain_issue("db", "b", SEB, "2025-07-24T08:36:25-06:00", State::New, "b"));
    issues.add_issue(plain_issue("db", "a", SEB, "2025-07-24T08:36:25-06:00", State::New, "a"));
    assert!(issues.well_formed());
    issues.issues.push(plain_issue("db", "a", SEB, "2025-07-24T08:36:25-06:00", State::New, "a"));
    assert!(!issues.well_formed());
    issues.issues.pop();
    issues.issues.push(plain_issue("db", "b", SEB, "2025-07-24T08:36:25-06:00", State::New, "b"));
    assert!(!issues.well_formed());
    assert_eq!(Issues::default(), Issues::new());
}

#[test]
fn a_directory_without_a_name_holds_no_issue() {
    let place = Location::new("db", "");
    assert_eq!(
        Issue::new_from_dir(
            &place,
            &vec![file("description", "d")],
            &history(SEB, "2025-07-24T08:36:25-06:00")
        ),
        Err(IssueError::IdError)
    );
    assert_eq!(
        Issue::new_from_dir(&place, &vec![], &history(SEB, "2025-07-24T08:36:25-06:00")),
        Err(IssueError::IssueParseError)
    );
}

#[test]
fn comment_loading_faults() {
    let place = Location::new("db/a/comments", "c");
    let h = history(SEB, "2025-07-24T08:36:25-06:00");
    let load = |entries: Vec<Node>| Comment::new_from_dir(&place, &entries, &h);
    assert_eq!(load(vec![file("author", "a")]), Err(CommentError::CommentParseError));
    assert_eq!(
        load(vec![file("description", "d"), file("creation_time", "then")]),
        Err(CommentError::ChronoParseError)
    );
    assert_eq!(
        load(vec![file("description", "d"), dir("author", vec![])]),
        Err(CommentError::StdIoError(IoFault { kind: IoFaultKind::IsADirectory, os_code: None }))
    );
    assert_eq!(
        Comment::new_from_dir(&place, &vec![file("description", "d")], &None),
        Err(CommentError::GitError(GitError::Oops))
    );
    let both = vec![
        file("creation_time", "2020-01-02T03:04:05Z"),
        file("description", "d"),
        file("author", "me"),
    ];
    let comment = Comment::new_from_dir(&place, &both, &None).unwrap();
    assert_eq!(comment.author, "me");
    assert_eq!(comment.uuid, "c");
}
