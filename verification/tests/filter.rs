use entomologist::comment::Comment;
use entomologist::fs::Location;
use entomologist::issue::Issue;
use entomologist::issue::IssueError;
use entomologist::issue::State;
use entomologist::timestamp::Timestamp;
use entomologist::Filter;
use entomologist::ParseFilterError;

fn issue(state: State, assignee: Option<&str>, tags: &[&str], done: Option<&str>) -> Issue {
    Issue {
        id: String::from("0123456789abcdef0123456789abcdef"),
        author: String::from("a"),
        creation_time: Timestamp { secs: 0, nanos: 0 },
        done_time: done.map(|t| Timestamp::parse_rfc3339(t).unwrap()),
        tags: tags.iter().map(|t| String::from(*t)).collect(),
        state,
        dependencies: None,
        assignee: assignee.map(String::from),
        description: String::from("d"),
        comments: Vec::<Comment>::new(),
        dir: Location::new("db", "0123456789abcdef0123456789abcdef"),
    }
}

fn filter(clauses: &[&str]) -> Filter {
    let mut f = Filter::new();
    for clause in clauses {
        f.parse(clause).unwrap();
    }
    f
}

fn sorted(mut v: Vec<String>) -> Vec<String> {
    v.sort();
    v.dedup();
    v
}

#[test]
fn default_filter_shows_open_issues() {
    let f = Filter::new();
    for state in [State::New, State::Backlog, State::Blocked, State::InProgress] {
        assert!(f.matches(&issue(state, None, &[], None)));
        assert!(f.matches(&issue(state, Some("seb"), &["bug"], None)));
    }
    assert!(!f.matches(&issue(State::Done, None, &[], None)));
    assert!(!f.matches(&issue(State::WontDo, None, &[], None)));
}

#[test]
fn tag_clause_bug_and_not_docs() {
    let f = filter(&["tag=bug,-docs"]);
    assert!(f.matches(&issue(State::New, None, &["bug"], None)));
    assert!(f.matches(&issue(State::New, None, &["bug", "other"], None)));
    assert!(!f.matches(&issue(State::New, None, &["bug", "docs"], None)));
    assert!(!f.matches(&issue(State::New, None, &["docs"], None)));
    assert!(!f.matches(&issue(State::New, None, &[], None)));
    assert!(!f.matches(&issue(State::New, None, &["other"], None)));
}

#[test]
fn state_clause_replaces_the_states() {
    let f = filter(&["state=done,WontDo"]);
    assert_eq!(f.include_states.len(), 2);
    assert!(f.matches(&issue(State::Done, None, &[], None)));
    assert!(f.matches(&issue(State::WontDo, None, &[], None)));
    assert!(!f.matches(&issue(State::New, None, &[], None)));
}

#[test]
fn assignee_clause_and_the_empty_name() {
    let f = filter(&["assignee=seb,"]);
    assert!(f.matches(&issue(State::New, Some("seb"), &[], None)));
    assert!(f.matches(&issue(State::New, None, &[], None)));
    assert!(!f.matches(&issue(State::New, Some("sigil"), &[], None)));
    let g = filter(&["assignee=seb"]);
    assert!(!g.matches(&issue(State::New, None, &[], None)));
}

#[test]
fn done_time_clause() {
    let f = filter(&["state=done", "done-time=2025-01-01T00:00:00Z..2025-12-31T23:59:59Z"]);
    assert!(f.matches(&issue(State::Done, None, &[], Some("2025-07-15T15:15:15-06:00"))));
    assert!(f.matches(&issue(State::Done, None, &[], Some("2025-01-01T00:00:00Z"))));
    assert!(f.matches(&issue(State::Done, None, &[], Some("2025-12-31T23:59:59Z"))));
    assert!(!f.matches(&issue(State::Done, None, &[], Some("2024-12-31T23:59:59Z"))));
    assert!(!f.matches(&issue(State::Done, None, &[], Some("2026-01-01T00:00:00Z"))));
    assert!(f.matches(&issue(State::Done, None, &[], None)));

    let open_start = filter(&["state=done", "done-time=..2025-01-01T00:00:00Z"]);
    assert_eq!(open_start.start_done_time, None);
    assert!(open_start.matches(&issue(State::Done, None, &[], Some("1999-01-01T00:00:00Z"))));
    assert!(!open_start.matches(&issue(State::Done, None, &[], Some("2025-01-01T00:00:01Z"))));

    let open_end = filter(&["state=done", "done-time=2025-01-01T00:00:00Z.."]);
    assert_eq!(open_end.end_done_time, None);
    assert!(open_end.matches(&issue(State::Done, None, &[], Some("2999-01-01T00:00:00Z"))));

    let open = filter(&["done-time=.."]);
    assert_eq!((open.start_done_time, open.end_done_time), (None, None));
}

#[test]
fn a_later_clause_replaces_an_earlier_one_of_its_name() {
    let f = filter(&["tag=a,-b", "tag=c"]);
    assert_eq!(f.include_tags, vec![String::from("c")]);
    assert!(f.exclude_tags.is_empty());
    let g = filter(&["done-time=2025-01-01T00:00:00Z..", "done-time=.."]);
    assert_eq!(g.start_done_time, None);
    let h = filter(&["assignee=a", "assignee=b"]);
    assert_eq!(h.include_assignees, vec![String::from("b")]);
    let k = filter(&["tag=a", "assignee=b", "state=new"]);
    assert_eq!(k.include_tags, vec![String::from("a")]);
    assert_eq!(k.include_assignees, vec![String::from("b")]);
    assert_eq!(k.include_states, vec![State::New]);
}

#[test]
fn tag_clause_sorts_values_into_two_lists() {
    let f = filter(&["tag=a,-b,c,-d,--e"]);
    assert_eq!(sorted(f.include_tags.clone()), vec![String::from("a"), String::from("c")]);
    assert_eq!(
        sorted(f.exclude_tags.clone()),
        vec![String::from("-e"), String::from("b"), String::from("d")]
    );
}

#[test]
fn clause_faults_leave_the_filter_alone() {
    let mut f = filter(&["tag=a,-b", "assignee=seb", "state=done", "done-time=2025-01-01T00:00:00Z.."]);
    let before = format!("{:?}", f);
    for (clause, fault) in [
        ("", ParseFilterError::ParseError),
        ("tag", ParseFilterError::ParseError),
        ("tag=a=b", ParseFilterError::ParseError),
        ("colour=red", ParseFilterError::ParseError),
        ("tag=a,,b", ParseFilterError::ParseError),
        ("tag=", ParseFilterError::ParseError),
        ("done-time=2025-01-01T00:00:00Z", ParseFilterError::ParseError),
        ("done-time=a..b..c", ParseFilterError::ParseError),
        ("done-time=soon..", ParseFilterError::ChronoParseError),
        ("done-time=..later", ParseFilterError::ChronoParseError),
        ("done-time=2026-01-01T00:00:00Z..later", ParseFilterError::ChronoParseError),
        ("state=new,finished", ParseFilterError::IssueParseError(IssueError::StateParseError)),
        ("state=", ParseFilterError::IssueParseError(IssueError::StateParseError)),
    ] {
        assert_eq!(f.parse(clause), Err(fault), "{:?}", clause);
        assert_eq!(format!("{:?}", f), before, "{:?}", clause);
    }
}

#[test]
fn has_tag_and_has_any_tag() {
    let i = issue(State::New, None, &["bug", "docs"], None);
    assert!(i.has_tag("bug") && i.has_tag("docs"));
    assert!(!i.has_tag("Bug") && !i.has_tag(""));
    assert!(i.has_any_tag(&vec![String::from("x"), String::from("docs")]));
    assert!(!i.has_any_tag(&vec![String::from("x")]));
    assert!(!i.has_any_tag(&Vec::new()));
}

#[test]
fn listing_shows_one_state_oldest_first() {
    let made = |id: &str, state: State, secs: i64, tags: &[&str]| {
        let mut i = issue(state, None, tags, None);
        i.id = String::from(id);
        i.creation_time = Timestamp { secs, nanos: 0 };
        i
    };
    let issues = vec![
        made("a", State::New, 30, &[]),
        made("b", State::Done, 5, &[]),
        made("c", State::New, 10, &[]),
        made("d", State::New, 20, &["hidden"]),
        made("e", State::New, 10, &[]),
        made("f", State::Backlog, 1, &[]),
    ];
    let f = filter(&["tag=-hidden"]);
    let ids = |state: State| -> Vec<String> {
        f.list(&issues, state).iter().map(|i| i.id.clone()).collect()
    };
    assert_eq!(ids(State::New), vec!["c", "e", "a"]);
    assert_eq!(ids(State::Backlog), vec!["f"]);
    assert_eq!(ids(State::Done), Vec::<String>::new());
    assert_eq!(ids(State::Blocked), Vec::<String>::new());
    let everything = filter(&["state=new,done"]);
    let shown: Vec<&str> = everything.list(&issues, State::Done).iter().map(|i| i.id.as_str()).collect();
    assert_eq!(shown, vec!["b"]);
}
