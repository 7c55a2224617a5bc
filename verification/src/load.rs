//! Reading an issue from what its directory held.
//!
//! An issue's directory holds one file for each plain field, and the
//! directories `tags`, `dependencies` and `comments`. Entries are read in
//! the order in which the caller lists them; the first fault ends the
//! reading, and an entry of an unknown name is passed over.

use vstd::prelude::*;
use crate::comment::comment_of;
use crate::comment::comment_order;
use crate::comment::comment_views;
use crate::comment::insert_comment;
use crate::comment::Comment;
use crate::comment::CommentError;
use crate::comment::CommentFault;
use crate::comment::CommentView;
use crate::fs::IoFault;
use crate::fs::IoFaultKind;
use crate::fs::Location;
use crate::fs::LocationView;
use crate::fs::Node;
use crate::git::provenance;
use crate::git::read_provenance;
use crate::git::GitOutput;
use crate::issue::opt_texts;
use crate::issue::Issue;
use crate::issue::IssueError;
use crate::issue::IssueFault;
use crate::issue::IssueView;
use crate::issue::State;
use crate::comment::lemma_comment_order;
use crate::order::inserted;
use crate::order::is_sorted;
use crate::order::lemma_inserted_is_sorted;
use crate::order::lemma_sorted_is_sorted;
use crate::order::lemma_text_order;
use crate::order::sort_texts;
use crate::order::sorted;
use crate::order::text_order;
use crate::tag::escaped;
use crate::tag::lemma_tag_round_trip;
use crate::tag::tag_error;
use crate::tag::unescaped;
use crate::text::lemma_texts_push;
use crate::text::opt_text;
use crate::text::same_text;
use crate::text::texts;
use crate::text::trim;
use crate::text::trimmed;
use crate::timestamp::Timestamp;

verus! {

/// The names of a list of entries.
pub open spec fn names(nodes: Seq<Node>) -> Seq<Seq<char>> {
    nodes.map_values(|n: Node| n.spec_name())
}

/// The time that a file holds: its text, trimmed and read as RFC 3339.
pub open spec fn time_in(n: Node) -> Result<Timestamp, IssueFault> {
    match n.spec_text() {
        Ok(t) => match Timestamp::spec_parse(trimmed(t)) {
            Some(time) => Ok(time),
            None => Err(IssueFault::ChronoParseError),
        },
        Err(f) => Err(IssueFault::StdIoError(f)),
    }
}

/// The dependencies that a directory of markers holds: the names of its
/// entries in order, or none at all if it is empty.
pub open spec fn dependencies_in(nodes: Seq<Node>) -> Option<Seq<Seq<char>>> {
    if nodes.len() == 0 {
        None
    } else {
        Some(sorted(names(nodes), text_order()))
    }
}

/// The tags that a list of file names stands for, behind those in `acc`.
pub open spec fn tags_named(acc: Seq<Seq<char>>, names: Seq<Seq<char>>) -> Result<
    Seq<Seq<char>>,
    IssueFault,
>
    decreases names.len(),
{
    if names.len() == 0 {
        Ok(acc)
    } else {
        match unescaped(names[0]) {
            Ok(tag) => tags_named(acc.push(tag), names.skip(1)),
            Err(fault) => Err(tag_error(fault, names[0])),
        }
    }
}

/// The tags that the entry `tags` holds: the tags that the names of its
/// entries stand for, in order. A file of that name is an old layout and is
/// refused.
pub open spec fn tags_in(n: Node) -> Result<Seq<Seq<char>>, IssueFault> {
    match n {
        Node::File { .. } => Err(IssueFault::IssueParseError),
        Node::Unreadable { fault, .. } => Err(IssueFault::StdIoError(fault)),
        Node::Dir { entries, .. } => match tags_named(Seq::empty(), names(entries@)) {
            Ok(tags) => Ok(sorted(tags, text_order())),
            Err(e) => Err(e),
        },
    }
}

/// The comment that one entry of the directory `comments` holds.
pub open spec fn comment_in(dir: LocationView, n: Node) -> Result<CommentView, CommentFault> {
    match n {
        Node::File { .. } => Err(
            CommentFault::StdIoError(IoFault { kind: IoFaultKind::NotADirectory, os_code: None }),
        ),
        Node::Unreadable { fault, .. } => Err(CommentFault::StdIoError(fault)),
        Node::Dir { name, entries, history } => comment_of(dir.child(name@), entries@, history),
    }
}

/// The comments in `acc` and those that the entries of the directory
/// `comments` hold, each put in by its time of creation.
pub open spec fn comments_in(acc: Seq<CommentView>, dir: LocationView, nodes: Seq<Node>) -> Result<
    Seq<CommentView>,
    CommentFault,
>
    decreases nodes.len(),
{
    if nodes.len() == 0 {
        Ok(acc)
    } else {
        match comment_in(dir, nodes[0]) {
            Ok(c) => comments_in(inserted(acc, c, comment_order()), dir, nodes.skip(1)),
            Err(e) => Err(e),
        }
    }
}

/// What the entries of an issue's directory have said so far.
pub struct IssueDraft {
    pub author: Option<Seq<char>>,
    pub creation_time: Option<Timestamp>,
    pub description: Option<Seq<char>>,
    pub state: State,
    pub dependencies: Option<Seq<Seq<char>>>,
    pub comments: Seq<CommentView>,
    pub assignee: Option<Seq<char>>,
    pub tags: Seq<Seq<char>>,
    pub done_time: Option<Timestamp>,
}

/// What is known before any entry is read: nothing, and the state `New`.
pub open spec fn blank_draft() -> IssueDraft {
    IssueDraft {
        author: None,
        creation_time: None,
        description: None,
        state: State::New,
        dependencies: None,
        comments: Seq::empty(),
        assignee: None,
        tags: Seq::empty(),
        done_time: None,
    }
}

/// What one entry of an issue's directory adds to what is known.
pub open spec fn issue_entry(d: IssueDraft, dir: LocationView, n: Node) -> Result<
    IssueDraft,
    IssueFault,
> {
    let name = n.spec_name();
    if name == "author"@ {
        match n.spec_text() {
            Ok(t) => Ok(IssueDraft { author: Some(t), ..d }),
            Err(f) => Err(IssueFault::StdIoError(f)),
        }
    } else if name == "creation_time"@ {
        match time_in(n) {
            Ok(time) => Ok(IssueDraft { creation_time: Some(time), ..d }),
            Err(e) => Err(e),
        }
    } else if name == "description"@ {
        match n.spec_text() {
            Ok(t) => Ok(IssueDraft { description: Some(t), ..d }),
            Err(f) => Err(IssueFault::StdIoError(f)),
        }
    } else if name == "state"@ {
        match n.spec_text() {
            Ok(t) => match State::parse(trimmed(t)) {
                Some(state) => Ok(IssueDraft { state, ..d }),
                None => Err(IssueFault::StateParseError),
            },
            Err(f) => Err(IssueFault::StdIoError(f)),
        }
    } else if name == "assignee"@ {
        match n.spec_text() {
            Ok(t) => Ok(IssueDraft { assignee: Some(trimmed(t)), ..d }),
            Err(f) => Err(IssueFault::StdIoError(f)),
        }
    } else if name == "done_time"@ {
        match time_in(n) {
            Ok(time) => Ok(IssueDraft { done_time: Some(time), ..d }),
            Err(e) => Err(e),
        }
    } else if name == "dependencies"@ {
        match n {
            Node::Dir { entries, .. } => Ok(
                IssueDraft { dependencies: dependencies_in(entries@), ..d },
            ),
            Node::File { .. } => Ok(d),
            Node::Unreadable { fault, .. } => Err(IssueFault::StdIoError(fault)),
        }
    } else if name == "tags"@ {
        match tags_in(n) {
            Ok(tags) => Ok(IssueDraft { tags, ..d }),
            Err(e) => Err(e),
        }
    } else if name == "comments"@ {
        match n {
            Node::Dir { entries, .. } => match comments_in(
                d.comments,
                dir.child("comments"@),
                entries@,
            ) {
                Ok(comments) => Ok(IssueDraft { comments, ..d }),
                Err(e) => Err(IssueFault::CommentError(e)),
            },
            Node::File { .. } => Ok(d),
            Node::Unreadable { fault, .. } => Err(IssueFault::StdIoError(fault)),
        }
    } else {
        Ok(d)
    }
}

/// What the entries of an issue's directory say, read in order; the first
/// fault ends the reading.
pub open spec fn issue_entries(d: IssueDraft, dir: LocationView, entries: Seq<Node>) -> Result<
    IssueDraft,
    IssueFault,
>
    decreases entries.len(),
{
    if entries.len() == 0 {
        Ok(d)
    } else {
        match issue_entry(d, dir, entries[0]) {
            Ok(next) => issue_entries(next, dir, entries.skip(1)),
            Err(e) => Err(e),
        }
    }
}

/// The issue that a directory holds.
///
/// The directory must hold a `description`. The name of the directory is the
/// issue's identifier, and must not be empty. Where no `state` is given the
/// issue is `New`. Author
/// and time of creation are those that the files `author` and
/// `creation_time` give; where one of the two is absent, it is taken from
/// the oldest commit that touched the directory.
pub open spec fn issue_of(
    dir: LocationView,
    entries: Seq<Node>,
    history: Option<Result<GitOutput, IoFault>>,
) -> Result<IssueView, IssueFault> {
    match issue_entries(blank_draft(), dir, entries) {
        Err(e) => Err(e),
        Ok(d) => if d.description is None {
            Err(IssueFault::IssueParseError)
        } else if dir.name.len() == 0 {
            Err(IssueFault::IdError)
        } else if d.author is Some && d.creation_time is Some {
            Ok(finished(d, dir, d.author->0, d.creation_time->0))
        } else {
            match provenance(history) {
                Err(e) => Err(IssueFault::GitError(e)),
                Ok((author, time)) => Ok(
                    finished(
                        d,
                        dir,
                        if d.author is Some {
                            d.author->0
                        } else {
                            author
                        },
                        if d.creation_time is Some {
                            d.creation_time->0
                        } else {
                            time
                        },
                    ),
                ),
            }
        },
    }
}

/// The issue made of what its directory said, with the author and time of
/// creation that were settled on.
pub open spec fn finished(
    d: IssueDraft,
    dir: LocationView,
    author: Seq<char>,
    creation_time: Timestamp,
) -> IssueView {
    IssueView {
        id: dir.name,
        author,
        creation_time,
        done_time: d.done_time,
        tags: d.tags,
        state: d.state,
        dependencies: d.dependencies,
        assignee: d.assignee,
        description: d.description->0,
        comments: d.comments,
        dir,
    }
}

/// Reads the time that a file holds.
fn read_time(node: &Node) -> (r: Result<Timestamp, IssueError>)
    ensures
        match time_in(*node) {
            Ok(time) => r matches Ok(t) && t == time,
            Err(e) => r matches Err(x) && x@ == e,
        },
{
    match node.text() {
        Ok(t) => {
            let text = trim(t.as_str());
            match Timestamp::parse_rfc3339(text.as_str()) {
                Ok(time) => Ok(time),
                Err(_) => Err(IssueError::ChronoParseError),
            }
        },
        Err(f) => Err(IssueError::StdIoError(f)),
    }
}

/// The names of the entries of a directory.
fn names_of(nodes: &Vec<Node>) -> (r: Vec<String>)
    ensures
        texts(r@) == names(nodes@),
{
    let mut r: Vec<String> = Vec::new();
    let mut i: usize = 0;
    assert(texts(r@) =~= names(nodes@).take(0));
    while i < nodes.len()
        invariant
            i <= nodes.len(),
            texts(r@) == names(nodes@).take(i as int),
        decreases nodes.len() - i,
    {
        let name = nodes[i].name().clone();
        proof {
            lemma_texts_push(r@, name);
            assert(names(nodes@).take(i + 1) =~= names(nodes@).take(i as int).push(name@));
        }
        r.push(name);
        i += 1;
    }
    assert(names(nodes@).take(nodes.len() as int) =~= names(nodes@));
    r
}

impl Issue {
    /// Reads the dependencies from the entries of the directory
    /// `dependencies`: their names in order, or `None` if there are none.
    pub fn read_dependencies(nodes: &Vec<Node>) -> (r: Option<Vec<String>>)
        ensures
            opt_texts(r) == dependencies_in(nodes@),
    {
        if nodes.len() == 0 {
            None
        } else {
            let all = names_of(nodes);
            Some(sort_texts(&all))
        }
    }

    /// Reads the tags from the entry `tags`: the tags that the names of its
    /// entries stand for, in order.
    ///
    /// Fails with `IssueParseError` if `tags` is a file, with `StdIoError` if
    /// it cannot be read, and with the fault of the first name that stands
    /// for no tag.
    pub fn read_tags(node: &Node) -> (r: Result<Vec<String>, IssueError>)
        ensures
            match tags_in(*node) {
                Ok(tags) => r matches Ok(v) && texts(v@) == tags,
                Err(e) => r matches Err(x) && x@ == e,
            },
    {
        match node {
            Node::File { .. } => Err(IssueError::IssueParseError),
            Node::Unreadable { fault, .. } => Err(IssueError::StdIoError(*fault)),
            Node::Dir { entries, .. } => {
                let mut tags: Vec<String> = Vec::new();
                let mut i: usize = 0;
                let ghost all = names(entries@);
                assert(all.skip(0) =~= all);
                assert(texts(tags@) =~= Seq::<Seq<char>>::empty());
                while i < entries.len()
                    invariant
                        i <= entries.len(),
                        all == names(entries@),
                        tags_in(*node) == match tags_named(Seq::empty(), all) {
                            Ok(tags) => Ok::<Seq<Seq<char>>, IssueFault>(
                                sorted(tags, text_order()),
                            ),
                            Err(e) => Err(e),
                        },
                        tags_named(Seq::empty(), all) == tags_named(
                            texts(tags@),
                            all.skip(i as int),
                        ),
                    decreases entries.len() - i,
                {
                    proof {
                        assert(all.skip(i as int)[0] == entries@[i as int].spec_name());
                        assert(all.skip(i as int).skip(1) =~= all.skip(i + 1));
                    }
                    match Issue::tag_from_filename(entries[i].name().as_str()) {
                        Ok(tag) => {
                            proof {
                                lemma_texts_push(tags@, tag);
                            }
                            tags.push(tag);
                        },
                        Err(e) => {
                            return Err(e);
                        },
                    }
                    i += 1;
                }
                Ok(sort_texts(&tags))
            },
        }
    }

    /// Reads the comments from the entries of the directory `comments`,
    /// which lies at `dir`, and puts each where it goes by its time of
    /// creation.
    ///
    /// Fails with the fault of the first entry that holds no comment; the
    /// list may then hold some of the comments read before it.
    pub fn read_comments(comments: &mut Vec<Comment>, dir: &Location, nodes: &Vec<Node>) -> (r:
        Result<(), CommentError>)
        ensures
            match comments_in(comment_views(old(comments)@), dir@, nodes@) {
                Ok(all) => r is Ok && comment_views(final(comments)@) == all,
                Err(e) => r matches Err(x) && x@ == e,
            },
    {
        let mut i: usize = 0;
        let ghost before = comment_views(comments@);
        assert(nodes@.skip(0) =~= nodes@);
        while i < nodes.len()
            invariant
                i <= nodes.len(),
                before == comment_views(old(comments)@),
                comments_in(before, dir@, nodes@) == comments_in(
                    comment_views(comments@),
                    dir@,
                    nodes@.skip(i as int),
                ),
            decreases nodes.len() - i,
        {
            proof {
                assert(nodes@.skip(i as int)[0] == nodes@[i as int]);
                assert(nodes@.skip(i as int).skip(1) =~= nodes@.skip(i + 1));
            }
            match &nodes[i] {
                Node::File { .. } => {
                    return Err(
                        CommentError::StdIoError(
                            IoFault { kind: IoFaultKind::NotADirectory, os_code: None },
                        ),
                    );
                },
                Node::Unreadable { fault, .. } => {
                    return Err(CommentError::StdIoError(*fault));
                },
                Node::Dir { name, entries, history } => {
                    let place = dir.child(name.as_str());
                    match Comment::new_from_dir(&place, entries, history) {
                        Ok(c) => {
                            insert_comment(comments, c);
                        },
                        Err(e) => {
                            return Err(e);
                        },
                    }
                },
            }
            i += 1;
        }
        Ok(())
    }

    /// Reads an issue from what its directory held.
    ///
    /// `dir` is where the directory lies, `entries` what it held, and
    /// `history` the answer to `log_authors(dir)` where the caller asked.
    ///
    /// Fails with `StdIoError` if an entry that is needed cannot be read,
    /// `ChronoParseError` if a time is no RFC 3339 time, `StateParseError` if
    /// `state` names no state, `IssueParseError` if there is no
    /// `description` or `tags` is a file, the fault of a file name in `tags`
    /// that stands for no tag, `CommentError` if a comment cannot be read,
    /// `IdError` if the directory has no name, and `GitError` if the history
    /// is needed and does not give author and time.
    pub fn new_from_dir(
        dir: &Location,
        entries: &Vec<Node>,
        history: &Option<Result<GitOutput, IoFault>>,
    ) -> (r: Result<Issue, IssueError>)
        ensures
            match issue_of(dir@, entries@, *history) {
                Ok(issue) => r matches Ok(x) && x@ == issue,
                Err(e) => r matches Err(x) && x@ == e,
            },
    {
        let mut author: Option<String> = None;
        let mut creation_time: Option<Timestamp> = None;
        let mut description: Option<String> = None;
        let mut state = State::New;
        let mut dependencies: Option<Vec<String>> = None;
        let mut comments: Vec<Comment> = Vec::new();
        let mut assignee: Option<String> = None;
        let mut tags: Vec<String> = Vec::new();
        let mut done_time: Option<Timestamp> = None;
        let mut i: usize = 0;
        proof {
            assert(entries@.skip(0) =~= entries@);
            assert(comment_views(comments@) =~= Seq::<CommentView>::empty());
            assert(texts(tags@) =~= Seq::<Seq<char>>::empty());
        }
        while i < entries.len()
            invariant
                i <= entries.len(),
                issue_entries(blank_draft(), dir@, entries@) == issue_entries(
                    IssueDraft {
                        author: opt_text(author),
                        creation_time,
                        description: opt_text(description),
                        state,
                        dependencies: opt_texts(dependencies),
                        comments: comment_views(comments@),
                        assignee: opt_text(assignee),
                        tags: texts(tags@),
                        done_time,
                    },
                    dir@,
                    entries@.skip(i as int),
                ),
            decreases entries.len() - i,
        {
            let node = &entries[i];
            proof {
                assert(entries@.skip(i as int)[0] == entries@[i as int]);
                assert(entries@.skip(i as int).skip(1) =~= entries@.skip(i + 1));
            }
            let name = node.name();
            if same_text(name.as_str(), "author") {
                match node.text() {
                    Ok(t) => {
                        author = Some(t.clone());
                    },
                    Err(f) => {
                        return Err(IssueError::StdIoError(f));
                    },
                }
            } else if same_text(name.as_str(), "creation_time") {
                match read_time(node) {
                    Ok(time) => {
                        creation_time = Some(time);
                    },
                    Err(e) => {
                        return Err(e);
                    },
                }
            } else if same_text(name.as_str(), "description") {
                match node.text() {
                    Ok(t) => {
                        description = Some(t.clone());
                    },
                    Err(f) => {
                        return Err(IssueError::StdIoError(f));
                    },
                }
            } else if same_text(name.as_str(), "state") {
                match node.text() {
                    Ok(t) => {
                        let text = trim(t.as_str());
                        match State::from_str(text.as_str()) {
                            Ok(s) => {
                                state = s;
                            },
                            Err(e) => {
                                return Err(e);
                            },
                        }
                    },
                    Err(f) => {
                        return Err(IssueError::StdIoError(f));
                    },
                }
            } else if same_text(name.as_str(), "assignee") {
                match node.text() {
                    Ok(t) => {
                        assignee = Some(trim(t.as_str()));
                    },
                    Err(f) => {
                        return Err(IssueError::StdIoError(f));
                    },
                }
            } else if same_text(name.as_str(), "done_time") {
                match read_time(node) {
                    Ok(time) => {
                        done_time = Some(time);
                    },
                    Err(e) => {
                        return Err(e);
                    },
                }
            } else if same_text(name.as_str(), "dependencies") {
                match node {
                    Node::Dir { entries: markers, .. } => {
                        dependencies = Issue::read_dependencies(markers);
                    },
                    Node::File { .. } => {},
                    Node::Unreadable { fault, .. } => {
                        return Err(IssueError::StdIoError(*fault));
                    },
                }
            } else if same_text(name.as_str(), "tags") {
                match Issue::read_tags(node) {
                    Ok(t) => {
                        tags = t;
                    },
                    Err(e) => {
                        return Err(e);
                    },
                }
            } else if same_text(name.as_str(), "comments") {
                match node {
                    Node::Dir { entries: below, .. } => {
                        let place = dir.child("comments");
                        match Issue::read_comments(&mut comments, &place, below) {
                            Ok(()) => {},
                            Err(e) => {
                                return Err(IssueError::CommentError(e));
                            },
                        }
                    },
                    Node::File { .. } => {},
                    Node::Unreadable { fault, .. } => {
                        return Err(IssueError::StdIoError(*fault));
                    },
                }
            }
            i += 1;
        }
        let description = match description {
            Some(d) => d,
            None => {
                return Err(IssueError::IssueParseError);
            },
        };
        if dir.name.as_str().is_empty() {
            return Err(IssueError::IdError);
        }
        let (author, creation_time) = match (author, creation_time) {
            (Some(a), Some(t)) => (a, t),
            (a, t) => {
                match read_provenance(history) {
                    Err(e) => {
                        return Err(IssueError::GitError(e));
                    },
                    Ok((git_author, git_time)) => {
                        let a = match a {
                            Some(a) => a,
                            None => git_author,
                        };
                        let t = match t {
                            Some(t) => t,
                            None => git_time,
                        };
                        (a, t)
                    },
                }
            },
        };
        Ok(
            Issue {
                id: dir.name.clone(),
                author,
                creation_time,
                done_time,
                tags,
                state,
                dependencies,
                assignee,
                description,
                comments,
                dir: dir.duplicate(),
            },
        )
    }
}

/// Reading entries of which none is named `description` leaves the
/// description unknown.
pub proof fn lemma_description_needs_its_file(d: IssueDraft, dir: LocationView, entries: Seq<Node>)
    requires
        d.description is None,
        forall|i: int| 0 <= i < entries.len() ==> (#[trigger] entries[i]).spec_name() != "description"@,
    ensures
        issue_entries(d, dir, entries) matches Ok(after) ==> after.description is None,
    decreases entries.len(),
{
    if entries.len() > 0 {
        assert(entries[0].spec_name() != "description"@);
        match issue_entry(d, dir, entries[0]) {
            Ok(next) => {
                assert forall|i: int| 0 <= i < entries.skip(1).len() implies (
                #[trigger] entries.skip(1)[i]).spec_name() != "description"@ by {
                    assert(entries.skip(1)[i] == entries[i + 1]);
                }
                lemma_description_needs_its_file(next, dir, entries.skip(1));
            },
            Err(_) => {},
        }
    }
}

/// A directory without the file `description` holds no issue.
pub proof fn lemma_no_issue_without_description(
    dir: LocationView,
    entries: Seq<Node>,
    history: Option<Result<GitOutput, IoFault>>,
)
    requires
        forall|i: int| 0 <= i < entries.len() ==> (#[trigger] entries[i]).spec_name() != "description"@,
    ensures
        issue_of(dir, entries, history) is Err,
{
    lemma_description_needs_its_file(blank_draft(), dir, entries);
}

/// Whether what is known of an issue is in order: the tags and the
/// dependencies by their texts, the comments by their times of creation.
pub open spec fn draft_in_order(d: IssueDraft) -> bool {
    &&& is_sorted(d.tags, text_order())
    &&& is_sorted(d.comments, comment_order())
    &&& d.dependencies matches Some(deps) ==> is_sorted(deps, text_order())
}

/// Comments that are read into a list in order leave it in order.
pub proof fn lemma_comments_in_order(acc: Seq<CommentView>, dir: LocationView, nodes: Seq<Node>)
    requires
        is_sorted(acc, comment_order()),
    ensures
        comments_in(acc, dir, nodes) matches Ok(all) ==> is_sorted(all, comment_order()),
    decreases nodes.len(),
{
    if nodes.len() > 0 {
        match comment_in(dir, nodes[0]) {
            Ok(c) => {
                lemma_comment_order();
                lemma_inserted_is_sorted(acc, c, comment_order());
                lemma_comments_in_order(inserted(acc, c, comment_order()), dir, nodes.skip(1));
            },
            Err(_) => {},
        }
    }
}

/// Reading entries keeps what is known of an issue in order.
pub proof fn lemma_entries_keep_order(d: IssueDraft, dir: LocationView, entries: Seq<Node>)
    requires
        draft_in_order(d),
    ensures
        issue_entries(d, dir, entries) matches Ok(after) ==> draft_in_order(after),
    decreases entries.len(),
{
    if entries.len() > 0 {
        let n = entries[0];
        match issue_entry(d, dir, n) {
            Ok(next) => {
                lemma_text_order();
                let name = n.spec_name();
                if name == "dependencies"@ {
                    match n {
                        Node::Dir { entries: markers, .. } => {
                            lemma_sorted_is_sorted(names(markers@), text_order());
                        },
                        _ => {},
                    }
                } else if name == "tags"@ {
                    match n {
                        Node::Dir { entries: markers, .. } => {
                            let tags = tags_named(Seq::empty(), names(markers@))->Ok_0;
                            lemma_sorted_is_sorted(tags, text_order());
                        },
                        _ => {},
                    }
                } else if name == "comments"@ {
                    match n {
                        Node::Dir { entries: below, .. } => {
                            lemma_comments_in_order(d.comments, dir.child("comments"@), below@);
                        },
                        _ => {},
                    }
                }
                lemma_entries_keep_order(next, dir, entries.skip(1));
            },
            Err(_) => {},
        }
    }
}

/// An issue that was read from its directory is in order: its tags and its
/// dependencies by their texts, its comments from the oldest to the
/// youngest.
pub proof fn lemma_loaded_issue_is_in_order(
    dir: LocationView,
    entries: Seq<Node>,
    history: Option<Result<GitOutput, IoFault>>,
)
    ensures
        issue_of(dir, entries, history) matches Ok(issue) ==> {
            &&& is_sorted(issue.tags, text_order())
            &&& is_sorted(issue.comments, comment_order())
            &&& issue.dependencies matches Some(deps) ==> is_sorted(deps, text_order())
        },
{
    lemma_entries_keep_order(blank_draft(), dir, entries);
}

/// The file names of a list of tags.
pub open spec fn file_names(tags: Seq<Seq<char>>) -> Seq<Seq<char>> {
    tags.map_values(|t: Seq<char>| escaped(t))
}

/// The tags that were written as file names are the tags that are read
/// from them.
pub proof fn lemma_tags_written_are_read(acc: Seq<Seq<char>>, tags: Seq<Seq<char>>)
    ensures
        tags_named(acc, file_names(tags)) == Ok::<Seq<Seq<char>>, IssueFault>(acc + tags),
    decreases tags.len(),
{
    if tags.len() == 0 {
        assert(acc + tags =~= acc);
    } else {
        let all = file_names(tags);
        lemma_tag_round_trip(tags[0]);
        assert(all[0] == escaped(tags[0]));
        assert(all.skip(1) =~= file_names(tags.skip(1)));
        lemma_tags_written_are_read(acc.push(tags[0]), tags.skip(1));
        assert(acc.push(tags[0]) + tags.skip(1) =~= acc + tags);
    }
}

} // verus!
