//! Comments: the records that hang below an issue.

use vstd::prelude::*;
use crate::fs::IoFault;
use crate::fs::Location;
use crate::fs::LocationView;
use crate::fs::Node;
use crate::git::provenance;
use crate::git::read_provenance;
use crate::git::GitError;
use crate::git::GitFault;
use crate::git::GitOutput;
use crate::order::inserted;
use crate::order::lemma_insert_index_is;
use crate::order::total_preorder;
use crate::text::opt_text;
use crate::text::same_text;
use crate::text::trim;
use crate::text::trimmed;
use crate::timestamp::Timestamp;

verus! {

/// A comment on an issue.
#[derive(Debug, PartialEq)]
pub struct Comment {
    /// The name of the comment's directory.
    pub uuid: String,
    pub author: String,
    pub creation_time: Timestamp,
    pub description: String,
    /// Where the comment's directory lies.
    pub dir: Location,
}

/// A comment as texts.
pub struct CommentView {
    pub uuid: Seq<char>,
    pub author: Seq<char>,
    pub creation_time: Timestamp,
    pub description: Seq<char>,
    pub dir: LocationView,
}

impl View for Comment {
    type V = CommentView;

    open spec fn view(&self) -> CommentView {
        CommentView {
            uuid: self.uuid@,
            author: self.author@,
            creation_time: self.creation_time,
            description: self.description@,
            dir: self.dir@,
        }
    }
}

/// What can go wrong with a comment.
#[derive(Debug, PartialEq)]
pub enum CommentError {
    StdIoError(IoFault),
    /// The variable that names the editor holds no valid text.
    EnvVarError,
    /// A time is not written as RFC 3339 asks.
    ChronoParseError,
    /// The directory holds no `description`.
    CommentParseError,
    GitError(GitError),
    /// The editor ran and reported failure.
    EditorError,
    EmptyDescription,
    StdioIsNotTerminal,
}

/// What can go wrong with a comment, as texts.
pub enum CommentFault {
    StdIoError(IoFault),
    EnvVarError,
    ChronoParseError,
    CommentParseError,
    GitError(GitFault),
    EditorError,
    EmptyDescription,
    StdioIsNotTerminal,
}

impl View for CommentError {
    type V = CommentFault;

    open spec fn view(&self) -> CommentFault {
        match self {
            CommentError::StdIoError(f) => CommentFault::StdIoError(*f),
            CommentError::EnvVarError => CommentFault::EnvVarError,
            CommentError::ChronoParseError => CommentFault::ChronoParseError,
            CommentError::CommentParseError => CommentFault::CommentParseError,
            CommentError::GitError(e) => CommentFault::GitError(e@),
            CommentError::EditorError => CommentFault::EditorError,
            CommentError::EmptyDescription => CommentFault::EmptyDescription,
            CommentError::StdioIsNotTerminal => CommentFault::StdioIsNotTerminal,
        }
    }
}

/// The views of a list of comments.
pub open spec fn comment_views(v: Seq<Comment>) -> Seq<CommentView> {
    v.map_values(|c: Comment| c@)
}

/// The order of comments: by time of creation.
pub open spec fn comment_order() -> spec_fn(CommentView, CommentView) -> bool {
    |a: CommentView, b: CommentView| a.creation_time.at_or_before(b.creation_time)
}

/// The order of comments is total and transitive.
pub proof fn lemma_comment_order()
    ensures
        total_preorder(comment_order()),
{
    let le = comment_order();
    assert forall|a: CommentView, b: CommentView| #[trigger] le(a, b) || le(b, a) by {}
    assert forall|a: CommentView, b: CommentView, c: CommentView| #[trigger]
        le(a, b) && #[trigger] le(b, c) implies le(a, c) by {}
}

/// Puts a comment into a list where it goes by time of creation: behind the
/// comments that are not younger.
pub fn insert_comment(v: &mut Vec<Comment>, c: Comment)
    ensures
        comment_views(final(v)@) == inserted(comment_views(old(v)@), c@, comment_order()),
{
    let mut p: usize = 0;
    while p < v.len() && v[p].creation_time.le(&c.creation_time)
        invariant
            p <= v.len(),
            forall|k: int|
                0 <= k < p ==> (#[trigger] v@[k]).creation_time.at_or_before(c.creation_time),
        decreases v.len() - p,
    {
        p += 1;
    }
    proof {
        let s = comment_views(v@);
        let le = comment_order();
        assert forall|k: int| 0 <= k < p implies le(#[trigger] s[k], c@) by {
            assert(s[k] == v@[k]@);
        }
        if p < v.len() {
            assert(s[p as int] == v@[p as int]@);
        }
        lemma_insert_index_is(s, c@, le, p as int);
        assert(comment_views(v@.insert(p as int, c)) =~= s.insert(p as int, c@));
    }
    v.insert(p, c);
}

/// What the files of a comment's directory have said so far.
pub struct CommentDraft {
    pub author: Option<Seq<char>>,
    pub creation_time: Option<Timestamp>,
    pub description: Option<Seq<char>>,
}

/// What one entry of a comment's directory adds to what is known: `author`
/// and `description` are taken as they stand, `creation_time` is trimmed and
/// read as RFC 3339, and an entry of any other name says nothing.
pub open spec fn comment_entry(d: CommentDraft, n: Node) -> Result<CommentDraft, CommentFault> {
    if n.spec_name() == "author"@ {
        match n.spec_text() {
            Ok(t) => Ok(CommentDraft { author: Some(t), ..d }),
            Err(f) => Err(CommentFault::StdIoError(f)),
        }
    } else if n.spec_name() == "creation_time"@ {
        match n.spec_text() {
            Ok(t) => match Timestamp::spec_parse(trimmed(t)) {
                Some(time) => Ok(CommentDraft { creation_time: Some(time), ..d }),
                None => Err(CommentFault::ChronoParseError),
            },
            Err(f) => Err(CommentFault::StdIoError(f)),
        }
    } else if n.spec_name() == "description"@ {
        match n.spec_text() {
            Ok(t) => Ok(CommentDraft { description: Some(t), ..d }),
            Err(f) => Err(CommentFault::StdIoError(f)),
        }
    } else {
        Ok(d)
    }
}

/// What the entries of a comment's directory say, read in order; the first
/// fault ends the reading.
pub open spec fn comment_entries(d: CommentDraft, entries: Seq<Node>) -> Result<
    CommentDraft,
    CommentFault,
>
    decreases entries.len(),
{
    if entries.len() == 0 {
        Ok(d)
    } else {
        match comment_entry(d, entries[0]) {
            Ok(next) => comment_entries(next, entries.skip(1)),
            Err(e) => Err(e),
        }
    }
}

/// The comment that a directory holds.
///
/// The directory must hold a `description`. Author and time of creation are
/// those that the files `author` and `creation_time` give; where one of the
/// two is absent, it is taken from the oldest commit that touched the
/// directory.
pub open spec fn comment_of(
    dir: LocationView,
    entries: Seq<Node>,
    history: Option<Result<GitOutput, IoFault>>,
) -> Result<CommentView, CommentFault> {
    let start = CommentDraft { author: None, creation_time: None, description: None };
    match comment_entries(start, entries) {
        Err(e) => Err(e),
        Ok(d) => if d.description is None {
            Err(CommentFault::CommentParseError)
        } else if d.author is Some && d.creation_time is Some {
            Ok(
                CommentView {
                    uuid: dir.name,
                    author: d.author->0,
                    creation_time: d.creation_time->0,
                    description: d.description->0,
                    dir,
                },
            )
        } else {
            match provenance(history) {
                Err(e) => Err(CommentFault::GitError(e)),
                Ok((author, time)) => Ok(
                    CommentView {
                        uuid: dir.name,
                        author: if d.author is Some {
                            d.author->0
                        } else {
                            author
                        },
                        creation_time: if d.creation_time is Some {
                            d.creation_time->0
                        } else {
                            time
                        },
                        description: d.description->0,
                        dir,
                    },
                ),
            }
        },
    }
}

/// Whether a comment's directory leaves its author or its time of creation
/// to the history: whether `author` or `creation_time` is missing among the
/// entries.
pub open spec fn lacks_provenance(entries: Seq<Node>) -> bool {
    ||| forall|i: int| 0 <= i < entries.len() ==> (#[trigger] entries[i]).spec_name() != "author"@
    ||| forall|i: int|
        0 <= i < entries.len() ==> (#[trigger] entries[i]).spec_name() != "creation_time"@
}

/// Whether the entries of a record's directory leave its author or its time
/// of creation to the history, so that the caller has to ask for it.
pub fn needs_history(entries: &Vec<Node>) -> (r: bool)
    ensures
        r == lacks_provenance(entries@),
{
    let mut author = false;
    let mut creation_time = false;
    let mut i: usize = 0;
    while i < entries.len()
        invariant
            i <= entries.len(),
            author == exists|k: int| 0 <= k < i && (#[trigger] entries@[k]).spec_name() == "author"@,
            creation_time == exists|k: int|
                0 <= k < i && (#[trigger] entries@[k]).spec_name() == "creation_time"@,
        decreases entries.len() - i,
    {
        let name = entries[i].name();
        if same_text(name.as_str(), "author") {
            author = true;
        }
        if same_text(name.as_str(), "creation_time") {
            creation_time = true;
        }
        i += 1;
    }
    !(author && creation_time)
}

impl Comment {
    /// Reads a comment from what its directory held.
    ///
    /// `dir` is where the directory lies, `entries` what it held, and
    /// `history` the answer to `log_authors(dir)` where the caller asked.
    /// Fails with `StdIoError` if one of the three files cannot be read,
    /// `ChronoParseError` if `creation_time` is no RFC 3339 time,
    /// `CommentParseError` if there is no `description`, and `GitError` if
    /// the history is needed and does not give author and time.
    pub fn new_from_dir(
        dir: &Location,
        entries: &Vec<Node>,
        history: &Option<Result<GitOutput, IoFault>>,
    ) -> (r: Result<Comment, CommentError>)
        ensures
            match comment_of(dir@, entries@, *history) {
                Ok(c) => r matches Ok(x) && x@ == c,
                Err(e) => r matches Err(x) && x@ == e,
            },
    {
        let mut author: Option<String> = None;
        let mut creation_time: Option<Timestamp> = None;
        let mut description: Option<String> = None;
        let ghost start = CommentDraft { author: None, creation_time: None, description: None };
        let mut i: usize = 0;
        assert(entries@.skip(0) =~= entries@);
        while i < entries.len()
            invariant
                i <= entries.len(),
                start == (CommentDraft { author: None, creation_time: None, description: None }),
                comment_entries(start, entries@) == comment_entries(
                    CommentDraft {
                        author: opt_text(author),
                        creation_time,
                        description: opt_text(description),
                    },
                    entries@.skip(i as int),
                ),
            decreases entries.len() - i,
        {
            let node = &entries[i];
            proof {
                assert(entries@.skip(i as int)[0] == entries@[i as int]);
                assert(entries@.skip(i as int).skip(1) =~= entries@.skip(i + 1));
            }
            let name = node.name();
            if same_text(name.as_str(), "author") {
                match node.text() {
                    Ok(t) => {
                        author = Some(t.clone());
                    },
                    Err(f) => {
                        return Err(CommentError::StdIoError(f));
                    },
                }
            } else if same_text(name.as_str(), "creation_time") {
                match node.text() {
                    Ok(t) => {
                        let trimmed_text = trim(t.as_str());
                        match Timestamp::parse_rfc3339(trimmed_text.as_str()) {
                            Ok(time) => {
                                creation_time = Some(time);
                            },
                            Err(_) => {
                                return Err(CommentError::ChronoParseError);
                            },
                        }
                    },
                    Err(f) => {
                        return Err(CommentError::StdIoError(f));
                    },
                }
            } else if same_text(name.as_str(), "description") {
                match node.text() {
                    Ok(t) => {
                        description = Some(t.clone());
                    },
                    Err(f) => {
                        return Err(CommentError::StdIoError(f));
                    },
                }
            }
            i += 1;
        }
        let description = match description {
            Some(d) => d,
            None => {
                return Err(CommentError::CommentParseError);
            },
        };
        let (author, creation_time) = match (author, creation_time) {
            (Some(a), Some(t)) => (a, t),
            (a, t) => {
                match read_provenance(history) {
                    Err(e) => {
                        return Err(CommentError::GitError(e));
                    },
                    Ok((git_author, git_time)) => {
                        let a = match a {
                            Some(a) => a,
                            None => git_author,
                        };
                        let t = match t {
                            Some(t) => t,
                            None => git_time,
                        };
                        (a, t)
                    },
                }
            },
        };
        Ok(
            Comment {
                uuid: dir.name.clone(),
                author,
                creation_time,
                description,
                dir: dir.duplicate(),
            },
        )
    }
}

} // verus!
