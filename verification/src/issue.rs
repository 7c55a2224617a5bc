//! Issues: the records of the store, their states, and what can go wrong
//! with them.

use vstd::prelude::*;
use crate::comment::comment_views;
use crate::comment::Comment;
use crate::comment::CommentError;
use crate::comment::CommentFault;
use crate::comment::CommentView;
use crate::fs::IoFault;
use crate::fs::Location;
use crate::fs::LocationView;
use crate::git::GitError;
use crate::git::GitFault;
use crate::text::chars_of;
use crate::text::find_char;
use crate::text::first_line;
use crate::text::lowercase;
use crate::text::opt_text;
use crate::text::same_text;
use crate::text::texts;
use crate::timestamp::Timestamp;

verus! {

/// The states an issue can be in.
#[derive(Clone, Copy, Debug, Eq, Hash, PartialEq, Structural)]
pub enum State {
    New,
    Backlog,
    Blocked,
    InProgress,
    Done,
    WontDo,
}

/// The name of an issue: the name of its directory.
pub type IssueHandle = String;

/// An issue with all that its directory holds.
#[derive(Debug, PartialEq)]
pub struct Issue {
    pub id: String,
    pub author: String,
    pub creation_time: Timestamp,
    pub done_time: Option<Timestamp>,
    /// The tags, in lexicographic order.
    pub tags: Vec<String>,
    pub state: State,
    pub dependencies: Option<Vec<IssueHandle>>,
    pub assignee: Option<String>,
    /// The text of the issue; its first line is the title.
    pub description: String,
    /// The comments, oldest first.
    pub comments: Vec<Comment>,
    /// Where the issue's directory lies.
    pub dir: Location,
}

/// What can go wrong with an issue.
#[derive(Debug, PartialEq)]
pub enum IssueError {
    StdIoError(IoFault),
    /// The variable that names the editor holds no valid text.
    EnvVarError,
    CommentError(CommentError),
    /// A time is not written as RFC 3339 asks.
    ChronoParseError,
    /// The directory holds no `description`, or holds `tags` as a file.
    IssueParseError,
    /// A tag's file name holds a comma followed by `escape`, which is neither `0` nor `1`.
    TagInvalidEscape { escape: String, filename: String },
    /// A tag's file name holds a comma with no selector after it.
    TagTrailingEscape { filename: String },
    StateParseError,
    GitError(GitError),
    /// The editor ran and reported failure.
    EditorError,
    EmptyDescription,
    TagNotFound(String),
    StdioIsNotTerminal,
    IdError,
    DepNotFound,
    DepExists,
    DepSelf,
}

/// The texts of a list of strings that may be absent.
pub open spec fn opt_texts(o: Option<Vec<String>>) -> Option<Seq<Seq<char>>> {
    match o {
        Some(v) => Some(texts(v@)),
        None => None,
    }
}

/// An issue as texts.
pub struct IssueView {
    pub id: Seq<char>,
    pub author: Seq<char>,
    pub creation_time: Timestamp,
    pub done_time: Option<Timestamp>,
    pub tags: Seq<Seq<char>>,
    pub state: State,
    pub dependencies: Option<Seq<Seq<char>>>,
    pub assignee: Option<Seq<char>>,
    pub description: Seq<char>,
    pub comments: Seq<CommentView>,
    pub dir: LocationView,
}

impl View for Issue {
    type V = IssueView;

    open spec fn view(&self) -> IssueView {
        IssueView {
            id: self.id@,
            author: self.author@,
            creation_time: self.creation_time,
            done_time: self.done_time,
            tags: texts(self.tags@),
            state: self.state,
            dependencies: opt_texts(self.dependencies),
            assignee: opt_text(self.assignee),
            description: self.description@,
            comments: comment_views(self.comments@),
            dir: self.dir@,
        }
    }
}

/// What can go wrong with an issue, as texts.
pub enum IssueFault {
    StdIoError(IoFault),
    EnvVarError,
    CommentError(CommentFault),
    ChronoParseError,
    IssueParseError,
    TagInvalidEscape { escape: Seq<char>, filename: Seq<char> },
    TagTrailingEscape { filename: Seq<char> },
    StateParseError,
    GitError(GitFault),
    EditorError,
    EmptyDescription,
    TagNotFound(Seq<char>),
    StdioIsNotTerminal,
    IdError,
    DepNotFound,
    DepExists,
    DepSelf,
}

impl View for IssueError {
    type V = IssueFault;

    open spec fn view(&self) -> IssueFault {
        match self {
            IssueError::StdIoError(f) => IssueFault::StdIoError(*f),
            IssueError::EnvVarError => IssueFault::EnvVarError,
            IssueError::CommentError(e) => IssueFault::CommentError(e@),
            IssueError::ChronoParseError => IssueFault::ChronoParseError,
            IssueError::IssueParseError => IssueFault::IssueParseError,
            IssueError::TagInvalidEscape { escape, filename } => IssueFault::TagInvalidEscape {
                escape: escape@,
                filename: filename@,
            },
            IssueError::TagTrailingEscape { filename } => IssueFault::TagTrailingEscape {
                filename: filename@,
            },
            IssueError::StateParseError => IssueFault::StateParseError,
            IssueError::GitError(e) => IssueFault::GitError(e@),
            IssueError::EditorError => IssueFault::EditorError,
            IssueError::EmptyDescription => IssueFault::EmptyDescription,
            IssueError::TagNotFound(t) => IssueFault::TagNotFound(t@),
            IssueError::StdioIsNotTerminal => IssueFault::StdioIsNotTerminal,
            IssueError::IdError => IssueFault::IdError,
            IssueError::DepNotFound => IssueFault::DepNotFound,
            IssueError::DepExists => IssueFault::DepExists,
            IssueError::DepSelf => IssueFault::DepSelf,
        }
    }
}

impl State {
    /// The token that stands for the state in a `state` file.
    pub open spec fn token(self) -> Seq<char> {
        match self {
            State::New => "new"@,
            State::Backlog => "backlog"@,
            State::Blocked => "blocked"@,
            State::InProgress => "inprogress"@,
            State::Done => "done"@,
            State::WontDo => "wontdo"@,
        }
    }

    /// The state that a lowercase token stands for, if it is one of the six.
    pub open spec fn of_token(t: Seq<char>) -> Option<State> {
        if t == "new"@ {
            Some(State::New)
        } else if t == "backlog"@ {
            Some(State::Backlog)
        } else if t == "blocked"@ {
            Some(State::Blocked)
        } else if t == "inprogress"@ {
            Some(State::InProgress)
        } else if t == "done"@ {
            Some(State::Done)
        } else if t == "wontdo"@ {
            Some(State::WontDo)
        } else {
            None
        }
    }

    /// The state that a text stands for, whatever its case.
    pub open spec fn parse(s: Seq<char>) -> Option<State> {
        State::of_token(lowercase(s))
    }

    /// Reads a token as it stands: one of the six lowercase tokens gives its
    /// state, anything else `StateParseError`.
    pub fn from_token(token: &str) -> (r: Result<State, IssueError>)
        ensures
            match State::of_token(token@) {
                Some(s) => r == Ok::<State, IssueError>(s),
                None => r == Err::<State, IssueError>(IssueError::StateParseError),
            },
    {
        if same_text(token, "new") {
            Ok(State::New)
        } else if same_text(token, "backlog") {
            Ok(State::Backlog)
        } else if same_text(token, "blocked") {
            Ok(State::Blocked)
        } else if same_text(token, "inprogress") {
            Ok(State::InProgress)
        } else if same_text(token, "done") {
            Ok(State::Done)
        } else if same_text(token, "wontdo") {
            Ok(State::WontDo)
        } else {
            Err(IssueError::StateParseError)
        }
    }

    /// Reads a state without regard to case: the text is made lowercase and
    /// then read as a token.
    pub fn from_str(s: &str) -> (r: Result<State, IssueError>)
        ensures
            match State::parse(s@) {
                Some(state) => r == Ok::<State, IssueError>(state),
                None => r == Err::<State, IssueError>(IssueError::StateParseError),
            },
    {
        let lower = s.to_lowercase();
        State::from_token(lower.as_str())
    }

    /// The token that stands for the state.
    pub fn as_str(&self) -> (s: &'static str)
        ensures
            s@ == self.token(),
    {
        match self {
            State::New => "new",
            State::Backlog => "backlog",
            State::Blocked => "blocked",
            State::InProgress => "inprogress",
            State::Done => "done",
            State::WontDo => "wontdo",
        }
    }

    /// The token that stands for the state, as an owned string.
    pub fn to_string(&self) -> (s: String)
        ensures
            s@ == self.token(),
    {
        self.as_str().to_owned()
    }
}

/// The title that a description gives: its first line, which is what stands
/// before its first line feed, or all of it where it holds none.
pub open spec fn title_of(description: Seq<char>) -> Seq<char> {
    first_line(description)
}

impl Issue {
    /// The title of the issue: the first line of its description.
    pub fn title(&self) -> (t: &str)
        ensures
            t@ == title_of(self.description@),
    {
        let text = chars_of(self.description.as_str());
        match find_char(&text, '\n') {
            Some(i) => {
                let t = self.description.as_str().substring_char(0, i);
                assert(self.description@.subrange(0, i as int) =~= self.description@.take(i as int));
                t
            },
            None => self.description.as_str(),
        }
    }

    /// Whether the issue has the tag.
    pub fn has_tag(&self, tag: &str) -> (r: bool)
        ensures
            r == self@.tags.contains(tag@),
    {
        let mut i: usize = 0;
        while i < self.tags.len()
            invariant
                i <= self.tags.len(),
                forall|k: int| 0 <= k < i ==> self.tags@[k]@ != tag@,
            decreases self.tags.len() - i,
        {
            if same_text(self.tags[i].as_str(), tag) {
                assert(texts(self.tags@)[i as int] == tag@);
                return true;
            }
            i += 1;
        }
        assert forall|k: int| 0 <= k < texts(self.tags@).len() implies texts(self.tags@)[k]
            != tag@ by {
            assert(texts(self.tags@)[k] == self.tags@[k]@);
        }
        false
    }

    /// Whether the issue has one of the tags.
    pub fn has_any_tag(&self, tags: &Vec<String>) -> (r: bool)
        ensures
            r == exists|k: int| 0 <= k < tags.len() && self@.tags.contains(#[trigger] tags@[k]@),
    {
        let mut i: usize = 0;
        while i < tags.len()
            invariant
                i <= tags.len(),
                forall|k: int| 0 <= k < i ==> !self@.tags.contains(#[trigger] tags@[k]@),
            decreases tags.len() - i,
        {
            if self.has_tag(tags[i].as_str()) {
                return true;
            }
            i += 1;
        }
        false
    }
}

/// Every state is read back from its own token.
pub proof fn lemma_state_token_round_trip(s: State)
    ensures
        State::of_token(s.token()) == Some(s),
{
    reveal_strlit("new");
    reveal_strlit("backlog");
    reveal_strlit("blocked");
    reveal_strlit("inprogress");
    reveal_strlit("done");
    reveal_strlit("wontdo");
    assert("new"@.len() == 3);
    assert("backlog"@.len() == 7);
    assert("blocked"@.len() == 7);
    assert("inprogress"@.len() == 10);
    assert("done"@.len() == 4);
    assert("wontdo"@.len() == 6);
    assert("backlog"@[1] == 'a');
    assert("blocked"@[1] == 'l');
}

} // verus!
