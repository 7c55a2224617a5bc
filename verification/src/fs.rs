//! The file system as plain values: where a record lives, what a directory
//! held when it was read, and what a mutation asks to be written.
//!
//! Nothing here touches a disk. A caller reads a directory tree into `Node`
//! values and hands them to the loaders; the mutating operations hand back
//! `Action` values for the caller to carry out.

use vstd::prelude::*;
use crate::git::CommandView;
use crate::git::GitCommand;
use crate::git::GitOutput;
use crate::text::chars_of;

verus! {

/// Why a file system operation failed.
#[derive(Clone, Copy, Debug, PartialEq, Eq, Structural)]
pub enum IoFaultKind {
    NotFound,
    NotADirectory,
    IsADirectory,
    InvalidData,
    /// The name of the entry is no text.
    InvalidName,
    Other,
}

/// A failed file system operation, or a program that could not be started:
/// the kind of failure, and the operating system's error number where it
/// gave one.
#[derive(Clone, Copy, Debug, PartialEq, Eq, Structural)]
pub struct IoFault {
    pub kind: IoFaultKind,
    pub os_code: Option<i32>,
}

/// What joining a directory and a name gives: the name alone under the empty
/// directory, otherwise the two with exactly one `/` between them.
pub open spec fn joined(parent: Seq<char>, name: Seq<char>) -> Seq<char> {
    if parent.len() == 0 {
        name
    } else if parent.last() == '/' {
        parent + name
    } else {
        parent + seq!['/'] + name
    }
}

/// The path of `name` under the directory `parent`.
pub fn join(parent: &str, name: &str) -> (path: String)
    ensures
        path@ == joined(parent@, name@),
{
    let p = chars_of(parent);
    if p.len() == 0 {
        return name.to_owned();
    }
    let mut path = parent.to_owned();
    if p[p.len() - 1] != '/' {
        path.push('/');
    }
    path.append(name);
    path
}

/// A place in the file system: a directory and the name of an entry in it.
#[derive(Debug, PartialEq, Eq)]
pub struct Location {
    pub parent: String,
    pub name: String,
}

/// A location as texts.
pub struct LocationView {
    pub parent: Seq<char>,
    pub name: Seq<char>,
}

impl View for Location {
    type V = LocationView;

    open spec fn view(&self) -> LocationView {
        LocationView { parent: self.parent@, name: self.name@ }
    }
}

impl LocationView {
    /// The full path of the entry.
    pub open spec fn path(self) -> Seq<char> {
        joined(self.parent, self.name)
    }

    /// The location of the entry `name` inside this one.
    pub open spec fn child(self, name: Seq<char>) -> LocationView {
        LocationView { parent: self.path(), name }
    }
}

impl Location {
    /// The full path of the entry.
    pub open spec fn spec_path(&self) -> Seq<char> {
        joined(self.parent@, self.name@)
    }

    /// A location from its directory and name.
    pub fn new(parent: &str, name: &str) -> (loc: Location)
        ensures
            loc.parent@ == parent@,
            loc.name@ == name@,
    {
        Location { parent: parent.to_owned(), name: name.to_owned() }
    }

    /// A copy of the location.
    pub fn duplicate(&self) -> (loc: Location)
        ensures
            loc@ == self@,
    {
        Location { parent: self.parent.clone(), name: self.name.clone() }
    }

    /// The full path of the entry.
    pub fn path(&self) -> (path: String)
        ensures
            path@ == self.spec_path(),
    {
        join(self.parent.as_str(), self.name.as_str())
    }

    /// The location of the entry `name` inside this one.
    pub fn child(&self, name: &str) -> (loc: Location)
        ensures
            loc@ == self@.child(name@),
    {
        Location { parent: self.path(), name: name.to_owned() }
    }
}

/// One entry of a directory, as a caller found it on disk.
#[derive(Debug, PartialEq, Eq)]
pub enum Node {
    /// A file that was read as text.
    File { name: String, contents: String },
    /// A directory with its entries, and the answer to the history query for
    /// it where the caller made one.
    Dir { name: String, entries: Vec<Node>, history: Option<Result<GitOutput, IoFault>> },
    /// An entry that could not be read.
    Unreadable { name: String, fault: IoFault },
}

impl Node {
    /// The name of the entry.
    pub open spec fn spec_name(&self) -> Seq<char> {
        match self {
            Node::File { name, .. } => name@,
            Node::Dir { name, .. } => name@,
            Node::Unreadable { name, .. } => name@,
        }
    }

    /// What reading the entry as a text file gives: its contents, or the
    /// fault of trying.
    pub open spec fn spec_text(&self) -> Result<Seq<char>, IoFault> {
        match self {
            Node::File { contents, .. } => Ok(contents@),
            Node::Dir { .. } => Err(IoFault { kind: IoFaultKind::IsADirectory, os_code: None }),
            Node::Unreadable { fault, .. } => Err(*fault),
        }
    }

    /// What listing the entry as a directory gives: its entries, or the
    /// fault of trying.
    pub open spec fn spec_entries(&self) -> Result<Seq<Node>, IoFault> {
        match self {
            Node::File { .. } => Err(IoFault { kind: IoFaultKind::NotADirectory, os_code: None }),
            Node::Dir { entries, .. } => Ok(entries@),
            Node::Unreadable { fault, .. } => Err(*fault),
        }
    }

    /// Reads the entry as a text file.
    pub fn text(&self) -> (r: Result<&String, IoFault>)
        ensures
            match self.spec_text() {
                Ok(t) => r matches Ok(s) && s@ == t,
                Err(f) => r matches Err(g) && g == f,
            },
    {
        match self {
            Node::File { contents, .. } => Ok(contents),
            Node::Dir { .. } => Err(IoFault { kind: IoFaultKind::IsADirectory, os_code: None }),
            Node::Unreadable { fault, .. } => Err(*fault),
        }
    }

    /// Lists the entry as a directory.
    pub fn entries(&self) -> (r: Result<&Vec<Node>, IoFault>)
        ensures
            match self.spec_entries() {
                Ok(e) => r matches Ok(v) && v@ == e,
                Err(f) => r matches Err(g) && g == f,
            },
    {
        match self {
            Node::File { .. } => Err(IoFault { kind: IoFaultKind::NotADirectory, os_code: None }),
            Node::Dir { entries, .. } => Ok(entries),
            Node::Unreadable { fault, .. } => Err(*fault),
        }
    }

    /// The name of the entry.
    pub fn name(&self) -> (name: &String)
        ensures
            name@ == self.spec_name(),
    {
        match self {
            Node::File { name, .. } => name,
            Node::Dir { name, .. } => name,
            Node::Unreadable { name, .. } => name,
        }
    }
}

/// One thing that a mutation asks its caller to do.
#[derive(Debug, PartialEq, Eq)]
pub enum Action {
    /// Create a directory that must not exist yet.
    CreateDir { path: String },
    /// Create a directory unless it exists.
    EnsureDir { path: String },
    /// Remove a directory with all it holds, if it exists, and create it empty.
    ResetDir { path: String },
    /// Remove a directory with all it holds.
    RemoveDir { path: String },
    /// Create or replace a file with the given contents.
    WriteFile { path: String, contents: String },
    /// Run the version control engine.
    Run { command: GitCommand },
    /// Have the user write the file in an editor, as an editing session
    /// does; `existed` says whether the file is there already.
    Edit { file: Location, existed: bool },
}

/// An action as texts.
pub enum ActionView {
    CreateDir { path: Seq<char> },
    EnsureDir { path: Seq<char> },
    ResetDir { path: Seq<char> },
    RemoveDir { path: Seq<char> },
    WriteFile { path: Seq<char>, contents: Seq<char> },
    Run { command: CommandView },
    Edit { file: LocationView, existed: bool },
}

impl View for Action {
    type V = ActionView;

    open spec fn view(&self) -> ActionView {
        match self {
            Action::CreateDir { path } => ActionView::CreateDir { path: path@ },
            Action::EnsureDir { path } => ActionView::EnsureDir { path: path@ },
            Action::ResetDir { path } => ActionView::ResetDir { path: path@ },
            Action::RemoveDir { path } => ActionView::RemoveDir { path: path@ },
            Action::WriteFile { path, contents } => ActionView::WriteFile {
                path: path@,
                contents: contents@,
            },
            Action::Run { command } => ActionView::Run { command: command@ },
            Action::Edit { file, existed } => ActionView::Edit { file: file@, existed: *existed },
        }
    }
}

/// The views of a list of actions.
pub open spec fn action_views(v: Seq<Action>) -> Seq<ActionView> {
    v.map_values(|a: Action| a@)
}

impl Action {
    /// A copy of the action.
    pub fn duplicate(&self) -> (a: Action)
        ensures
            a@ == self@,
    {
        match self {
            Action::CreateDir { path } => Action::CreateDir { path: path.clone() },
            Action::EnsureDir { path } => Action::EnsureDir { path: path.clone() },
            Action::ResetDir { path } => Action::ResetDir { path: path.clone() },
            Action::RemoveDir { path } => Action::RemoveDir { path: path.clone() },
            Action::WriteFile { path, contents } => Action::WriteFile {
                path: path.clone(),
                contents: contents.clone(),
            },
            Action::Run { command } => Action::Run { command: command.duplicate() },
            Action::Edit { file, existed } => Action::Edit {
                file: file.duplicate(),
                existed: *existed,
            },
        }
    }
}

} // verus!
