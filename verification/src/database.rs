//! Where a store's issues come from: a directory as it lies, or a branch,
//! which is read and written through a checkout of its own.

use vstd::prelude::*;
use crate::fs::Node;
use crate::git::CommandView;
use crate::git::GitCommand;
use crate::git::GitError;
use crate::git::Worktree;
use crate::issues::store_entries;
use crate::issues::Issues;
use crate::issues::ReadIssuesError;

verus! {

/// Why a store could not be opened or read.
#[derive(Debug, PartialEq)]
pub enum Error {
    IssuesError(ReadIssuesError),
    GitError(GitError),
}

/// Where the issues are kept.
#[derive(Debug, PartialEq, Eq)]
pub enum IssuesDatabaseSource<'a> {
    /// In this directory.
    Dir(&'a str),
    /// On this branch.
    Branch(&'a str),
}

/// What the store is opened for.
#[derive(Clone, Copy, Debug, PartialEq, Eq, Structural)]
pub enum IssuesDatabaseAccess {
    ReadOnly,
    ReadWrite,
}

/// An open store: the directory that holds the issues, and the checkout
/// that the directory is, where the issues are kept on a branch. Whoever
/// holds the store removes the checkout when done with it.
#[derive(Debug, PartialEq, Eq)]
pub struct IssuesDatabase {
    pub dir: String,
    pub worktree: Option<Worktree>,
}

/// How a store is opened.
#[derive(Debug, PartialEq, Eq)]
pub enum Opening {
    /// The store is open.
    Ready { database: IssuesDatabase },
    /// The store is open once this command has been run and has succeeded.
    Checkout { command: GitCommand, database: IssuesDatabase },
}

/// The command that adds a checkout of a branch: detached from the branch
/// or attached to it.
pub open spec fn checkout_command(path: Seq<char>, branch: Seq<char>, detached: bool) -> CommandView {
    if detached {
        CommandView { args: seq!["worktree"@, "add"@, "--detach"@, path, branch], dir: None }
    } else {
        CommandView { args: seq!["worktree"@, "add"@, path, branch], dir: None }
    }
}

/// Opens a store.
///
/// Issues in a directory are used where they lie. Issues on a branch are
/// used through a checkout at `checkout_dir`, a fresh directory that the
/// caller provides: detached from the branch for reading, so that the
/// branch cannot move, and attached to it for reading and writing.
pub fn make_issues_database(
    issues_database_source: &IssuesDatabaseSource,
    access_type: IssuesDatabaseAccess,
    checkout_dir: &str,
) -> (r: Opening)
    ensures
        match *issues_database_source {
            IssuesDatabaseSource::Dir(dir) => r matches Opening::Ready { database }
                && database.dir@ == dir@ && database.worktree is None,
            IssuesDatabaseSource::Branch(branch) => r matches Opening::Checkout {
                command,
                database,
            } && command@ == checkout_command(
                checkout_dir@,
                branch@,
                access_type == IssuesDatabaseAccess::ReadOnly,
            ) && database.dir@ == checkout_dir@ && (database.worktree matches Some(w) && w.path@
                == checkout_dir@),
        },
{
    match issues_database_source {
        IssuesDatabaseSource::Dir(dir) => Opening::Ready {
            database: IssuesDatabase { dir: (*dir).to_owned(), worktree: None },
        },
        IssuesDatabaseSource::Branch(branch) => {
            let (worktree, command) = match access_type {
                IssuesDatabaseAccess::ReadOnly => Worktree::new_detached(branch, checkout_dir),
                IssuesDatabaseAccess::ReadWrite => Worktree::new(branch, checkout_dir),
            };
            Opening::Checkout {
                command,
                database: IssuesDatabase {
                    dir: checkout_dir.to_owned(),
                    worktree: Some(worktree),
                },
            }
        },
    }
}

/// The branch that a store is synchronised on: the branch that holds the
/// issues. Issues that lie in a directory are not synchronised.
pub fn sync_branch<'a>(source: &IssuesDatabaseSource<'a>) -> (r: Option<&'a str>)
    ensures
        match *source {
            IssuesDatabaseSource::Dir(_) => r is None,
            IssuesDatabaseSource::Branch(branch) => r matches Some(b) && b@ == branch@,
        },
{
    match source {
        IssuesDatabaseSource::Dir(_) => None,
        IssuesDatabaseSource::Branch(branch) => Some(*branch),
    }
}

/// Reads the issues of an open store from what its directory held.
pub fn read_issues_database(database: &IssuesDatabase, entries: &Vec<Node>) -> (r: Result<
    Issues,
    Error,
>)
    ensures
        match store_entries(Map::empty(), database.dir@, entries@) {
            Ok(m) => r matches Ok(issues) && issues.wf() && issues@ == m,
            Err(e) => r matches Err(Error::IssuesError(x)) && x@ == e,
        },
{
    match Issues::new_from_dir(database.dir.as_str(), entries) {
        Ok(issues) => Ok(issues),
        Err(e) => Err(Error::IssuesError(e)),
    }
}

} // verus!
