//! The version control engine seen from outside: the commands this library
//! asks for, what came back, and what that means.
//!
//! No function here runs anything. Each operation of the engine is a
//! `GitCommand` for the caller to run, and a verified reading of the
//! `Outcome` that the caller hands back.

use vstd::prelude::*;
use crate::change::Script;
use crate::fs::join;
use crate::fs::joined;
use crate::fs::Action;
use crate::fs::ActionView;
use crate::fs::IoFault;
use crate::fs::Location;
use crate::text::chars_of;
use crate::text::find_char;
use crate::text::first_line;
use crate::text::first_line_of;
use crate::text::integer_of;
use crate::text::join2;
use crate::text::join3;
use crate::text::last_word;
use crate::text::last_word_of;
use crate::text::lemma_texts_push;
use crate::text::opt_text;
use crate::text::parse_i64;
use crate::text::rfind_char;
use crate::text::string_of_range;
use crate::text::texts;
use crate::timestamp::Timestamp;

verus! {

/// What can go wrong around the version control engine.
#[derive(Debug, PartialEq, Eq)]
pub enum GitError {
    /// The engine could not be started.
    StdIoError(IoFault),
    /// A number in the engine's output could not be read.
    ParseIntError,
    /// Fetching from a remote failed; `error` is what the engine said.
    FetchError { remote: String, error: String },
    /// The engine ran and reported failure.
    Oops,
}

/// What can go wrong around the engine, as texts.
pub enum GitFault {
    StdIoError(IoFault),
    ParseIntError,
    FetchError { remote: Seq<char>, error: Seq<char> },
    Oops,
}

impl View for GitError {
    type V = GitFault;

    open spec fn view(&self) -> GitFault {
        match self {
            GitError::StdIoError(f) => GitFault::StdIoError(*f),
            GitError::ParseIntError => GitFault::ParseIntError,
            GitError::FetchError { remote, error } => GitFault::FetchError {
                remote: remote@,
                error: error@,
            },
            GitError::Oops => GitFault::Oops,
        }
    }
}

/// One invocation of the engine: its arguments, and the directory to run it
/// in where that matters.
#[derive(Debug, PartialEq, Eq)]
pub struct GitCommand {
    pub args: Vec<String>,
    pub dir: Option<String>,
}

/// What an invocation of the engine left behind.
#[derive(Debug, PartialEq, Eq)]
pub struct GitOutput {
    pub success: bool,
    pub stdout: String,
    pub stderr: String,
}

/// Why an editing session brought no description.
#[derive(Debug, PartialEq, Eq)]
pub enum EditFault {
    /// Input or output is no terminal.
    NotTerminal,
    /// The variable that names the editor holds no valid text.
    EnvVar,
    /// The editor ran and reported failure.
    Editor,
    /// The user left the file empty, or left none.
    Empty,
    /// The file could not be put back as it was.
    Git(GitError),
}

/// Why an editing session brought no description, as texts.
pub enum EditFaultView {
    NotTerminal,
    EnvVar,
    Editor,
    Empty,
    Git(GitFault),
}

impl View for EditFault {
    type V = EditFaultView;

    open spec fn view(&self) -> EditFaultView {
        match self {
            EditFault::NotTerminal => EditFaultView::NotTerminal,
            EditFault::EnvVar => EditFaultView::EnvVar,
            EditFault::Editor => EditFaultView::Editor,
            EditFault::Empty => EditFaultView::Empty,
            EditFault::Git(e) => EditFaultView::Git(e@),
        }
    }
}

/// How an action ended, as the caller reports it.
#[derive(Debug, PartialEq, Eq)]
pub enum Outcome {
    /// A file system action was carried out, or an editing session brought
    /// a description.
    Done,
    /// A file system action failed, or a program could not be started.
    Failed(IoFault),
    /// The engine ran.
    Exited(GitOutput),
    /// An editing session brought no description.
    Abandoned(EditFault),
}

/// An outcome as texts.
pub enum OutcomeView {
    Done,
    Failed(IoFault),
    Exited(GitOutput),
    Abandoned(EditFaultView),
}

impl View for Outcome {
    type V = OutcomeView;

    open spec fn view(&self) -> OutcomeView {
        match self {
            Outcome::Done => OutcomeView::Done,
            Outcome::Failed(f) => OutcomeView::Failed(*f),
            Outcome::Exited(o) => OutcomeView::Exited(*o),
            Outcome::Abandoned(e) => OutcomeView::Abandoned(e@),
        }
    }
}

/// A command as texts.
pub struct CommandView {
    pub args: Seq<Seq<char>>,
    pub dir: Option<Seq<char>>,
}

impl View for GitCommand {
    type V = CommandView;

    open spec fn view(&self) -> CommandView {
        CommandView { args: texts(self.args@), dir: opt_text(self.dir) }
    }
}

impl GitCommand {
    /// Whether the command has these arguments and this working directory.
    pub open spec fn is(&self, args: Seq<Seq<char>>, dir: Option<Seq<char>>) -> bool {
        self@ == (CommandView { args, dir })
    }

    /// A copy of the command.
    pub fn duplicate(&self) -> (c: GitCommand)
        ensures
            c@ == self@,
    {
        let mut args: Vec<String> = Vec::new();
        let mut i: usize = 0;
        while i < self.args.len()
            invariant
                i <= self.args.len(),
                texts(args@) == texts(self.args@).take(i as int),
            decreases self.args.len() - i,
        {
            let arg = self.args[i].clone();
            proof {
                lemma_texts_push(args@, arg);
                assert(texts(self.args@).take(i + 1) =~= texts(self.args@).take(i as int).push(
                    arg@,
                ));
            }
            args.push(arg);
            i += 1;
        }
        assert(texts(self.args@).take(self.args.len() as int) =~= texts(self.args@));
        let dir = match &self.dir {
            Some(d) => Some(d.clone()),
            None => None,
        };
        GitCommand { args, dir }
    }
}

/// The texts of a list of string slices.
pub open spec fn slices(w: Seq<&str>) -> Seq<Seq<char>> {
    w.map_values(|s: &str| s@)
}

/// The command with the given words as arguments.
pub(crate) fn command(words: Vec<&str>, dir: Option<&str>) -> (c: GitCommand)
    ensures
        c.is(
            slices(words@),
            match dir {
                Some(d) => Some(d@),
                None => None,
            },
        ),
{
    let mut args: Vec<String> = Vec::new();
    let mut i: usize = 0;
    while i < words.len()
        invariant
            i <= words.len(),
            texts(args@) == slices(words@).take(i as int),
        decreases words.len() - i,
    {
        let arg = words[i].to_owned();
        proof {
            lemma_texts_push(args@, arg);
            assert(slices(words@).take(i + 1) =~= slices(words@).take(i as int).push(arg@));
        }
        args.push(arg);
        i += 1;
    }
    assert(slices(words@).take(words.len() as int) =~= slices(words@));
    let dir = match dir {
        Some(d) => Some(d.to_owned()),
        None => None,
    };
    GitCommand { args, dir }
}

/// What the engine's run means for an operation that needs it to succeed:
/// the output if it ran and reported success, `StdIoError` if it could not be
/// started, `Oops` in every other case.
pub open spec fn checked(outcome: Outcome) -> Result<GitOutput, GitError> {
    match outcome {
        Outcome::Exited(o) => if o.success {
            Ok(o)
        } else {
            Err(GitError::Oops)
        },
        Outcome::Failed(f) => Err(GitError::StdIoError(f)),
        _ => Err(GitError::Oops),
    }
}

/// Reads the engine's run for an operation that needs it to succeed.
pub fn check(outcome: Outcome) -> (r: Result<GitOutput, GitError>)
    ensures
        r == checked(outcome),
{
    match outcome {
        Outcome::Exited(o) => if o.success {
            Ok(o)
        } else {
            Err(GitError::Oops)
        },
        Outcome::Failed(f) => Err(GitError::StdIoError(f)),
        _ => Err(GitError::Oops),
    }
}

/// The lines to show a human when the engine reported failure: what it wrote
/// to its two output streams.
pub fn failure_report(output: &GitOutput) -> (lines: Vec<String>)
    ensures
        texts(lines@) == seq!["stdout: "@ + output.stdout@, "stderr: "@ + output.stderr@],
{
    let mut out = "stdout: ".to_owned();
    out.append(output.stdout.as_str());
    let mut err = "stderr: ".to_owned();
    err.append(output.stderr.as_str());
    let mut lines: Vec<String> = Vec::new();
    lines.push(out);
    lines.push(err);
    assert(texts(lines@) =~= seq!["stdout: "@ + output.stdout@, "stderr: "@ + output.stderr@]);
    lines
}

/// Adds a checkout of `branch` at `path`: attached to the branch for reading
/// and writing, detached from it for reading alone.
pub fn worktree_add(path: &str, branch: &str, detached: bool) -> (c: GitCommand)
    ensures
        detached ==> c.is(seq!["worktree"@, "add"@, "--detach"@, path@, branch@], None),
        !detached ==> c.is(seq!["worktree"@, "add"@, path@, branch@], None),
{
    if detached {
        let w = vec!["worktree", "add", "--detach", path, branch];
        assert(slices(w@) =~= seq!["worktree"@, "add"@, "--detach"@, path@, branch@]);
        command(w, None)
    } else {
        let w = vec!["worktree", "add", path, branch];
        assert(slices(w@) =~= seq!["worktree"@, "add"@, path@, branch@]);
        command(w, None)
    }
}

/// A checkout of a branch in a directory of its own. It lasts as long as
/// whoever holds it needs it, and is then removed by `remove`.
#[derive(Debug, PartialEq, Eq)]
pub struct Worktree {
    pub path: String,
}

impl Worktree {
    /// A checkout of `branch` at `path`, attached to the branch, and the
    /// command that makes it.
    pub fn new(branch: &str, path: &str) -> (r: (Worktree, GitCommand))
        ensures
            r.0.path@ == path@,
            r.1.is(seq!["worktree"@, "add"@, path@, branch@], None),
    {
        (Worktree { path: path.to_owned() }, worktree_add(path, branch, false))
    }

    /// A checkout of `branch` at `path`, detached from the branch, and the
    /// command that makes it.
    pub fn new_detached(branch: &str, path: &str) -> (r: (Worktree, GitCommand))
        ensures
            r.0.path@ == path@,
            r.1.is(seq!["worktree"@, "add"@, "--detach"@, path@, branch@], None),
    {
        (Worktree { path: path.to_owned() }, worktree_add(path, branch, true))
    }

    /// The directory of the checkout.
    pub fn path(&self) -> (p: &str)
        ensures
            p@ == self.path@,
    {
        self.path.as_str()
    }

    /// The command that removes the checkout, whatever state it is in, and
    /// takes it off the engine's list of checkouts.
    pub fn remove(&self) -> (c: GitCommand)
        ensures
            c.is(seq!["worktree"@, "remove"@, "--force"@, self.path@], None),
    {
        worktree_remove(self.path.as_str())
    }
}

/// Adds a checkout of `branch`, attached to it, at `worktree_dir`.
pub fn checkout_branch_in_worktree(branch: &str, worktree_dir: &str) -> (c: GitCommand)
    ensures
        c.is(seq!["worktree"@, "add"@, worktree_dir@, branch@], None),
{
    worktree_add(worktree_dir, branch, false)
}

/// Removes the checkout at `path`, whatever state it is in.
pub fn worktree_remove(path: &str) -> (c: GitCommand)
    ensures
        c.is(seq!["worktree"@, "remove"@, "--force"@, path@], None),
{
    let w = vec!["worktree", "remove", "--force", path];
    assert(slices(w@) =~= seq!["worktree"@, "remove"@, "--force"@, path@]);
    command(w, None)
}

/// Forgets the checkouts whose directories are gone.
pub fn git_worktree_prune() -> (c: GitCommand)
    ensures
        c.is(seq!["worktree"@, "prune"@], None),
{
    let w = vec!["worktree", "prune"];
    assert(slices(w@) =~= seq!["worktree"@, "prune"@]);
    command(w, None)
}

/// Deletes a branch, merged or not.
pub fn git_remove_branch(branch: &str) -> (c: GitCommand)
    ensures
        c.is(seq!["branch"@, "-D"@, branch@], None),
{
    let w = vec!["branch", "-D", branch];
    assert(slices(w@) =~= seq!["branch"@, "-D"@, branch@]);
    command(w, None)
}

/// Asks whether a ref of this name exists; the answer is `git_branch_exists`.
pub fn show_ref(branch: &str) -> (c: GitCommand)
    ensures
        c.is(seq!["show-ref"@, "--quiet"@, branch@], None),
{
    let w = vec!["show-ref", "--quiet", branch];
    assert(slices(w@) =~= seq!["show-ref"@, "--quiet"@, branch@]);
    command(w, None)
}

/// Whether the ref that `show_ref` asked for exists: the engine says so by
/// its exit status. `StdIoError` if it could not be started.
pub fn git_branch_exists(outcome: Outcome) -> (r: Result<bool, GitError>)
    ensures
        r == match outcome {
            Outcome::Exited(o) => Ok::<bool, GitError>(o.success),
            Outcome::Failed(f) => Err::<bool, GitError>(GitError::StdIoError(f)),
            _ => Err::<bool, GitError>(GitError::Oops),
        },
{
    match outcome {
        Outcome::Exited(o) => Ok(o.success),
        Outcome::Failed(f) => Err(GitError::StdIoError(f)),
        _ => Err(GitError::Oops),
    }
}

/// Asks for the changes in the checkout at `dir`, staged or not, leaving
/// untracked files out; the answer is `worktree_is_dirty`.
pub fn status(dir: &str) -> (c: GitCommand)
    ensures
        c.is(seq!["status"@, "--porcelain"@, "--untracked-files=no"@], Some(dir@)),
{
    let w = vec!["status", "--porcelain", "--untracked-files=no"];
    assert(slices(w@) =~= seq!["status"@, "--porcelain"@, "--untracked-files=no"@]);
    command(w, Some(dir))
}

/// Whether the checkout that `status` asked about holds changes: it does as
/// soon as the engine printed anything at all, whatever its exit status.
/// `StdIoError` if it could not be started.
pub fn worktree_is_dirty(outcome: Outcome) -> (r: Result<bool, GitError>)
    ensures
        r == match outcome {
            Outcome::Exited(o) => Ok::<bool, GitError>(o.stdout@.len() > 0),
            Outcome::Failed(f) => Err::<bool, GitError>(GitError::StdIoError(f)),
            _ => Err::<bool, GitError>(GitError::Oops),
        },
{
    match outcome {
        Outcome::Exited(o) => Ok(!o.stdout.as_str().is_empty()),
        Outcome::Failed(f) => Err(GitError::StdIoError(f)),
        _ => Err(GitError::Oops),
    }
}

/// Stages what lies at `file`, from the directory that holds it.
pub fn add(file: &Location) -> (c: GitCommand)
    ensures
        c.is(seq!["add"@, file.spec_path()], Some(file.parent@)),
{
    let path = file.path();
    let w = vec!["add", path.as_str()];
    assert(slices(w@) =~= seq!["add"@, file.spec_path()]);
    command(w, Some(file.parent.as_str()))
}

/// Discards the uncommitted changes to `file`, from the directory that holds it.
pub fn restore_file(file: &Location) -> (c: GitCommand)
    ensures
        c.is(seq!["restore"@, file.spec_path()], Some(file.parent@)),
{
    let path = file.path();
    let w = vec!["restore", path.as_str()];
    assert(slices(w@) =~= seq!["restore"@, file.spec_path()]);
    command(w, Some(file.parent.as_str()))
}

/// Commits what is staged in the checkout at `dir`, with the message `msg`.
pub fn commit(dir: &str, msg: &str) -> (c: GitCommand)
    ensures
        c.is(seq!["commit"@, "-m"@, msg@], Some(dir@)),
{
    let w = vec!["commit", "-m", msg];
    assert(slices(w@) =~= seq!["commit"@, "-m"@, msg@]);
    command(w, Some(dir))
}

/// Asks for the commits that touched `path`, newest first, one per line:
/// the author's time in seconds since the epoch, a space, and the author's
/// name and address. The answer is read by `git_log_oldest_author_timestamp`.
pub fn log_authors(path: &Location) -> (c: GitCommand)
    ensures
        c.is(seq!["log"@, "--pretty=format:%at %an <%ae>"@, "--"@, path.name@], Some(path.parent@)),
{
    let w = vec!["log", "--pretty=format:%at %an <%ae>", "--", path.name.as_str()];
    assert(slices(w@) =~= seq!["log"@, "--pretty=format:%at %an <%ae>"@, "--"@, path.name@]);
    command(w, Some(path.parent.as_str()))
}

/// The last line of a text: what follows its last line feed, or all of it.
pub open spec fn last_line(s: Seq<char>) -> Seq<char> {
    match s.index_of_last('\n') {
        Some(i) => s.skip(i + 1),
        None => s,
    }
}

/// The author and time of the oldest commit in the answer to `log_authors`.
///
/// The oldest commit stands in the last line. The line is cut at its first
/// space: what stands before is the time, what follows is the author.
pub open spec fn oldest_author_timestamp(output: GitOutput) -> Result<
    (Seq<char>, Timestamp),
    GitError,
> {
    let line = last_line(output.stdout@);
    if !output.success {
        Err(GitError::Oops)
    } else {
        match line.index_of_first(' ') {
            None => Err(GitError::Oops),
            Some(i) => match integer_of(line.take(i)) {
                None => Err(GitError::ParseIntError),
                Some(n) => Ok((line.skip(i + 1), Timestamp { secs: n as i64, nanos: 0 })),
            },
        }
    }
}

/// Reads the answer to `log_authors`: the author and the time of the oldest
/// commit that touched the path.
///
/// Fails with `Oops` if the engine reported failure or the last line of its
/// output holds no space (as when no commit touched the path), and with
/// `ParseIntError` if what stands before the space is not a 64-bit integer.
pub fn git_log_oldest_author_timestamp(output: &GitOutput) -> (r: Result<
    (String, Timestamp),
    GitError,
>)
    ensures
        match oldest_author_timestamp(*output) {
            Ok((author, time)) => r matches Ok(p) && p.0@ == author && p.1 == time,
            Err(e) => r == Err::<(String, Timestamp), GitError>(e),
        },
{
    if !output.success {
        return Err(GitError::Oops);
    }
    let all = chars_of(output.stdout.as_str());
    proof {
        all@.index_of_last_ensures('\n');
    }
    let start: usize = match rfind_char(&all, '\n') {
        Some(i) => i + 1,
        None => 0,
    };
    let mut line: Vec<char> = Vec::new();
    let mut k: usize = start;
    assert(line@ =~= all@.subrange(start as int, k as int));
    while k < all.len()
        invariant
            start <= k <= all.len(),
            line@ == all@.subrange(start as int, k as int),
        decreases all.len() - k,
    {
        line.push(all[k]);
        k += 1;
        assert(all@.subrange(start as int, k as int) =~= all@.subrange(start as int, k - 1).push(
            all@[k - 1],
        ));
    }
    proof {
        all@.index_of_last_ensures('\n');
        assert(all@.subrange(start as int, all.len() as int) =~= all@.skip(start as int));
        assert(all@.skip(0) =~= all@);
        assert(line@ == last_line(output.stdout@));
    }
    let space = match find_char(&line, ' ') {
        Some(i) => i,
        None => {
            return Err(GitError::Oops);
        },
    };
    proof {
        line@.index_of_first_ensures(' ');
    }
    let mut digits: Vec<char> = Vec::new();
    let mut j: usize = 0;
    while j < space
        invariant
            j <= space < line.len(),
            digits@ == line@.take(j as int),
        decreases space - j,
    {
        digits.push(line[j]);
        j += 1;
        assert(line@.take(j as int) =~= line@.take(j - 1).push(line@[j - 1]));
    }
    let secs = match parse_i64(&digits) {
        Some(n) => n,
        None => {
            return Err(GitError::ParseIntError);
        },
    };
    let author = string_of_range(&line, space + 1, line.len());
    assert(line@.subrange(space + 1, line.len() as int) =~= line@.skip(space + 1));
    Ok((author, Timestamp::from_unix_seconds(secs)))
}

/// The author and time that the history of a directory gives, from the
/// answer to `log_authors` as the caller recorded it: `Oops` where the caller
/// did not ask, `StdIoError` where the engine could not be started.
pub open spec fn provenance(history: Option<Result<GitOutput, IoFault>>) -> Result<
    (Seq<char>, Timestamp),
    GitFault,
> {
    match history {
        None => Err(GitFault::Oops),
        Some(Err(f)) => Err(GitFault::StdIoError(f)),
        Some(Ok(output)) => match oldest_author_timestamp(output) {
            Ok(p) => Ok(p),
            Err(e) => Err(e@),
        },
    }
}

/// Reads the author and time of a directory's oldest commit from the answer
/// that the caller recorded.
pub fn read_provenance(history: &Option<Result<GitOutput, IoFault>>) -> (r: Result<
    (String, Timestamp),
    GitError,
>)
    ensures
        match provenance(*history) {
            Ok((author, time)) => r matches Ok(p) && p.0@ == author && p.1 == time,
            Err(e) => r matches Err(x) && x@ == e,
        },
{
    match history {
        None => Err(GitError::Oops),
        Some(Err(f)) => Err(GitError::StdIoError(*f)),
        Some(Ok(output)) => git_log_oldest_author_timestamp(output),
    }
}

/// The steps that make a branch without history in a fresh checkout at
/// `worktree_path`: a checkout of `HEAD` is added there and turned into an
/// empty branch of the given name, which gets a note of what it is for as
/// its first commit.
pub open spec fn orphan_branch_steps(branch: Seq<char>, path: Seq<char>) -> Seq<ActionView> {
    seq![
        ActionView::Run {
            command: CommandView { args: seq!["worktree"@, "add"@, path, "HEAD"@], dir: None },
        },
        ActionView::Run {
            command: CommandView { args: seq!["switch"@, "--orphan"@, branch], dir: Some(path) },
        },
        ActionView::WriteFile {
            path: joined(path, "README.md"@),
            contents: "This branch is used by entomologist to track issues."@,
        },
        ActionView::Run {
            command: CommandView { args: seq!["add"@, "README.md"@], dir: Some(path) },
        },
        ActionView::Run {
            command: CommandView {
                args: seq!["commit"@, "-m"@, "create entomologist issue branch"@],
                dir: Some(path),
            },
        },
    ]
}

/// The script that makes a branch without history in a fresh checkout at
/// `worktree_path`.
pub fn create_orphan_branch_at_path(branch: &str, worktree_path: &str) -> (script: Script)
    ensures
        script@ == orphan_branch_steps(branch@, worktree_path@),
{
    let mut steps: Vec<Action> = Vec::new();
    let w = vec!["worktree", "add", worktree_path, "HEAD"];
    assert(slices(w@) =~= seq!["worktree"@, "add"@, worktree_path@, "HEAD"@]);
    steps.push(Action::Run { command: command(w, None) });
    let w = vec!["switch", "--orphan", branch];
    assert(slices(w@) =~= seq!["switch"@, "--orphan"@, branch@]);
    steps.push(Action::Run { command: command(w, Some(worktree_path)) });
    steps.push(
        Action::WriteFile {
            path: join(worktree_path, "README.md"),
            contents: "This branch is used by entomologist to track issues.".to_owned(),
        },
    );
    let w = vec!["add", "README.md"];
    assert(slices(w@) =~= seq!["add"@, "README.md"@]);
    steps.push(Action::Run { command: command(w, Some(worktree_path)) });
    let w = vec!["commit", "-m", "create entomologist issue branch"];
    assert(slices(w@) =~= seq!["commit"@, "-m"@, "create entomologist issue branch"@]);
    steps.push(Action::Run { command: command(w, Some(worktree_path)) });
    let script = Script { steps };
    assert(script@ =~= orphan_branch_steps(branch@, worktree_path@));
    script
}

/// The script that makes a branch without history: the branch is made in a
/// checkout at `worktree_path`, a directory that the caller has made for
/// this alone; then the checkout is removed and forgotten.
pub fn create_orphan_branch(branch: &str, worktree_path: &str) -> (script: Script)
    ensures
        script@ == orphan_branch_steps(branch@, worktree_path@) + seq![
            ActionView::RemoveDir { path: worktree_path@ },
            ActionView::Run { command: CommandView { args: seq!["worktree"@, "prune"@], dir: None } },
        ],
{
    let mut script = create_orphan_branch_at_path(branch, worktree_path);
    script.steps.push(Action::RemoveDir { path: worktree_path.to_owned() });
    script.steps.push(Action::Run { command: git_worktree_prune() });
    assert(script@ =~= orphan_branch_steps(branch@, worktree_path@) + seq![
        ActionView::RemoveDir { path: worktree_path@ },
        ActionView::Run { command: CommandView { args: seq!["worktree"@, "prune"@], dir: None } },
    ]);
    script
}

/// The script that stages one file of an issue and commits it: the file
/// `name` in the directory of the issue at `issue`.
pub fn git_commit_file(issue: &Location, name: &str) -> (script: Script)
    ensures
        script@ == seq![
            ActionView::Run {
                command: CommandView { args: seq!["add"@, name@], dir: Some(issue@.path()) },
            },
            ActionView::Run {
                command: CommandView {
                    args: seq![
                        "commit"@,
                        "-m"@,
                        "update '"@ + name@ + "' in issue "@ + issue@.name,
                    ],
                    dir: Some(issue@.path()),
                },
            },
        ],
{
    let dir = issue.path();
    let mut steps: Vec<Action> = Vec::new();
    let w = vec!["add", name];
    assert(slices(w@) =~= seq!["add"@, name@]);
    steps.push(Action::Run { command: command(w, Some(dir.as_str())) });
    let mut message = join3("update '", name, "' in issue ");
    message.append(issue.name.as_str());
    steps.push(Action::Run { command: commit(dir.as_str(), message.as_str()) });
    let script = Script { steps };
    assert(script@ =~= seq![
        ActionView::Run {
            command: CommandView { args: seq!["add"@, name@], dir: Some(issue@.path()) },
        },
        ActionView::Run {
            command: CommandView {
                args: seq!["commit"@, "-m"@, "update '"@ + name@ + "' in issue "@ + issue@.name],
                dir: Some(issue@.path()),
            },
        },
    ]);
    script
}

/// How far the search for a branch has come: the command whose outcome is
/// awaited.
#[derive(Clone, Copy, Debug, PartialEq, Eq, Structural)]
pub enum EnsureStage {
    /// Nothing has been asked for yet.
    Start,
    /// The engine is being asked for a local branch of the name.
    Local,
    /// The engine is being asked for any ref of the name.
    Any,
    /// A local branch is being made from a remote one.
    Create,
}

/// What a step of the search for a branch answers.
#[derive(Debug, PartialEq, Eq)]
pub enum EnsureStep {
    /// Run this command and come back at this stage.
    Run { stage: EnsureStage, command: GitCommand },
    /// No ref of the name exists: make the branch without history, as
    /// `create_orphan_branch` does.
    CreateOrphan,
    /// The search is over.
    Done { result: Result<(), GitError> },
}

/// The answer of a step of the search, as texts.
pub enum EnsureStepView {
    Run { stage: EnsureStage, command: CommandView },
    CreateOrphan,
    Done { result: Result<(), GitFault> },
}

impl View for EnsureStep {
    type V = EnsureStepView;

    open spec fn view(&self) -> EnsureStepView {
        match self {
            EnsureStep::Run { stage, command } => EnsureStepView::Run {
                stage: *stage,
                command: command@,
            },
            EnsureStep::CreateOrphan => EnsureStepView::CreateOrphan,
            EnsureStep::Done { result } => EnsureStepView::Done {
                result: match result {
                    Ok(()) => Ok(()),
                    Err(e) => Err(e@),
                },
            },
        }
    }
}

/// One step of making sure that a local branch of a name exists.
///
/// 1. The engine is asked for the local branch. If it exists, that is all.
/// 2. The engine is asked for any ref of the name. If there is none, the
///    branch is to be made without history.
/// 3. Otherwise the first line of the answer names a remote branch as its
///    last word, and the local branch is made from that.
pub open spec fn ensure_step(branch: Seq<char>, stage: EnsureStage, outcome: Outcome) -> EnsureStepView {
    match stage {
        EnsureStage::Start => EnsureStepView::Run {
            stage: EnsureStage::Local,
            command: CommandView {
                args: seq!["show-ref"@, "--quiet"@, "refs/heads/"@ + branch],
                dir: None,
            },
        },
        EnsureStage::Local => match outcome {
            Outcome::Exited(o) => if o.success {
                EnsureStepView::Done { result: Ok(()) }
            } else {
                EnsureStepView::Run {
                    stage: EnsureStage::Any,
                    command: CommandView { args: seq!["show-ref"@, branch], dir: None },
                }
            },
            Outcome::Failed(f) => EnsureStepView::Done { result: Err(GitFault::StdIoError(f)) },
            _ => EnsureStepView::Done { result: Err(GitFault::Oops) },
        },
        EnsureStage::Any => match outcome {
            Outcome::Exited(o) => if o.success {
                match last_word(first_line(o.stdout@)) {
                    Some(remote_branch) => EnsureStepView::Run {
                        stage: EnsureStage::Create,
                        command: CommandView {
                            args: seq!["branch"@, branch, remote_branch],
                            dir: None,
                        },
                    },
                    None => EnsureStepView::Done { result: Err(GitFault::Oops) },
                }
            } else {
                EnsureStepView::CreateOrphan
            },
            Outcome::Failed(f) => EnsureStepView::Done { result: Err(GitFault::StdIoError(f)) },
            _ => EnsureStepView::Done { result: Err(GitFault::Oops) },
        },
        EnsureStage::Create => match checked(outcome) {
            Ok(_) => EnsureStepView::Done { result: Ok(()) },
            Err(e) => EnsureStepView::Done { result: Err(e@) },
        },
    }
}

/// One step of making sure that a local branch of a name exists.
///
/// Call it first at `EnsureStage::Start`, with any outcome; then run the
/// command that each `EnsureStep::Run` holds and call again at the stage it
/// names, with the outcome of that command.
pub fn ensure_branch_exists(branch: &str, stage: EnsureStage, outcome: Outcome) -> (step: EnsureStep)
    ensures
        step@ == ensure_step(branch@, stage, outcome),
{
    match stage {
        EnsureStage::Start => {
            let local = join2("refs/heads/", branch);
            EnsureStep::Run { stage: EnsureStage::Local, command: show_ref(local.as_str()) }
        },
        EnsureStage::Local => match outcome {
            Outcome::Exited(o) => if o.success {
                EnsureStep::Done { result: Ok(()) }
            } else {
                let w = vec!["show-ref", branch];
                assert(slices(w@) =~= seq!["show-ref"@, branch@]);
                EnsureStep::Run { stage: EnsureStage::Any, command: command(w, None) }
            },
            Outcome::Failed(f) => EnsureStep::Done { result: Err(GitError::StdIoError(f)) },
            _ => EnsureStep::Done { result: Err(GitError::Oops) },
        },
        EnsureStage::Any => match outcome {
            Outcome::Exited(o) => if o.success {
                let line = first_line_of(o.stdout.as_str());
                match last_word_of(line.as_str()) {
                    Some(remote_branch) => {
                        let w = vec!["branch", branch, remote_branch.as_str()];
                        assert(slices(w@) =~= seq!["branch"@, branch@, remote_branch@]);
                        EnsureStep::Run { stage: EnsureStage::Create, command: command(w, None) }
                    },
                    None => EnsureStep::Done { result: Err(GitError::Oops) },
                }
            } else {
                EnsureStep::CreateOrphan
            },
            Outcome::Failed(f) => EnsureStep::Done { result: Err(GitError::StdIoError(f)) },
            _ => EnsureStep::Done { result: Err(GitError::Oops) },
        },
        EnsureStage::Create => match check(outcome) {
            Ok(_) => EnsureStep::Done { result: Ok(()) },
            Err(e) => EnsureStep::Done { result: Err(e) },
        },
    }
}

} // verus!
