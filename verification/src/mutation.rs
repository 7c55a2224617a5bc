//! Changing the store: new issues and comments, and every change of a field.
//!
//! Each operation changes the record in memory and hands back the `Change`
//! that makes the same change on disk and records it in one commit of its
//! own. The caller carries the change out, step by step.

use vstd::prelude::*;
use crate::change::Change;
use crate::change::ChangeView;
use crate::comment::Comment;
use crate::comment::CommentError;
use crate::comment::CommentFault;
use crate::comment::CommentView;
use crate::fs::action_views;
use crate::fs::join;
use crate::fs::joined;
use crate::fs::Action;
use crate::fs::ActionView;
use crate::fs::Location;
use crate::fs::LocationView;
use crate::id::hex;
use crate::id::identifier;
use crate::id::random_number;
use crate::issue::Issue;
use crate::issue::IssueError;
use crate::issue::IssueFault;
use crate::issue::IssueHandle;
use crate::issue::IssueView;
use crate::issue::State;
use crate::order::is_sorted;
use crate::order::lemma_sorted_is_sorted;
use crate::order::lemma_text_order;
use crate::order::sort_texts;
use crate::order::sorted;
use crate::order::text_order;
use crate::tag::escaped;
use crate::text::blank;
use crate::text::is_blank;
use crate::text::join2;
use crate::text::join3;
use crate::text::lemma_texts_push;
use crate::text::opt_text;
use crate::text::same_text;
use crate::text::texts;
use crate::text::trim;
use crate::text::trimmed;
use crate::timestamp::Timestamp;

verus! {

/// The change that commits what lies in a record's directory, after the
/// given file operations.
pub open spec fn committing(
    actions: Seq<ActionView>,
    dir: LocationView,
    message: Seq<char>,
    of_comment: bool,
) -> ChangeView {
    ChangeView { actions, stage: dir, dir: dir.path(), message, of_comment }
}

/// The file operation that writes one field of a record.
pub open spec fn field_file(dir: LocationView, name: Seq<char>, contents: Seq<char>) -> ActionView {
    ActionView::WriteFile { path: joined(dir.path(), name), contents }
}

/// The file operation that has the user write a record's description.
pub open spec fn description_edit(dir: LocationView, existed: bool) -> ActionView {
    ActionView::Edit { file: dir.child("description"@), existed }
}

/// The file operations that write the tags of an issue anew: the directory
/// `tags` is emptied, and gets one empty file for each tag, named by it.
pub open spec fn tag_files(dir: LocationView, tags: Seq<Seq<char>>) -> Seq<ActionView> {
    let tags_dir = joined(dir.path(), "tags"@);
    seq![ActionView::ResetDir { path: tags_dir }] + Seq::new(
        tags.len(),
        |i: int|
            ActionView::WriteFile { path: joined(tags_dir, escaped(tags[i])), contents: Seq::empty() },
    )
}

/// The file operations that mark a dependency: the directory `dependencies`
/// is made if it is missing, and gets an empty file named by the dependency.
pub open spec fn dependency_files(dir: LocationView, dep: Seq<char>) -> Seq<ActionView> {
    let deps_dir = joined(dir.path(), "dependencies"@);
    seq![
        ActionView::EnsureDir { path: deps_dir },
        ActionView::WriteFile { path: joined(deps_dir, dep), contents: Seq::empty() },
    ]
}

/// The file operations that make a new record's directory and write its
/// description, or have the user write it where none is given.
pub open spec fn creation_files(dir: LocationView, description: Option<Seq<char>>) -> Seq<
    ActionView,
> {
    match description {
        Some(text) => seq![
            ActionView::CreateDir { path: dir.path() },
            field_file(dir, "description"@, text),
        ],
        None => seq![ActionView::CreateDir { path: dir.path() }, description_edit(dir, false)],
    }
}

/// The issue that is made in the directory `dir` under the identifier
/// `number`, at the time `now`.
pub open spec fn new_issue(dir: Seq<char>, number: u128, now: Timestamp, description: Seq<char>) -> IssueView {
    IssueView {
        id: hex(number as nat, 32),
        author: Seq::empty(),
        creation_time: now,
        done_time: None,
        tags: Seq::empty(),
        state: State::New,
        dependencies: None,
        assignee: None,
        description,
        comments: Seq::empty(),
        dir: LocationView { parent: dir, name: hex(number as nat, 32) },
    }
}

/// Where the comment of the identifier `number` on an issue lies.
pub open spec fn comment_dir(issue: LocationView, number: u128) -> LocationView {
    issue.child("comments"@).child(hex(number as nat, 32))
}

/// The comment that is made on an issue under the identifier `number`, at
/// the time `now`.
pub open spec fn new_comment(
    issue: LocationView,
    number: u128,
    now: Timestamp,
    description: Seq<char>,
) -> CommentView {
    CommentView {
        uuid: hex(number as nat, 32),
        author: Seq::empty(),
        creation_time: now,
        description,
        dir: comment_dir(issue, number),
    }
}

/// The text of a description that may be absent.
pub open spec fn given(description: Option<String>) -> Seq<char> {
    match description {
        Some(text) => text@,
        None => Seq::empty(),
    }
}

/// The name by which a commit message calls an assignee that may be absent.
pub open spec fn assignee_name(assignee: Option<Seq<char>>) -> Seq<char> {
    match assignee {
        Some(a) => a,
        None => "None"@,
    }
}

/// The first index at which a text stands in a list, if it stands in it.
pub open spec fn position(list: Seq<Seq<char>>, text: Seq<char>) -> Option<int> {
    list.index_of_first(text)
}

/// The index of the first string of a list that holds a text.
fn find_text(list: &Vec<String>, text: &str) -> (r: Option<usize>)
    ensures
        match position(texts(list@), text@) {
            Some(i) => r matches Some(j) && j == i && 0 <= i < list.len(),
            None => r is None,
        },
        r is Some <==> texts(list@).contains(text@),
{
    let mut i: usize = 0;
    while i < list.len()
        invariant
            i <= list.len(),
            forall|k: int| 0 <= k < i ==> texts(list@)[k] != text@,
        decreases list.len() - i,
    {
        assert(texts(list@)[i as int] == list@[i as int]@);
        if same_text(list[i].as_str(), text) {
            proof {
                assert(texts(list@).contains(text@));
                texts(list@).index_of_first_ensures(text@);
            }
            return Some(i);
        }
        i += 1;
    }
    proof {
        assert(!texts(list@).contains(text@));
        texts(list@).index_of_first_ensures(text@);
    }
    None
}

/// The change that commits what lies in a record's directory.
fn change(actions: Vec<Action>, dir: &Location, message: String, of_comment: bool) -> (c: Change)
    ensures
        c@ == committing(action_views(actions@), dir@, message@, of_comment),
{
    Change { actions, stage: dir.duplicate(), dir: dir.path(), message, of_comment }
}

/// The file operation that writes one field of a record.
fn write_field(dir: &Location, name: &str, contents: String) -> (a: Action)
    ensures
        a@ == field_file(dir@, name@, contents@),
{
    let path = dir.path();
    Action::WriteFile { path: join(path.as_str(), name), contents }
}

/// The file operations that make a new record's directory.
fn create(dir: &Location, description: &Option<String>) -> (actions: Vec<Action>)
    ensures
        action_views(actions@) == creation_files(dir@, opt_text(*description)),
{
    let mut actions: Vec<Action> = Vec::new();
    actions.push(Action::CreateDir { path: dir.path() });
    match description {
        Some(text) => {
            actions.push(write_field(dir, "description", text.clone()));
        },
        None => {
            actions.push(Action::Edit { file: dir.child("description"), existed: false });
        },
    }
    assert(action_views(actions@) =~= creation_files(dir@, opt_text(*description)));
    actions
}

impl Issue {
    /// Where the issue's description is kept.
    pub fn description_filename(&self) -> (file: Location)
        ensures
            file@ == self@.dir.child("description"@),
    {
        self.dir.child("description")
    }

    /// Takes the description that the issue's file holds.
    pub fn read_description(&mut self, contents: String)
        ensures
            final(self)@ == (IssueView { description: contents@, ..old(self)@ }),
    {
        self.description = contents;
    }

    /// Takes the state that the issue's file `state` holds: its text,
    /// trimmed, names the state without regard to case. Fails with
    /// `StateParseError`, and leaves the issue as it is, if it names none.
    pub fn read_state(&mut self, contents: &str) -> (r: Result<(), IssueError>)
        ensures
            match State::parse(trimmed(contents@)) {
                Some(state) => r is Ok && final(self)@ == (IssueView { state, ..old(self)@ }),
                None => r matches Err(e) && e@ == IssueFault::StateParseError && final(self)@
                    == old(self)@,
            },
    {
        let text = trim(contents);
        match State::from_str(text.as_str()) {
            Ok(state) => {
                self.state = state;
                Ok(())
            },
            Err(e) => Err(e),
        }
    }

    /// The change that commits what lies in the issue's directory.
    pub fn commit(&self, commit_message: &str) -> (c: Change)
        ensures
            c@ == committing(Seq::empty(), self@.dir, commit_message@, false),
    {
        let actions: Vec<Action> = Vec::new();
        assert(action_views(actions@) =~= Seq::<ActionView>::empty());
        change(actions, &self.dir, commit_message.to_owned(), false)
    }

    /// The change that writes the issue's tags anew and commits them.
    pub fn commit_tags(&self, commit_message: &str) -> (c: Change)
        ensures
            c@ == committing(tag_files(self@.dir, self@.tags), self@.dir, commit_message@, false),
    {
        let dir = self.dir.path();
        let tags_dir = join(dir.as_str(), "tags");
        let mut actions: Vec<Action> = Vec::new();
        actions.push(Action::ResetDir { path: tags_dir.clone() });
        let ghost want = tag_files(self@.dir, self@.tags);
        let mut i: usize = 0;
        while i < self.tags.len()
            invariant
                i <= self.tags.len(),
                tags_dir@ == joined(self@.dir.path(), "tags"@),
                want == tag_files(self@.dir, self@.tags),
                actions.len() == i + 1,
                forall|k: int| 0 <= k < actions.len() ==> (#[trigger] actions@[k])@ == want[k],
            decreases self.tags.len() - i,
        {
            assert(self@.tags[i as int] == self.tags@[i as int]@);
            let name = Issue::tag_to_filename(self.tags[i].as_str());
            actions.push(
                Action::WriteFile {
                    path: join(tags_dir.as_str(), name.as_str()),
                    contents: String::new(),
                },
            );
            i += 1;
        }
        assert(action_views(actions@) =~= want);
        change(actions, &self.dir, commit_message.to_owned(), false)
    }

    /// Makes a new issue in the store at `dir`, under the identifier that
    /// `number` gives and with the time of creation `now`. Nothing is written:
    /// the change that comes back makes the issue's directory, writes the
    /// description into it, and commits both.
    ///
    /// Where no description is given the change has the user write one in an
    /// editor; the issue that comes back has an empty description until
    /// `read_description` gives it the one that the user wrote.
    ///
    /// Fails with `EmptyDescription` if the description is empty or holds
    /// whitespace alone.
    pub fn new_with(dir: &str, number: u128, now: Timestamp, description: &Option<String>) -> (r:
        Result<(Issue, Change), IssueError>)
        ensures
            match *description {
                Some(text) if is_blank(text@) => r matches Err(e) && e@
                    == IssueFault::EmptyDescription,
                _ => r matches Ok((issue, change)) && issue@ == new_issue(
                    dir@,
                    number,
                    now,
                    given(*description),
                ) && change@ == committing(
                    creation_files(issue@.dir, opt_text(*description)),
                    issue@.dir,
                    "create new issue "@ + issue@.id,
                    false,
                ),
            },
    {
        let text = match description {
            Some(text) => {
                if blank(text.as_str()) {
                    return Err(IssueError::EmptyDescription);
                }
                text.clone()
            },
            None => String::new(),
        };
        let id = identifier(number);
        let place = Location::new(dir, id.as_str());
        let actions = create(&place, description);
        let message = join2("create new issue ", id.as_str());
        let c = change(actions, &place, message, false);
        let issue = Issue {
            id,
            author: String::new(),
            creation_time: now,
            done_time: None,
            tags: Vec::new(),
            state: State::New,
            dependencies: None,
            assignee: None,
            description: text,
            comments: Vec::new(),
            dir: place,
        };
        proof {
            assert(texts(issue.tags@) =~= Seq::<Seq<char>>::empty());
            assert(crate::comment::comment_views(issue.comments@) =~= Seq::<CommentView>::empty());
        }
        Ok((issue, c))
    }

    /// Makes a new issue in the store at `dir`, as `new_with` does, under an
    /// identifier drawn at random and with the current time.
    pub fn new(dir: &str, description: &Option<String>) -> (r: Result<(Issue, Change), IssueError>)
        ensures
            match *description {
                Some(text) if is_blank(text@) => r matches Err(e) && e@
                    == IssueFault::EmptyDescription,
                _ => r matches Ok((issue, change)) && exists|number: u128, now: Timestamp|
                    issue@ == new_issue(dir@, number, now, given(*description)) && change@
                        == committing(
                        creation_files(issue@.dir, opt_text(*description)),
                        issue@.dir,
                        "create new issue "@ + issue@.id,
                        false,
                    ),
            },
    {
        let number = random_number();
        let now = Timestamp::now();
        Issue::new_with(dir, number, now, description)
    }

    /// The change that has the user write the description anew in an editor
    /// and commits it. When it has been carried out, `read_description`
    /// gives the issue the description that the user wrote.
    pub fn edit_description(&self) -> (c: Change)
        ensures
            c@ == committing(
                seq![description_edit(self@.dir, true)],
                self@.dir,
                "edit description of issue "@ + self@.dir.name,
                false,
            ),
    {
        let mut actions: Vec<Action> = Vec::new();
        actions.push(Action::Edit { file: self.description_filename(), existed: true });
        assert(action_views(actions@) =~= seq![description_edit(self@.dir, true)]);
        let message = join2("edit description of issue ", self.dir.name.as_str());
        change(actions, &self.dir, message, false)
    }

    /// Puts the issue into a state; any state may follow any other. The
    /// change that comes back writes the state and commits it.
    ///
    /// The flag that comes back says whether the state is `Done`: the caller
    /// then stamps the issue, once the change has been carried out, by
    /// `set_done_time` with the time it then is. No other field changes; a
    /// time at which the issue was done before stays.
    pub fn set_state(&mut self, new_state: State) -> (r: (Change, bool))
        ensures
            final(self)@ == (IssueView { state: new_state, ..old(self)@ }),
            r.0@ == committing(
                seq![field_file(old(self)@.dir, "state"@, new_state.token())],
                old(self)@.dir,
                "change state of issue "@ + old(self)@.dir.name + ", "@ + old(self).state.token()
                    + " -> "@ + new_state.token(),
                false,
            ),
            r.1 == (new_state == State::Done),
    {
        let mut actions: Vec<Action> = Vec::new();
        actions.push(write_field(&self.dir, "state", new_state.to_string()));
        assert(action_views(actions@) =~= seq![
            field_file(self@.dir, "state"@, new_state.token()),
        ]);
        let mut message = join3("change state of issue ", self.dir.name.as_str(), ", ");
        message.append(self.state.as_str());
        message.append(" -> ");
        message.append(new_state.as_str());
        let c = change(actions, &self.dir, message, false);
        self.state = new_state;
        (c, new_state == State::Done)
    }

    /// Sets the time at which the issue was done. The change that comes back
    /// writes the time as RFC 3339 and commits it.
    ///
    /// Fails with `ChronoParseError`, and leaves the issue as it is, if the
    /// time has no RFC 3339 text.
    pub fn set_done_time(&mut self, done_time: Timestamp) -> (r: Result<Change, IssueError>)
        ensures
            match done_time.spec_rfc3339() {
                Some(text) => r matches Ok(c) && c@ == committing(
                    seq![field_file(old(self)@.dir, "done_time"@, text)],
                    old(self)@.dir,
                    "set done-time of issue "@ + old(self)@.dir.name + " to "@ + text,
                    false,
                ) && final(self)@ == (IssueView { done_time: Some(done_time), ..old(self)@ }),
                None => r matches Err(e) && e@ == IssueFault::ChronoParseError && final(self)@
                    == old(self)@,
            },
    {
        let text = match done_time.to_rfc3339() {
            Some(text) => text,
            None => {
                return Err(IssueError::ChronoParseError);
            },
        };
        let mut message = join3("set done-time of issue ", self.dir.name.as_str(), " to ");
        message.append(text.as_str());
        let mut actions: Vec<Action> = Vec::new();
        actions.push(write_field(&self.dir, "done_time", text));
        assert(action_views(actions@) =~= seq![
            field_file(self@.dir, "done_time"@, done_time.spec_rfc3339()->0),
        ]);
        let c = change(actions, &self.dir, message, false);
        self.done_time = Some(done_time);
        Ok(c)
    }

    /// Assigns the issue to somebody. The change that comes back writes the
    /// assignee and commits it.
    pub fn set_assignee(&mut self, new_assignee: &str) -> (c: Change)
        ensures
            final(self)@ == (IssueView { assignee: Some(new_assignee@), ..old(self)@ }),
            c@ == committing(
                seq![field_file(old(self)@.dir, "assignee"@, new_assignee@)],
                old(self)@.dir,
                "change assignee of issue "@ + old(self)@.dir.name + ", "@ + assignee_name(
                    old(self)@.assignee,
                ) + " -> "@ + new_assignee@,
                false,
            ),
    {
        let mut actions: Vec<Action> = Vec::new();
        actions.push(write_field(&self.dir, "assignee", new_assignee.to_owned()));
        assert(action_views(actions@) =~= seq![
            field_file(self@.dir, "assignee"@, new_assignee@),
        ]);
        let mut message = join3("change assignee of issue ", self.dir.name.as_str(), ", ");
        match &self.assignee {
            Some(a) => {
                message.append(a.as_str());
            },
            None => {
                message.append("None");
            },
        }
        message.append(" -> ");
        message.append(new_assignee);
        let c = change(actions, &self.dir, message, false);
        self.assignee = Some(new_assignee.to_owned());
        c
    }

    /// Gives the issue a tag. If it has the tag already nothing changes and
    /// no change comes back. Otherwise the tag is put among the others, in
    /// order, and the change that comes back writes the tags anew and
    /// commits them.
    pub fn add_tag(&mut self, tag: &str) -> (r: Option<Change>)
        ensures
            if old(self)@.tags.contains(tag@) {
                r is None && final(self)@ == old(self)@
            } else {
                r matches Some(c) && final(self)@ == (IssueView {
                    tags: sorted(old(self)@.tags.push(tag@), text_order()),
                    ..old(self)@
                }) && is_sorted(final(self)@.tags, text_order()) && c@ == committing(
                    tag_files(final(self)@.dir, final(self)@.tags),
                    final(self)@.dir,
                    "issue "@ + final(self)@.dir.name + " add tag "@ + tag@,
                    false,
                )
            },
    {
        if self.has_tag(tag) {
            return None;
        }
        let tag_string = tag.to_owned();
        proof {
            lemma_texts_push(self.tags@, tag_string);
        }
        self.tags.push(tag_string);
        self.tags = sort_texts(&self.tags);
        proof {
            lemma_text_order();
            lemma_sorted_is_sorted(old(self)@.tags.push(tag@), text_order());
        }
        let mut message = join3("issue ", self.dir.name.as_str(), " add tag ");
        message.append(tag);
        Some(self.commit_tags(message.as_str()))
    }

    /// Takes a tag from the issue. The change that comes back writes the
    /// tags anew and commits them.
    ///
    /// Fails with `TagNotFound`, and leaves the issue as it is, if the issue
    /// does not have the tag.
    pub fn remove_tag(&mut self, tag: &str) -> (r: Result<Change, IssueError>)
        ensures
            match position(old(self)@.tags, tag@) {
                Some(i) => r matches Ok(c) && final(self)@ == (IssueView {
                    tags: old(self)@.tags.remove(i),
                    ..old(self)@
                }) && c@ == committing(
                    tag_files(final(self)@.dir, final(self)@.tags),
                    final(self)@.dir,
                    "issue "@ + final(self)@.dir.name + " remove tag "@ + tag@,
                    false,
                ),
                None => r matches Err(e) && e@ == IssueFault::TagNotFound(tag@) && final(self)@
                    == old(self)@,
            },
    {
        let index = match find_text(&self.tags, tag) {
            Some(i) => i,
            None => {
                return Err(IssueError::TagNotFound(tag.to_owned()));
            },
        };
        let ghost before = self.tags@;
        self.tags.remove(index);
        assert(texts(self.tags@) =~= texts(before).remove(index as int));
        let mut message = join3("issue ", self.dir.name.as_str(), " remove tag ");
        message.append(tag);
        Ok(self.commit_tags(message.as_str()))
    }

    /// Makes the issue depend on another. The change that comes back marks
    /// the dependency in the issue's directory and commits it.
    ///
    /// Fails with `DepSelf` if the other is the issue itself and with
    /// `DepExists` if the issue depends on it already; the issue then stays
    /// as it is.
    pub fn add_dependency(&mut self, dep: IssueHandle) -> (r: Result<Change, IssueError>)
        ensures
            if old(self)@.id == dep@ {
                r matches Err(e) && e@ == IssueFault::DepSelf && final(self)@ == old(self)@
            } else if old(self)@.dependencies matches Some(deps) && deps.contains(dep@) {
                r matches Err(e) && e@ == IssueFault::DepExists && final(self)@ == old(self)@
            } else {
                r matches Ok(c) && final(self)@ == (IssueView {
                    dependencies: Some(
                        match old(self)@.dependencies {
                            Some(deps) => deps.push(dep@),
                            None => seq![dep@],
                        },
                    ),
                    ..old(self)@
                }) && c@ == committing(
                    dependency_files(old(self)@.dir, dep@),
                    old(self)@.dir,
                    "add dep "@ + dep@ + " to issue "@ + old(self)@.id,
                    false,
                )
            },
    {
        if same_text(self.id.as_str(), dep.as_str()) {
            return Err(IssueError::DepSelf);
        }
        let known = match &self.dependencies {
            Some(deps) => find_text(deps, dep.as_str()).is_some(),
            None => false,
        };
        if known {
            return Err(IssueError::DepExists);
        }
        let dir = self.dir.path();
        let deps_dir = join(dir.as_str(), "dependencies");
        let mut actions: Vec<Action> = Vec::new();
        actions.push(Action::EnsureDir { path: deps_dir.clone() });
        actions.push(
            Action::WriteFile {
                path: join(deps_dir.as_str(), dep.as_str()),
                contents: String::new(),
            },
        );
        assert(action_views(actions@) =~= dependency_files(self@.dir, dep@));
        let mut message = join3("add dep ", dep.as_str(), " to issue ");
        message.append(self.id.as_str());
        let c = change(actions, &self.dir, message, false);
        let ghost before = self@.dependencies;
        let mut deps = match self.dependencies.take() {
            Some(deps) => deps,
            None => Vec::new(),
        };
        proof {
            lemma_texts_push(deps@, dep);
            if before is None {
                assert(texts(deps@.push(dep)) =~= seq![dep@]);
            }
        }
        deps.push(dep);
        self.dependencies = Some(deps);
        Ok(c)
    }

    /// Ends the issue's dependence on another: the first mention of it
    /// leaves the issue. The change that comes back commits what the
    /// issue's directory then holds; it touches no file itself.
    ///
    /// Fails with `DepNotFound`, and leaves the issue as it is, if the issue
    /// does not depend on the other.
    pub fn remove_dependency(&mut self, dep: IssueHandle) -> (r: Result<Change, IssueError>)
        ensures
            match old(self)@.dependencies {
                Some(deps) if position(deps, dep@) is Some => r matches Ok(c) && final(self)@ == (
                IssueView {
                    dependencies: Some(deps.remove(position(deps, dep@)->0)),
                    ..old(self)@
                }) && c@ == committing(
                    Seq::empty(),
                    old(self)@.dir,
                    "remove dep "@ + dep@ + " from issue "@ + old(self)@.id,
                    false,
                ),
                _ => r matches Err(e) && e@ == IssueFault::DepNotFound && final(self)@ == old(
                    self,
                )@,
            },
    {
        let found = match &self.dependencies {
            Some(deps) => find_text(deps, dep.as_str()),
            None => None,
        };
        let index = match found {
            Some(i) => i,
            None => {
                return Err(IssueError::DepNotFound);
            },
        };
        let mut deps = match self.dependencies.take() {
            Some(deps) => deps,
            None => Vec::new(),
        };
        let ghost before = deps@;
        deps.remove(index);
        assert(texts(deps@) =~= texts(before).remove(index as int));
        self.dependencies = Some(deps);
        let mut message = join3("remove dep ", dep.as_str(), " from issue ");
        message.append(self.id.as_str());
        Ok(self.commit(message.as_str()))
    }

    /// Makes a new comment on the issue, as `Comment::new` does.
    pub fn add_comment(&mut self, description: &Option<String>) -> (r: Result<
        (Comment, Change),
        IssueError,
    >)
        ensures
            final(self)@ == old(self)@,
            match *description {
                Some(text) if is_blank(text@) => r matches Err(e) && e@ == IssueFault::CommentError(
                    CommentFault::EmptyDescription,
                ),
                _ => r matches Ok((comment, change)) && exists|number: u128, now: Timestamp|
                    comment@ == new_comment(old(self)@.dir, number, now, given(*description))
                        && change@ == committing(
                        comment_files(old(self)@.dir, comment@.dir, opt_text(*description)),
                        comment@.dir,
                        "add comment "@ + comment@.uuid + " on issue "@ + old(self)@.dir.name,
                        true,
                    ),
            },
    {
        match Comment::new(self, description) {
            Ok(made) => Ok(made),
            Err(e) => Err(IssueError::CommentError(e)),
        }
    }
}

/// The file operations that make a new comment's directory: the issue's
/// directory `comments` is made if it is missing, then the comment's own
/// directory with its description.
pub open spec fn comment_files(
    issue: LocationView,
    dir: LocationView,
    description: Option<Seq<char>>,
) -> Seq<ActionView> {
    seq![ActionView::EnsureDir { path: joined(issue.path(), "comments"@) }] + creation_files(
        dir,
        description,
    )
}

impl Comment {
    /// Where the comment's description is kept.
    pub fn description_filename(&self) -> (file: Location)
        ensures
            file@ == self@.dir.child("description"@),
    {
        self.dir.child("description")
    }

    /// Takes the description that the comment's file holds.
    pub fn read_description(&mut self, contents: String)
        ensures
            final(self)@ == (CommentView { description: contents@, ..old(self)@ }),
    {
        self.description = contents;
    }

    /// Makes a new comment on an issue, under the identifier that `number`
    /// gives and with the time of creation `now`. Nothing is written: the
    /// change that comes back makes the comment's directory, writes the
    /// description into it, and commits both.
    ///
    /// Where no description is given the change has the user write one in an
    /// editor; the comment that comes back has an empty description until
    /// `read_description` gives it the one that the user wrote.
    ///
    /// Fails with `EmptyDescription` if the description is empty or holds
    /// whitespace alone.
    pub fn new_with(issue: &Issue, number: u128, now: Timestamp, description: &Option<String>) -> (r:
        Result<(Comment, Change), CommentError>)
        ensures
            match *description {
                Some(text) if is_blank(text@) => r matches Err(e) && e@
                    == CommentFault::EmptyDescription,
                _ => r matches Ok((comment, change)) && comment@ == new_comment(
                    issue@.dir,
                    number,
                    now,
                    given(*description),
                ) && change@ == committing(
                    comment_files(issue@.dir, comment@.dir, opt_text(*description)),
                    comment@.dir,
                    "add comment "@ + comment@.uuid + " on issue "@ + issue@.dir.name,
                    true,
                ),
            },
    {
        let text = match description {
            Some(text) => {
                if blank(text.as_str()) {
                    return Err(CommentError::EmptyDescription);
                }
                text.clone()
            },
            None => String::new(),
        };
        let uuid = identifier(number);
        let comments = self::comments_dir(issue);
        let place = comments.child(uuid.as_str());
        let mut actions: Vec<Action> = Vec::new();
        actions.push(Action::EnsureDir { path: comments.path() });
        let mut made = create(&place, description);
        let ghost made_views = action_views(made@);
        let ghost first = actions@;
        actions.append(&mut made);
        assert(action_views(actions@) =~= comment_files(issue@.dir, place@, opt_text(*description)));
        let mut message = join3("add comment ", uuid.as_str(), " on issue ");
        message.append(issue.dir.name.as_str());
        let c = change(actions, &place, message, true);
        let comment = Comment {
            uuid,
            author: String::new(),
            creation_time: now,
            description: text,
            dir: place,
        };
        Ok((comment, c))
    }

    /// Makes a new comment on an issue, as `new_with` does, under an
    /// identifier drawn at random and with the current time.
    pub fn new(issue: &Issue, description: &Option<String>) -> (r: Result<
        (Comment, Change),
        CommentError,
    >)
        ensures
            match *description {
                Some(text) if is_blank(text@) => r matches Err(e) && e@
                    == CommentFault::EmptyDescription,
                _ => r matches Ok((comment, change)) && exists|number: u128, now: Timestamp|
                    comment@ == new_comment(issue@.dir, number, now, given(*description))
                        && change@ == committing(
                        comment_files(issue@.dir, comment@.dir, opt_text(*description)),
                        comment@.dir,
                        "add comment "@ + comment@.uuid + " on issue "@ + issue@.dir.name,
                        true,
                    ),
            },
    {
        let number = random_number();
        let now = Timestamp::now();
        Comment::new_with(issue, number, now, description)
    }

    /// The change that has the user write the comment's description anew in
    /// an editor and commits it. When it has been carried out,
    /// `read_description` gives the comment the description that the user
    /// wrote.
    pub fn edit_description(&self) -> (c: Change)
        ensures
            c@ == (ChangeView {
                actions: seq![description_edit(self@.dir, true)],
                stage: self@.dir.child("description"@),
                dir: self@.dir.path(),
                message: "edit comment "@ + self@.dir.name,
                of_comment: true,
            }),
    {
        let mut actions: Vec<Action> = Vec::new();
        actions.push(Action::Edit { file: self.description_filename(), existed: true });
        assert(action_views(actions@) =~= seq![description_edit(self@.dir, true)]);
        Change {
            actions,
            stage: self.description_filename(),
            dir: self.dir.path(),
            message: join2("edit comment ", self.dir.name.as_str()),
            of_comment: true,
        }
    }
}

/// Where the comments of an issue are kept.
fn comments_dir(issue: &Issue) -> (dir: Location)
    ensures
        dir@ == issue@.dir.child("comments"@),
{
    issue.dir.child("comments")
}

} // verus!
