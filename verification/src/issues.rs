//! The store: the issues of one directory, looked up by identifier.
//!
//! The issues are kept in the order of their identifiers, each identifier
//! once. The store stands for the map from identifier to issue.

use vstd::prelude::*;
use crate::fs::IoFault;
use crate::fs::IoFaultKind;
use crate::fs::Location;
use crate::fs::LocationView;
use crate::fs::Node;
use crate::issue::Issue;
use crate::issue::IssueError;
use crate::issue::IssueFault;
use crate::issue::IssueView;
use crate::load::issue_of;
use crate::load::lemma_no_issue_without_description;
use crate::text::lemma_lex_le_antisymmetric;
use crate::text::lemma_lex_le_reflexive;
use crate::text::lemma_lex_le_total;
use crate::text::lemma_lex_le_transitive;
use crate::text::lex_le;
use crate::text::same_text;
use crate::text::text_le;

verus! {

/// Whether a text is a TOML document.
pub uninterp spec fn toml_document(s: Seq<char>) -> bool;

/// Trusted: `toml::from_str`, asked for a table, succeeds on the texts that
/// are TOML documents and on no others; which, depends on the text alone.
#[verifier::external_body]
fn read_toml(s: &str) -> (r: bool)
    ensures
        r == toml_document(s@),
{
    toml::from_str::<toml::Table>(s).is_ok()
}

/// The settings of a store. None are defined yet.
#[derive(Debug, PartialEq)]
pub struct Config {}

/// The issues of a store, in the order of their identifiers.
#[derive(Debug, PartialEq)]
pub struct Issues {
    pub issues: Vec<Issue>,
    pub config: Config,
}

/// Why a store could not be read.
#[derive(Debug, PartialEq)]
pub enum ReadIssuesError {
    StdIoError(IoFault),
    IssueError(IssueError),
    /// An entry has a name that is no text; this is the name as far as it
    /// can be written.
    FilenameError(String),
    /// `config.toml` is no TOML document.
    TomlDeserializeError,
}

/// Why a store could not be read, as texts.
pub enum ReadIssuesFault {
    StdIoError(IoFault),
    IssueError(IssueFault),
    FilenameError(Seq<char>),
    TomlDeserializeError,
}

impl View for ReadIssuesError {
    type V = ReadIssuesFault;

    open spec fn view(&self) -> ReadIssuesFault {
        match self {
            ReadIssuesError::StdIoError(f) => ReadIssuesFault::StdIoError(*f),
            ReadIssuesError::IssueError(e) => ReadIssuesFault::IssueError(e@),
            ReadIssuesError::FilenameError(name) => ReadIssuesFault::FilenameError(name@),
            ReadIssuesError::TomlDeserializeError => ReadIssuesFault::TomlDeserializeError,
        }
    }
}

/// Whether a text comes before another in lexicographic order.
pub open spec fn lex_lt(a: Seq<char>, b: Seq<char>) -> bool {
    lex_le(a, b) && a != b
}

/// The issues of a list whose identifier is `id`.
pub open spec fn holds_id(issues: Seq<Issue>, id: Seq<char>, i: int) -> bool {
    0 <= i < issues.len() && issues[i].id@ == id
}

/// The map that a list of issues stands for: each identifier in it leads to
/// an issue of the list that bears it.
pub open spec fn map_of(issues: Seq<Issue>) -> Map<Seq<char>, IssueView> {
    Map::new(
        |id: Seq<char>| exists|i: int| holds_id(issues, id, i),
        |id: Seq<char>| issues[choose|i: int| holds_id(issues, id, i)]@,
    )
}

/// Whether a list of issues is in the strict order of its identifiers.
pub open spec fn in_order(issues: Seq<Issue>) -> bool {
    forall|i: int, j: int|
        0 <= i < j < issues.len() ==> lex_lt((#[trigger] issues[i]).id@, (#[trigger] issues[j]).id@)
}

/// In an ordered list each issue is the one that its identifier leads to.
pub proof fn lemma_map_of_at(issues: Seq<Issue>, i: int)
    requires
        in_order(issues),
        0 <= i < issues.len(),
    ensures
        map_of(issues).contains_key(issues[i].id@),
        map_of(issues)[issues[i].id@] == issues[i]@,
{
    let id = issues[i].id@;
    assert(holds_id(issues, id, i));
    let j = choose|j: int| holds_id(issues, id, j);
    if j < i {
        assert(lex_lt(issues[j].id@, issues[i].id@));
    } else if i < j {
        assert(lex_lt(issues[i].id@, issues[j].id@));
    }
}

/// The index of the issue that bears an identifier.
pub open spec fn slot(issues: Seq<Issue>, id: Seq<char>) -> int {
    choose|i: int| holds_id(issues, id, i)
}

/// In an ordered list the issue at an index is the one that bears its
/// identifier.
pub proof fn lemma_slot(issues: Seq<Issue>, i: int)
    requires
        in_order(issues),
        0 <= i < issues.len(),
    ensures
        slot(issues, issues[i].id@) == i,
{
    let id = issues[i].id@;
    assert(holds_id(issues, id, i));
    let j = slot(issues, id);
    if j < i {
        assert(lex_lt(issues[j].id@, issues[i].id@));
    } else if i < j {
        assert(lex_lt(issues[i].id@, issues[j].id@));
    }
}

/// Changing an issue in place, but for its identifier, keeps an ordered
/// list ordered, and changes the map that it stands for at that identifier
/// alone.
pub proof fn lemma_update_keeps_order(issues: Seq<Issue>, i: int, issue: Issue)
    requires
        in_order(issues),
        0 <= i < issues.len(),
        issue.id@ == issues[i].id@,
    ensures
        in_order(issues.update(i, issue)),
        map_of(issues.update(i, issue)) == map_of(issues).insert(issue.id@, issue@),
{
    let after = issues.update(i, issue);
    let id = issue.id@;
    assert forall|a: int, b: int| 0 <= a < b < after.len() implies lex_lt(
        (#[trigger] after[a]).id@,
        (#[trigger] after[b]).id@,
    ) by {
        assert(after[a].id@ == issues[a].id@ && after[b].id@ == issues[b].id@);
        assert(lex_lt(issues[a].id@, issues[b].id@));
    }
    assert forall|key: Seq<char>|
        map_of(after).contains_key(key) <==> map_of(issues).insert(id, issue@).contains_key(
            key,
        ) by {
        if map_of(after).contains_key(key) {
            let k = choose|k: int| holds_id(after, key, k);
            assert(holds_id(issues, key, k));
        }
        if map_of(issues).contains_key(key) {
            let k = choose|k: int| holds_id(issues, key, k);
            assert(holds_id(after, key, k));
        }
        if key == id {
            assert(holds_id(after, key, i));
        }
    }
    assert forall|key: Seq<char>| map_of(after).contains_key(key) implies map_of(after)[key]
        == map_of(issues).insert(id, issue@)[key] by {
        let k = choose|k: int| holds_id(after, key, k);
        lemma_map_of_at(after, k);
        if k != i {
            assert(issues[k] == after[k]);
            lemma_map_of_at(issues, k);
        }
    }
    assert(map_of(after) =~= map_of(issues).insert(id, issue@));
}

/// What one entry of a store's directory adds to the issues that are known.
///
/// A directory holds an issue; one that holds none is passed over and does
/// not end the reading. The file `config.toml` must be a TOML document.
/// Any other file says nothing. An entry that cannot be read ends the
/// reading, and so does one whose name is no text: its name can be no
/// identifier.
pub open spec fn store_entry(m: Map<Seq<char>, IssueView>, dir: Seq<char>, n: Node) -> Result<
    Map<Seq<char>, IssueView>,
    ReadIssuesFault,
> {
    match n {
        Node::Dir { name, entries, history } => match issue_of(
            LocationView { parent: dir, name: name@ },
            entries@,
            history,
        ) {
            Ok(issue) => Ok(m.insert(issue.id, issue)),
            Err(_) => Ok(m),
        },
        Node::File { name, contents } => if name@ == "config.toml"@ && !toml_document(contents@) {
            Err(ReadIssuesFault::TomlDeserializeError)
        } else {
            Ok(m)
        },
        Node::Unreadable { name, fault } => if fault.kind == IoFaultKind::InvalidName {
            Err(ReadIssuesFault::FilenameError(name@))
        } else {
            Err(ReadIssuesFault::StdIoError(fault))
        },
    }
}

/// What the entries of a store's directory say, read in order; the first
/// fault ends the reading.
pub open spec fn store_entries(m: Map<Seq<char>, IssueView>, dir: Seq<char>, entries: Seq<Node>) -> Result<
    Map<Seq<char>, IssueView>,
    ReadIssuesFault,
>
    decreases entries.len(),
{
    if entries.len() == 0 {
        Ok(m)
    } else {
        match store_entry(m, dir, entries[0]) {
            Ok(next) => store_entries(next, dir, entries.skip(1)),
            Err(e) => Err(e),
        }
    }
}

impl View for Issues {
    type V = Map<Seq<char>, IssueView>;

    open spec fn view(&self) -> Map<Seq<char>, IssueView> {
        map_of(self.issues@)
    }
}

impl Default for Issues {
    /// The empty store.
    fn default() -> (r: Issues)
        ensures
            r.wf(),
            r@ == Map::<Seq<char>, IssueView>::empty(),
    {
        Issues::new()
    }
}

impl Issues {
    /// Whether the store is well formed: its issues are in the strict order
    /// of their identifiers, so that no identifier occurs twice.
    pub open spec fn wf(&self) -> bool {
        in_order(self.issues@)
    }

    /// The empty store.
    pub fn new() -> (r: Issues)
        ensures
            r.wf(),
            r@ == Map::<Seq<char>, IssueView>::empty(),
    {
        let r = Issues { issues: Vec::new(), config: Config {  } };
        assert(r@ =~= Map::<Seq<char>, IssueView>::empty());
        r
    }

    /// Whether the store is well formed. A store that was made by the
    /// functions of this module is; one whose list was written by hand may
    /// not be.
    pub fn well_formed(&self) -> (r: bool)
        ensures
            r == self.wf(),
    {
        let mut i: usize = 1;
        while i < self.issues.len()
            invariant
                1 <= i,
                forall|a: int, b: int|
                    0 <= a < b < i && b < self.issues.len() ==> lex_lt(
                        (#[trigger] self.issues@[a]).id@,
                        (#[trigger] self.issues@[b]).id@,
                    ),
            decreases self.issues.len() - i,
        {
            let before = self.issues[i - 1].id.as_str();
            let here = self.issues[i].id.as_str();
            if !text_le(before, here) || same_text(before, here) {
                assert(!lex_lt(self.issues@[i - 1].id@, self.issues@[i as int].id@));
                return false;
            }
            proof {
                let ids = self.issues@;
                assert forall|a: int, b: int| 0 <= a < b < i + 1 && b < ids.len() implies lex_lt(
                    (#[trigger] ids[a]).id@,
                    (#[trigger] ids[b]).id@,
                ) by {
                    if b == i && a < i - 1 {
                        assert(lex_lt(ids[a].id@, ids[i - 1].id@));
                        lemma_lex_le_transitive(ids[a].id@, ids[i - 1].id@, ids[i as int].id@);
                        if ids[a].id@ == ids[i as int].id@ {
                            lemma_lex_le_antisymmetric(ids[a].id@, ids[i - 1].id@);
                        }
                    }
                }
            }
            i += 1;
        }
        true
    }

    /// The index of the first issue whose identifier is not before `id`.
    fn lower_bound(&self, id: &str) -> (p: usize)
        requires
            self.wf(),
        ensures
            p <= self.issues.len(),
            forall|k: int| 0 <= k < p ==> lex_lt((#[trigger] self.issues@[k]).id@, id@),
            forall|k: int| p <= k < self.issues.len() ==> lex_le(id@, (#[trigger] self.issues@[k]).id@),
    {
        let mut p: usize = 0;
        while p < self.issues.len() && !text_le(id, self.issues[p].id.as_str())
            invariant
                p <= self.issues.len(),
                forall|k: int| 0 <= k < p ==> lex_lt((#[trigger] self.issues@[k]).id@, id@),
            decreases self.issues.len() - p,
        {
            proof {
                lemma_lex_le_total(id@, self.issues@[p as int].id@);
                lemma_lex_le_reflexive(id@);
            }
            p += 1;
        }
        proof {
            assert forall|k: int| p <= k < self.issues.len() implies lex_le(
                id@,
                (#[trigger] self.issues@[k]).id@,
            ) by {
                if k > p {
                    assert(lex_lt(self.issues@[p as int].id@, self.issues@[k].id@));
                    lemma_lex_le_transitive(id@, self.issues@[p as int].id@, self.issues@[k].id@);
                }
            }
        }
        p
    }

    /// The index of the issue with the identifier `id`, if the store holds
    /// one.
    fn find(&self, id: &str) -> (r: Option<usize>)
        requires
            self.wf(),
        ensures
            match r {
                Some(p) => p < self.issues.len() && self.issues@[p as int].id@ == id@,
                None => !self@.contains_key(id@),
            },
    {
        let p = self.lower_bound(id);
        if p < self.issues.len() && same_text(self.issues[p].id.as_str(), id) {
            Some(p)
        } else {
            proof {
                if self@.contains_key(id@) {
                    let k = choose|k: int| holds_id(self.issues@, id@, k);
                    if k < p {
                        assert(lex_lt(self.issues@[k].id@, id@));
                    } else if k > p {
                        assert(lex_lt(self.issues@[p as int].id@, self.issues@[k].id@));
                        assert(lex_le(id@, self.issues@[p as int].id@));
                        lemma_lex_le_antisymmetric(id@, self.issues@[p as int].id@);
                    }
                }
            }
            None
        }
    }

    /// Puts an issue into the store, in place of the issue with the same
    /// identifier if there is one.
    pub fn add_issue(&mut self, issue: Issue)
        requires
            old(self).wf(),
        ensures
            final(self).wf(),
            final(self)@ == old(self)@.insert(issue@.id, issue@),
            final(self).config == old(self).config,
    {
        let p = self.lower_bound(issue.id.as_str());
        let ghost before = self.issues@;
        let ghost id = issue.id@;
        let ghost new = issue@;
        let same = p < self.issues.len() && same_text(self.issues[p].id.as_str(), issue.id.as_str());
        if same {
            self.issues.set(p, issue);
            proof {
                let after = self.issues@;
                assert forall|i: int, j: int| 0 <= i < j < after.len() implies lex_lt(
                    (#[trigger] after[i]).id@,
                    (#[trigger] after[j]).id@,
                ) by {
                    assert(after[i].id@ == before[i].id@ && after[j].id@ == before[j].id@);
                    assert(lex_lt(before[i].id@, before[j].id@));
                }
                assert forall|key: Seq<char>|
                    map_of(after).contains_key(key) <==> map_of(before).insert(
                        id,
                        new,
                    ).contains_key(key) by {
                    if map_of(after).contains_key(key) {
                        let k = choose|k: int| holds_id(after, key, k);
                        assert(holds_id(before, key, k));
                    }
                    if map_of(before).contains_key(key) {
                        let k = choose|k: int| holds_id(before, key, k);
                        assert(holds_id(after, key, k));
                    }
                    if key == id {
                        assert(holds_id(after, key, p as int));
                    }
                }
                assert forall|key: Seq<char>| map_of(after).contains_key(key) implies map_of(
                    after,
                )[key] == map_of(before).insert(id, new)[key] by {
                    let k = choose|k: int| holds_id(after, key, k);
                    lemma_map_of_at(after, k);
                    if k != p {
                        assert(before[k] == after[k]);
                        lemma_map_of_at(before, k);
                    }
                }
                assert(map_of(after) =~= map_of(before).insert(id, new));
            }
        } else {
            self.issues.insert(p, issue);
            proof {
                let after = self.issues@;
                if p < before.len() {
                    assert(lex_le(id, before[p as int].id@));
                }
                assert forall|k: int| p <= k < before.len() implies lex_lt(
                    id,
                    (#[trigger] before[k]).id@,
                ) by {
                    if k > p {
                        assert(lex_lt(before[p as int].id@, before[k].id@));
                        if before[k].id@ == id {
                            lemma_lex_le_antisymmetric(id, before[p as int].id@);
                        }
                    }
                }
                assert forall|i: int, j: int| 0 <= i < j < after.len() implies lex_lt(
                    (#[trigger] after[i]).id@,
                    (#[trigger] after[j]).id@,
                ) by {
                    if j < p {
                        assert(after[i] == before[i] && after[j] == before[j]);
                        assert(lex_lt(before[i].id@, before[j].id@));
                    } else if j == p {
                        assert(after[i] == before[i]);
                    } else if i < p {
                        assert(after[i] == before[i] && after[j] == before[j - 1]);
                        if j - 1 == i {
                        } else {
                            assert(lex_lt(before[i].id@, before[j - 1].id@));
                        }
                        assert(lex_lt(before[i].id@, id));
                        assert(lex_lt(id, before[j - 1].id@));
                        lemma_lex_le_transitive(before[i].id@, id, before[j - 1].id@);
                        if before[i].id@ == before[j - 1].id@ {
                            lemma_lex_le_antisymmetric(before[i].id@, id);
                        }
                    } else if i == p {
                        assert(after[j] == before[j - 1]);
                    } else {
                        assert(after[i] == before[i - 1] && after[j] == before[j - 1]);
                        assert(lex_lt(before[i - 1].id@, before[j - 1].id@));
                    }
                }
                assert forall|key: Seq<char>|
                    map_of(after).contains_key(key) <==> map_of(before).insert(
                        id,
                        new,
                    ).contains_key(key) by {
                    if map_of(after).contains_key(key) {
                        let k = choose|k: int| holds_id(after, key, k);
                        if k < p {
                            assert(holds_id(before, key, k));
                        } else if k > p {
                            assert(holds_id(before, key, k - 1));
                        }
                    }
                    if map_of(before).contains_key(key) {
                        let k = choose|k: int| holds_id(before, key, k);
                        if k < p {
                            assert(holds_id(after, key, k));
                        } else {
                            assert(holds_id(after, key, k + 1));
                        }
                    }
                    if key == id {
                        assert(holds_id(after, key, p as int));
                    }
                }
                assert forall|key: Seq<char>| map_of(after).contains_key(key) implies map_of(
                    after,
                )[key] == map_of(before).insert(id, new)[key] by {
                    let k = choose|k: int| holds_id(after, key, k);
                    lemma_map_of_at(after, k);
                    if k < p {
                        assert(before[k] == after[k]);
                        lemma_map_of_at(before, k);
                    } else if k > p {
                        assert(before[k - 1] == after[k]);
                        lemma_map_of_at(before, k - 1);
                    }
                }
                assert(map_of(after) =~= map_of(before).insert(id, new));
            }
        }
    }

    /// The issue with the identifier `issue_id`, if the store holds one.
    pub fn get_issue(&self, issue_id: &str) -> (r: Option<&Issue>)
        requires
            self.wf(),
        ensures
            match r {
                Some(issue) => self@.contains_key(issue_id@) && issue@ == self@[issue_id@],
                None => !self@.contains_key(issue_id@),
            },
    {
        match self.find(issue_id) {
            Some(p) => {
                proof {
                    lemma_map_of_at(self.issues@, p as int);
                }
                Some(&self.issues[p])
            },
            None => None,
        }
    }

    /// The issue with the identifier `issue_id`, to be changed in place, if
    /// the store holds one. The store afterwards is the store before with
    /// that issue as the caller left it; it stays well formed as long as
    /// the caller leaves the identifier alone (`lemma_update_keeps_order`).
    pub fn get_mut_issue(&mut self, issue_id: &str) -> (r: Option<&mut Issue>)
        requires
            old(self).wf(),
        ensures
            match r {
                Some(issue) => {
                    &&& old(self)@.contains_key(issue_id@)
                    &&& issue@ == old(self)@[issue_id@]
                    &&& issue.id@ == issue_id@
                    &&& holds_id(old(self).issues@, issue_id@, slot(old(self).issues@, issue_id@))
                    &&& final(self).issues@ == old(self).issues@.update(
                        slot(old(self).issues@, issue_id@),
                        *final(issue),
                    )
                    &&& final(self).config == old(self).config
                },
                None => !old(self)@.contains_key(issue_id@) && *final(self) == *old(self),
            },
    {
        match self.find(issue_id) {
            Some(p) => {
                proof {
                    lemma_map_of_at(self.issues@, p as int);
                    lemma_slot(self.issues@, p as int);
                }
                Some(&mut self.issues[p])
            },
            None => None,
        }
    }

    /// Whether the store holds an issue with the identifier `issue_id`.
    pub fn contains(&self, issue_id: &str) -> (r: bool)
        requires
            self.wf(),
        ensures
            r == self@.contains_key(issue_id@),
    {
        match self.find(issue_id) {
            Some(p) => {
                proof {
                    lemma_map_of_at(self.issues@, p as int);
                }
                true
            },
            None => false,
        }
    }

    /// Takes the settings from the text of `config.toml`. No setting is
    /// defined, so the text has only to be a TOML document: if it is none,
    /// this fails with `TomlDeserializeError`. The store stays as it is.
    pub fn parse_config(&mut self, contents: &str) -> (r: Result<(), ReadIssuesError>)
        ensures
            *final(self) == *old(self),
            match r {
                Ok(()) => toml_document(contents@),
                Err(e) => !toml_document(contents@) && e@ == ReadIssuesFault::TomlDeserializeError,
            },
    {
        if read_toml(contents) {
            self.config = Config {  };
            Ok(())
        } else {
            Err(ReadIssuesError::TomlDeserializeError)
        }
    }

    /// Reads a store from what its directory held: `dir` is the path of the
    /// directory and `entries` what it held.
    ///
    /// A directory among the entries that holds no issue is passed over; the
    /// others are read all the same. Fails with `StdIoError` if an entry
    /// cannot be read, with `FilenameError` if the name of an entry is no
    /// text, and with `TomlDeserializeError` if `config.toml` is no TOML
    /// document.
    pub fn new_from_dir(dir: &str, entries: &Vec<Node>) -> (r: Result<Issues, ReadIssuesError>)
        ensures
            match store_entries(Map::empty(), dir@, entries@) {
                Ok(m) => r matches Ok(issues) && issues.wf() && issues@ == m,
                Err(e) => r matches Err(x) && x@ == e,
            },
    {
        let mut issues = Issues::new();
        let mut i: usize = 0;
        assert(entries@.skip(0) =~= entries@);
        while i < entries.len()
            invariant
                i <= entries.len(),
                issues.wf(),
                store_entries(Map::empty(), dir@, entries@) == store_entries(
                    issues@,
                    dir@,
                    entries@.skip(i as int),
                ),
            decreases entries.len() - i,
        {
            proof {
                assert(entries@.skip(i as int)[0] == entries@[i as int]);
                assert(entries@.skip(i as int).skip(1) =~= entries@.skip(i + 1));
            }
            match &entries[i] {
                Node::Dir { name, entries: below, history } => {
                    let place = Location::new(dir, name.as_str());
                    match Issue::new_from_dir(&place, below, history) {
                        Ok(issue) => {
                            issues.add_issue(issue);
                        },
                        Err(_) => {},
                    }
                },
                Node::File { name, contents } => {
                    if same_text(name.as_str(), "config.toml") {
                        match issues.parse_config(contents.as_str()) {
                            Ok(()) => {},
                            Err(e) => {
                                return Err(e);
                            },
                        }
                    }
                },
                Node::Unreadable { name, fault } => {
                    if fault.kind == IoFaultKind::InvalidName {
                        return Err(ReadIssuesError::FilenameError(name.clone()));
                    }
                    return Err(ReadIssuesError::StdIoError(*fault));
                },
            }
            i += 1;
        }
        Ok(issues)
    }
}

/// A directory that holds no issue changes nothing: the store that is read
/// with it among the entries is the store that is read without it, and a
/// reading that succeeds without it succeeds with it.
pub proof fn lemma_unreadable_issue_is_skipped(
    m: Map<Seq<char>, IssueView>,
    dir: Seq<char>,
    entries: Seq<Node>,
    k: int,
)
    requires
        0 <= k < entries.len(),
        entries[k] matches Node::Dir { name, entries: below, history } && issue_of(
            LocationView { parent: dir, name: name@ },
            below@,
            history,
        ) is Err,
    ensures
        store_entries(m, dir, entries) == store_entries(m, dir, entries.remove(k)),
    decreases entries.len(),
{
    if k == 0 {
        assert(entries.remove(0) =~= entries.skip(1));
    } else {
        let rest = entries.skip(1);
        let without = entries.remove(k);
        assert(without[0] == entries[0]);
        assert(without.skip(1) =~= rest.remove(k - 1));
        assert(rest[k - 1] == entries[k]);
        match store_entry(m, dir, entries[0]) {
            Ok(next) => {
                lemma_unreadable_issue_is_skipped(next, dir, rest, k - 1);
            },
            Err(_) => {},
        }
    }
}

/// A directory without the file `description` does not fail the reading of
/// a store and adds nothing to it: the store is the one that is read from
/// the other entries alone.
pub proof fn lemma_record_without_description_is_skipped(
    m: Map<Seq<char>, IssueView>,
    dir: Seq<char>,
    entries: Seq<Node>,
    k: int,
)
    requires
        0 <= k < entries.len(),
        entries[k] matches Node::Dir { entries: below, .. } && forall|i: int|
            0 <= i < below.len() ==> (#[trigger] below@[i]).spec_name() != "description"@,
    ensures
        store_entries(m, dir, entries) == store_entries(m, dir, entries.remove(k)),
{
    match entries[k] {
        Node::Dir { name, entries: below, history } => {
            lemma_no_issue_without_description(
                LocationView { parent: dir, name: name@ },
                below@,
                history,
            );
        },
        _ => {},
    }
    lemma_unreadable_issue_is_skipped(m, dir, entries, k);
}

} // verus!
