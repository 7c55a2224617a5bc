//! Filters: which issues a listing shows.
//!
//! A filter is built from clauses of the form `name=value,value,...`. Each
//! clause replaces what an earlier clause of the same name said.

use vstd::prelude::*;
use crate::issue::Issue;
use crate::issue::IssueError;
use crate::issue::IssueFault;
use crate::issue::IssueView;
use crate::issue::State;
use crate::order::insert_index;
use crate::order::inserted;
use crate::order::is_sorted;
use crate::order::lemma_insert_index;
use crate::order::lemma_insert_index_is;
use crate::order::lemma_inserted_is_sorted;
use crate::order::total_preorder;
use crate::text::chars_of;
use crate::text::same_text;
use crate::text::split;
use crate::text::split_text;
use crate::text::string_of_range;
use crate::text::texts;
use crate::timestamp::Timestamp;

verus! {

/// What is wrong with a filter clause.
#[derive(Debug, PartialEq)]
pub enum ParseFilterError {
    /// The clause has no `=` or more than one, an unknown name, an empty
    /// tag, or a time range without `..` or with more than one.
    ParseError,
    /// A state is none of the six.
    IssueParseError(IssueError),
    /// A time is not written as RFC 3339 asks.
    ChronoParseError,
}

/// What is wrong with a filter clause, as texts.
pub enum ParseFilterFault {
    ParseError,
    IssueParseError(IssueFault),
    ChronoParseError,
}

impl View for ParseFilterError {
    type V = ParseFilterFault;

    open spec fn view(&self) -> ParseFilterFault {
        match self {
            ParseFilterError::ParseError => ParseFilterFault::ParseError,
            ParseFilterError::IssueParseError(e) => ParseFilterFault::IssueParseError(e@),
            ParseFilterError::ChronoParseError => ParseFilterFault::ChronoParseError,
        }
    }
}

/// Which issues to show. Each list stands for the set of its items.
#[derive(Debug)]
pub struct Filter {
    /// The states to show.
    pub include_states: Vec<State>,
    /// The assignees to show, the empty text standing for "nobody"; every
    /// assignee if the list is empty.
    pub include_assignees: Vec<String>,
    /// If not empty: show only issues with one of these tags.
    pub include_tags: Vec<String>,
    /// Show no issue with one of these tags.
    pub exclude_tags: Vec<String>,
    /// Show no issue that was done before this time.
    pub start_done_time: Option<Timestamp>,
    /// Show no issue that was done after this time.
    pub end_done_time: Option<Timestamp>,
}

/// A filter as sets.
pub struct FilterView {
    pub include_states: Set<State>,
    pub include_assignees: Set<Seq<char>>,
    pub include_tags: Set<Seq<char>>,
    pub exclude_tags: Set<Seq<char>>,
    pub start_done_time: Option<Timestamp>,
    pub end_done_time: Option<Timestamp>,
}

impl View for Filter {
    type V = FilterView;

    open spec fn view(&self) -> FilterView {
        FilterView {
            include_states: self.include_states@.to_set(),
            include_assignees: texts(self.include_assignees@).to_set(),
            include_tags: texts(self.include_tags@).to_set(),
            exclude_tags: texts(self.exclude_tags@).to_set(),
            start_done_time: self.start_done_time,
            end_done_time: self.end_done_time,
        }
    }
}

/// The filter that no clause has changed: it shows the issues that are
/// open, whoever they are assigned to and whatever their tags are.
pub open spec fn default_filter() -> FilterView {
    FilterView {
        include_states: set![State::InProgress, State::Blocked, State::Backlog, State::New],
        include_assignees: Set::empty(),
        include_tags: Set::empty(),
        exclude_tags: Set::empty(),
        start_done_time: None,
        end_done_time: None,
    }
}

/// The states that a list of texts names, if each of them names one.
pub open spec fn states_named(tokens: Seq<Seq<char>>) -> Option<Set<State>> {
    if forall|i: int| 0 <= i < tokens.len() ==> State::parse(#[trigger] tokens[i]) is Some {
        Some(
            Set::new(
                |s: State|
                    exists|i: int|
                        0 <= i < tokens.len() && State::parse(#[trigger] tokens[i]) == Some(s),
            ),
        )
    } else {
        None
    }
}

/// The tags to show that a list of values names: the values that do not
/// begin with `-`.
pub open spec fn tags_included(values: Seq<Seq<char>>) -> Set<Seq<char>> {
    Set::new(
        |t: Seq<char>|
            exists|i: int|
                0 <= i < values.len() && values[i].len() > 0 && values[i][0] != '-'
                    && #[trigger] values[i] == t,
    )
}

/// The tags to hide that a list of values names: what follows the `-` in
/// the values that begin with one.
pub open spec fn tags_excluded(values: Seq<Seq<char>>) -> Set<Seq<char>> {
    Set::new(
        |t: Seq<char>|
            exists|i: int|
                0 <= i < values.len() && values[i].len() > 0 && values[i][0] == '-' && (
                #[trigger] values[i]).skip(1) == t,
    )
}

/// One end of a time range: none if the text is empty, else the time that
/// it writes; `Err` if it writes none.
pub open spec fn bound(text: Seq<char>) -> Result<Option<Timestamp>, ParseFilterFault> {
    if text.len() == 0 {
        Ok(None)
    } else {
        match Timestamp::spec_parse(text) {
            Some(t) => Ok(Some(t)),
            None => Err(ParseFilterFault::ChronoParseError),
        }
    }
}

/// The filter that a clause makes of a filter.
///
/// - `state=S,S,...` replaces the states to show.
/// - `assignee=A,A,...` replaces the assignees to show.
/// - `tag=T,-T,...` replaces the tags to show and the tags to hide.
/// - `done-time=START..END` replaces the time range; either end may be
///   empty, which leaves that end open.
pub open spec fn parse_clause(f: FilterView, clause: Seq<char>) -> Result<
    FilterView,
    ParseFilterFault,
> {
    let tokens = split(clause, "="@);
    if tokens.len() != 2 {
        Err(ParseFilterFault::ParseError)
    } else if tokens[0] == "state"@ {
        match states_named(split(tokens[1], ","@)) {
            Some(states) => Ok(FilterView { include_states: states, ..f }),
            None => Err(ParseFilterFault::IssueParseError(IssueFault::StateParseError)),
        }
    } else if tokens[0] == "assignee"@ {
        Ok(FilterView { include_assignees: split(tokens[1], ","@).to_set(), ..f })
    } else if tokens[0] == "tag"@ {
        let values = split(tokens[1], ","@);
        if exists|i: int| 0 <= i < values.len() && (#[trigger] values[i]).len() == 0 {
            Err(ParseFilterFault::ParseError)
        } else {
            Ok(
                FilterView {
                    include_tags: tags_included(values),
                    exclude_tags: tags_excluded(values),
                    ..f
                },
            )
        }
    } else if tokens[0] == "done-time"@ {
        let times = split(tokens[1], ".."@);
        if times.len() != 2 {
            Err(ParseFilterFault::ParseError)
        } else {
            match bound(times[0]) {
                Err(e) => Err(e),
                Ok(start) => match bound(times[1]) {
                    Err(e) => Err(e),
                    Ok(end) => Ok(FilterView { start_done_time: start, end_done_time: end, ..f }),
                },
            }
        }
    } else {
        Err(ParseFilterFault::ParseError)
    }
}

/// Whether a filter shows an issue: every condition of the filter must hold.
///
/// - The issue's state is among the states to show.
/// - If assignees are named, the issue's assignee is among them, or the
///   issue has none and the empty text is among them.
/// - If tags to show are named, the issue has one of them.
/// - The issue has none of the tags to hide.
/// - If the issue was done, it was done within the time range. An issue that
///   was not done passes whatever the range is.
pub open spec fn admits(f: FilterView, issue: IssueView) -> bool {
    &&& f.include_states.contains(issue.state)
    &&& (f.include_assignees == Set::<Seq<char>>::empty() || f.include_assignees.contains(
        match issue.assignee {
            Some(a) => a,
            None => Seq::empty(),
        },
    ))
    &&& (f.include_tags == Set::<Seq<char>>::empty() || exists|i: int|
        0 <= i < issue.tags.len() && f.include_tags.contains(#[trigger] issue.tags[i]))
    &&& forall|i: int| 0 <= i < issue.tags.len() ==> !f.exclude_tags.contains(#[trigger] issue.tags[i])
    &&& match issue.done_time {
        Some(done) => {
            &&& f.start_done_time matches Some(start) ==> start.at_or_before(done)
            &&& f.end_done_time matches Some(end) ==> done.at_or_before(end)
        },
        None => true,
    }
}

/// Whether a list of strings holds a text.
fn holds(list: &Vec<String>, text: &str) -> (r: bool)
    ensures
        r == texts(list@).to_set().contains(text@),
        r == texts(list@).contains(text@),
{
    let mut i: usize = 0;
    while i < list.len()
        invariant
            i <= list.len(),
            forall|k: int| 0 <= k < i ==> list@[k]@ != text@,
        decreases list.len() - i,
    {
        if same_text(list[i].as_str(), text) {
            assert(texts(list@)[i as int] == text@);
            return true;
        }
        i += 1;
    }
    assert forall|k: int| 0 <= k < texts(list@).len() implies texts(list@)[k] != text@ by {
        assert(texts(list@)[k] == list@[k]@);
    }
    false
}

/// One end of a time range.
fn read_bound(text: &str) -> (r: Result<Option<Timestamp>, ParseFilterError>)
    ensures
        match bound(text@) {
            Ok(b) => r == Ok::<Option<Timestamp>, ParseFilterError>(b),
            Err(e) => r matches Err(x) && x@ == e,
        },
{
    if text.is_empty() {
        Ok(None)
    } else {
        match Timestamp::parse_rfc3339(text) {
            Ok(t) => Ok(Some(t)),
            Err(_) => Err(ParseFilterError::ChronoParseError),
        }
    }
}

/// The states that a list of texts names.
fn read_states(tokens: &Vec<String>) -> (r: Option<Vec<State>>)
    ensures
        match states_named(texts(tokens@)) {
            Some(states) => r matches Some(v) && v@.to_set() == states,
            None => r is None,
        },
{
    let mut states: Vec<State> = Vec::new();
    let mut i: usize = 0;
    let ghost t = texts(tokens@);
    while i < tokens.len()
        invariant
            i <= tokens.len(),
            t == texts(tokens@),
            forall|k: int| 0 <= k < i ==> State::parse(#[trigger] t[k]) is Some,
            states.len() == i,
            forall|k: int| 0 <= k < i ==> State::parse(#[trigger] t[k]) == Some(states@[k]),
        decreases tokens.len() - i,
    {
        assert(t[i as int] == tokens@[i as int]@);
        match State::from_str(tokens[i].as_str()) {
            Ok(s) => {
                states.push(s);
            },
            Err(_) => {
                return None;
            },
        }
        i += 1;
    }
    proof {
        let want = states_named(t)->0;
        assert forall|s: State| states@.to_set().contains(s) <==> want.contains(s) by {
            if states@.to_set().contains(s) {
                let k = choose|k: int| 0 <= k < states@.len() && states@[k] == s;
                assert(State::parse(t[k]) == Some(s));
            }
            if want.contains(s) {
                let k = choose|k: int| 0 <= k < t.len() && State::parse(#[trigger] t[k]) == Some(s);
                assert(states@[k] == s);
            }
        }
        assert(states@.to_set() =~= want);
    }
    Some(states)
}

/// The tags to show and the tags to hide that a list of values names, or
/// `None` if one of the values is empty.
fn read_tags(values: &Vec<String>) -> (r: Option<(Vec<String>, Vec<String>)>)
    ensures
        match r {
            Some((wanted, unwanted)) => {
                &&& forall|i: int| 0 <= i < values.len() ==> (#[trigger] texts(values@)[i]).len() > 0
                &&& texts(wanted@).to_set() == tags_included(texts(values@))
                &&& texts(unwanted@).to_set() == tags_excluded(texts(values@))
            },
            None => exists|i: int| 0 <= i < values.len() && (#[trigger] texts(values@)[i]).len() == 0,
        },
{
    let mut wanted: Vec<String> = Vec::new();
    let mut unwanted: Vec<String> = Vec::new();
    let mut i: usize = 0;
    let ghost v = texts(values@);
    while i < values.len()
        invariant
            i <= values.len(),
            v == texts(values@),
            forall|k: int| 0 <= k < i ==> (#[trigger] v[k]).len() > 0,
            texts(wanted@).to_set() =~= tags_included(v.take(i as int)),
            texts(unwanted@).to_set() =~= tags_excluded(v.take(i as int)),
        decreases values.len() - i,
    {
        let ghost before = v.take(i as int);
        let ghost after = v.take(i + 1);
        let ghost inc = texts(wanted@);
        let ghost exc = texts(unwanted@);
        assert(v[i as int] == values@[i as int]@);
        let chars = chars_of(values[i].as_str());
        if chars.len() == 0 {
            return None;
        }
        proof {
            assert(after =~= before.push(v[i as int]));
            assert forall|k: int| 0 <= k < before.len() implies before[k] == after[k] by {}
        }
        if chars[0] == '-' {
            let tag = string_of_range(&chars, 1, chars.len());
            proof {
                assert(chars@.subrange(1, chars.len() as int) =~= chars@.skip(1));
                assert(texts(unwanted@.push(tag)) =~= exc.push(tag@));
                assert forall|t: Seq<char>|
                    exc.push(tag@).to_set().contains(t) <==> tags_excluded(after).contains(
                        t,
                    ) by {
                    if exc.push(tag@).to_set().contains(t) {
                        let k = choose|k: int| 0 <= k < exc.push(tag@).len() && exc.push(tag@)[k] == t;
                        if k < exc.len() {
                            assert(exc.to_set().contains(t));
                            let j = choose|j: int|
                                0 <= j < before.len() && before[j].len() > 0 && before[j][0] == '-'
                                    && (#[trigger] before[j]).skip(1) == t;
                            assert(after[j] == before[j]);
                        } else {
                            assert(after[i as int].skip(1) == t);
                        }
                    }
                    if tags_excluded(after).contains(t) {
                        let j = choose|j: int|
                            0 <= j < after.len() && after[j].len() > 0 && after[j][0] == '-' && (
                            #[trigger] after[j]).skip(1) == t;
                        if j < i {
                            assert(before[j] == after[j]);
                            assert(tags_excluded(before).contains(t));
                            assert(exc.to_set().contains(t));
                            let k = choose|k: int| 0 <= k < exc.len() && exc[k] == t;
                            assert(exc.push(tag@)[k] == t);
                        } else {
                            assert(exc.push(tag@)[exc.len() as int] == t);
                        }
                    }
                }
                assert forall|t: Seq<char>|
                    inc.to_set().contains(t) <==> tags_included(after).contains(t) by {
                    if inc.to_set().contains(t) {
                        assert(tags_included(before).contains(t));
                        let j = choose|j: int|
                            0 <= j < before.len() && before[j].len() > 0 && before[j][0] != '-'
                                && #[trigger] before[j] == t;
                        assert(after[j] == before[j]);
                    }
                    if tags_included(after).contains(t) {
                        let j = choose|j: int|
                            0 <= j < after.len() && after[j].len() > 0 && after[j][0] != '-'
                                && #[trigger] after[j] == t;
                        assert(before[j] == after[j]);
                        assert(tags_included(before).contains(t));
                    }
                }
            }
            unwanted.push(tag);
        } else {
            let tag = values[i].clone();
            proof {
                assert(texts(wanted@.push(tag)) =~= inc.push(tag@));
                assert forall|t: Seq<char>|
                    inc.push(tag@).to_set().contains(t) <==> tags_included(after).contains(
                        t,
                    ) by {
                    if inc.push(tag@).to_set().contains(t) {
                        let k = choose|k: int| 0 <= k < inc.push(tag@).len() && inc.push(tag@)[k] == t;
                        if k < inc.len() {
                            assert(inc.to_set().contains(t));
                            let j = choose|j: int|
                                0 <= j < before.len() && before[j].len() > 0 && before[j][0] != '-'
                                    && #[trigger] before[j] == t;
                            assert(after[j] == before[j]);
                        } else {
                            assert(after[i as int] == t);
                        }
                    }
                    if tags_included(after).contains(t) {
                        let j = choose|j: int|
                            0 <= j < after.len() && after[j].len() > 0 && after[j][0] != '-'
                                && #[trigger] after[j] == t;
                        if j < i {
                            assert(before[j] == after[j]);
                            assert(tags_included(before).contains(t));
                            assert(inc.to_set().contains(t));
                            let k = choose|k: int| 0 <= k < inc.len() && inc[k] == t;
                            assert(inc.push(tag@)[k] == t);
                        } else {
                            assert(inc.push(tag@)[inc.len() as int] == t);
                        }
                    }
                }
                assert forall|t: Seq<char>|
                    exc.to_set().contains(t) <==> tags_excluded(after).contains(t) by {
                    if exc.to_set().contains(t) {
                        assert(tags_excluded(before).contains(t));
                        let j = choose|j: int|
                            0 <= j < before.len() && before[j].len() > 0 && before[j][0] == '-'
                                && (#[trigger] before[j]).skip(1) == t;
                        assert(after[j] == before[j]);
                    }
                    if tags_excluded(after).contains(t) {
                        let j = choose|j: int|
                            0 <= j < after.len() && after[j].len() > 0 && after[j][0] == '-' && (
                            #[trigger] after[j]).skip(1) == t;
                        assert(before[j] == after[j]);
                        assert(tags_excluded(before).contains(t));
                    }
                }
            }
            wanted.push(tag);
        }
        i += 1;
    }
    proof {
        assert(v.take(v.len() as int) =~= v);
    }
    Some((wanted, unwanted))
}

impl Filter {
    /// The filter that shows the issues that are open, whoever they are
    /// assigned to and whatever their tags are.
    pub fn new() -> (f: Filter)
        ensures
            f@ == default_filter(),
    {
        let mut states: Vec<State> = Vec::new();
        states.push(State::InProgress);
        states.push(State::Blocked);
        states.push(State::Backlog);
        states.push(State::New);
        let f = Filter {
            include_states: states,
            include_assignees: Vec::new(),
            include_tags: Vec::new(),
            exclude_tags: Vec::new(),
            start_done_time: None,
            end_done_time: None,
        };
        proof {
            let s = f.include_states@;
            assert(s[0] == State::InProgress && s[1] == State::Blocked && s[2] == State::Backlog
                && s[3] == State::New);
            assert(s.to_set() =~= set![
                State::InProgress,
                State::Blocked,
                State::Backlog,
                State::New,
            ]);
            assert(texts(f.include_assignees@).to_set() =~= Set::<Seq<char>>::empty());
            assert(texts(f.include_tags@).to_set() =~= Set::<Seq<char>>::empty());
            assert(texts(f.exclude_tags@).to_set() =~= Set::<Seq<char>>::empty());
        }
        f
    }

    /// Takes one clause into the filter. On any fault the filter stays as it
    /// was.
    ///
    /// Fails with `ParseError` if the clause is not `name=values` with one of
    /// the four names, if a tag is empty, or if a time range is not
    /// `START..END`; with `IssueParseError` if a state is none of the six;
    /// with `ChronoParseError` if an end of a time range is no RFC 3339 time.
    pub fn parse(&mut self, filter_str: &str) -> (r: Result<(), ParseFilterError>)
        ensures
            match parse_clause(old(self)@, filter_str@) {
                Ok(f) => r is Ok && final(self)@ == f,
                Err(e) => r matches Err(x) && x@ == e && final(self)@ == old(self)@,
            },
    {
        let tokens = split_text(filter_str, "=");
        if tokens.len() != 2 {
            return Err(ParseFilterError::ParseError);
        }
        let name = tokens[0].as_str();
        let values = tokens[1].as_str();
        proof {
            assert(texts(tokens@)[0] == tokens@[0]@);
            assert(texts(tokens@)[1] == tokens@[1]@);
        }
        if same_text(name, "state") {
            match read_states(&split_text(values, ",")) {
                Some(states) => {
                    self.include_states = states;
                    Ok(())
                },
                None => Err(ParseFilterError::IssueParseError(IssueError::StateParseError)),
            }
        } else if same_text(name, "assignee") {
            self.include_assignees = split_text(values, ",");
            Ok(())
        } else if same_text(name, "tag") {
            match read_tags(&split_text(values, ",")) {
                Some((wanted, unwanted)) => {
                    self.include_tags = wanted;
                    self.exclude_tags = unwanted;
                    Ok(())
                },
                None => Err(ParseFilterError::ParseError),
            }
        } else if same_text(name, "done-time") {
            let times = split_text(values, "..");
            if times.len() != 2 {
                return Err(ParseFilterError::ParseError);
            }
            proof {
                assert(texts(times@)[0] == times@[0]@);
                assert(texts(times@)[1] == times@[1]@);
            }
            let start = match read_bound(times[0].as_str()) {
                Ok(b) => b,
                Err(e) => {
                    return Err(e);
                },
            };
            let end = match read_bound(times[1].as_str()) {
                Ok(b) => b,
                Err(e) => {
                    return Err(e);
                },
            };
            self.start_done_time = start;
            self.end_done_time = end;
            Ok(())
        } else {
            Err(ParseFilterError::ParseError)
        }
    }

    /// Whether the filter shows the issue.
    pub fn matches(&self, issue: &Issue) -> (r: bool)
        ensures
            r == admits(self@, issue@),
    {
        let mut state_shown = false;
        let mut i: usize = 0;
        while i < self.include_states.len()
            invariant
                i <= self.include_states.len(),
                state_shown == exists|k: int| 0 <= k < i && self.include_states@[k] == issue.state,
            decreases self.include_states.len() - i,
        {
            if self.include_states[i] == issue.state {
                state_shown = true;
            }
            i += 1;
        }
        if !state_shown {
            return false;
        }
        if self.include_assignees.len() > 0 {
            proof {
                reveal_strlit("");
                assert(""@ =~= Seq::<char>::empty());
            }
            let assignee = match &issue.assignee {
                Some(a) => a.as_str(),
                None => "",
            };
            if !holds(&self.include_assignees, assignee) {
                proof {
                    assert(texts(self.include_assignees@).to_set().contains(
                        texts(self.include_assignees@)[0],
                    ));
                }
                return false;
            }
        } else {
            assert(texts(self.include_assignees@).to_set() =~= Set::<Seq<char>>::empty());
        }
        if self.include_tags.len() > 0 {
            proof {
                assert(texts(self.include_tags@).to_set().contains(texts(self.include_tags@)[0]));
            }
            let mut found = false;
            let mut j: usize = 0;
            while j < issue.tags.len()
                invariant
                    j <= issue.tags.len(),
                    found == exists|k: int|
                        0 <= k < j && self@.include_tags.contains(#[trigger] issue@.tags[k]),
                decreases issue.tags.len() - j,
            {
                assert(issue@.tags[j as int] == issue.tags@[j as int]@);
                if holds(&self.include_tags, issue.tags[j].as_str()) {
                    found = true;
                }
                j += 1;
            }
            if !found {
                return false;
            }
        } else {
            assert(texts(self.include_tags@).to_set() =~= Set::<Seq<char>>::empty());
        }
        let mut j: usize = 0;
        while j < issue.tags.len()
            invariant
                j <= issue.tags.len(),
                forall|k: int| 0 <= k < j ==> !self@.exclude_tags.contains(#[trigger] issue@.tags[k]),
            decreases issue.tags.len() - j,
        {
            assert(issue@.tags[j as int] == issue.tags@[j as int]@);
            if holds(&self.exclude_tags, issue.tags[j].as_str()) {
                return false;
            }
            j += 1;
        }
        match issue.done_time {
            Some(done) => {
                let after_start = match self.start_done_time {
                    Some(start) => start.le(&done),
                    None => true,
                };
                let before_end = match self.end_done_time {
                    Some(end) => done.le(&end),
                    None => true,
                };
                after_start && before_end
            },
            None => true,
        }
    }
}

/// The views of a list of issues.
pub open spec fn issue_views(v: Seq<Issue>) -> Seq<IssueView> {
    v.map_values(|i: Issue| i@)
}

/// The views of a list of issues that are held elsewhere.
pub open spec fn shown_views(v: Seq<&Issue>) -> Seq<IssueView> {
    v.map_values(|i: &Issue| i@)
}

/// The order in which a listing shows issues: by time of creation.
pub open spec fn listing_order() -> spec_fn(IssueView, IssueView) -> bool {
    |a: IssueView, b: IssueView| a.creation_time.at_or_before(b.creation_time)
}

/// The order of a listing is total and transitive.
pub proof fn lemma_listing_order()
    ensures
        total_preorder(listing_order()),
{
    let le = listing_order();
    assert forall|a: IssueView, b: IssueView| #[trigger] le(a, b) || le(b, a) by {}
    assert forall|a: IssueView, b: IssueView, c: IssueView| #[trigger]
        le(a, b) && #[trigger] le(b, c) implies le(a, c) by {}
}

/// Whether a listing of one state shows an issue: the issue is in that
/// state and the filter shows it.
pub open spec fn listed(f: FilterView, state: State, issue: IssueView) -> bool {
    issue.state == state && admits(f, issue)
}

/// What a listing of one state shows: the issues in `acc`, and those of
/// `issues` that it shows, each put in by its time of creation.
pub open spec fn listing(acc: Seq<IssueView>, f: FilterView, state: State, issues: Seq<IssueView>) -> Seq<
    IssueView,
>
    decreases issues.len(),
{
    if issues.len() == 0 {
        acc
    } else if listed(f, state, issues[0]) {
        listing(inserted(acc, issues[0], listing_order()), f, state, issues.skip(1))
    } else {
        listing(acc, f, state, issues.skip(1))
    }
}

/// Every issue of a listing is in the state of the listing and is shown by
/// the filter, if that holds of the issues it began with.
pub proof fn lemma_listing_shows_what_is_listed(
    acc: Seq<IssueView>,
    f: FilterView,
    state: State,
    issues: Seq<IssueView>,
)
    requires
        forall|i: int| 0 <= i < acc.len() ==> listed(f, state, #[trigger] acc[i]),
    ensures
        forall|i: int|
            0 <= i < listing(acc, f, state, issues).len() ==> listed(
                f,
                state,
                #[trigger] listing(acc, f, state, issues)[i],
            ),
    decreases issues.len(),
{
    if issues.len() > 0 {
        if listed(f, state, issues[0]) {
            let next = inserted(acc, issues[0], listing_order());
            lemma_insert_index(acc, issues[0], listing_order());
            let p = insert_index(acc, issues[0], listing_order());
            assert forall|i: int| 0 <= i < next.len() implies listed(f, state, #[trigger] next[i]) by {
                if i < p {
                    assert(next[i] == acc[i]);
                } else if i > p {
                    assert(next[i] == acc[i - 1]);
                }
            }
            lemma_listing_shows_what_is_listed(next, f, state, issues.skip(1));
            assert(listing(acc, f, state, issues) == listing(next, f, state, issues.skip(1)));
        } else {
            lemma_listing_shows_what_is_listed(acc, f, state, issues.skip(1));
            assert(listing(acc, f, state, issues) == listing(acc, f, state, issues.skip(1)));
        }
    } else {
        assert(listing(acc, f, state, issues) == acc);
    }
}

/// A listing is in the order of the times of creation, if the issues it
/// began with are.
pub proof fn lemma_listing_is_sorted(
    acc: Seq<IssueView>,
    f: FilterView,
    state: State,
    issues: Seq<IssueView>,
)
    requires
        is_sorted(acc, listing_order()),
    ensures
        is_sorted(listing(acc, f, state, issues), listing_order()),
    decreases issues.len(),
{
    if issues.len() > 0 {
        if listed(f, state, issues[0]) {
            lemma_listing_order();
            lemma_inserted_is_sorted(acc, issues[0], listing_order());
            lemma_listing_is_sorted(
                inserted(acc, issues[0], listing_order()),
                f,
                state,
                issues.skip(1),
            );
        } else {
            lemma_listing_is_sorted(acc, f, state, issues.skip(1));
        }
    }
}

impl Filter {
    /// The issues of a store in one state that the filter shows, oldest
    /// first; issues of one age come in the order of their identifiers.
    pub fn list<'a>(&self, issues: &'a Vec<Issue>, state: State) -> (shown: Vec<&'a Issue>)
        ensures
            shown_views(shown@) == listing(Seq::empty(), self@, state, issue_views(issues@)),
    {
        let mut shown: Vec<&'a Issue> = Vec::new();
        let mut i: usize = 0;
        let ghost all = issue_views(issues@);
        proof {
            assert(all.skip(0) =~= all);
            assert(shown_views(shown@) =~= Seq::<IssueView>::empty());
        }
        while i < issues.len()
            invariant
                i <= issues.len(),
                all == issue_views(issues@),
                listing(Seq::empty(), self@, state, all) == listing(
                    shown_views(shown@),
                    self@,
                    state,
                    all.skip(i as int),
                ),
            decreases issues.len() - i,
        {
            proof {
                assert(all.skip(i as int)[0] == issues@[i as int]@);
                assert(all.skip(i as int).skip(1) =~= all.skip(i + 1));
            }
            let issue = &issues[i];
            if issue.state == state && self.matches(issue) {
                let mut p: usize = 0;
                while p < shown.len() && shown[p].creation_time.le(&issue.creation_time)
                    invariant
                        p <= shown.len(),
                        forall|k: int|
                            0 <= k < p ==> (#[trigger] shown@[k]).creation_time.at_or_before(
                                issue.creation_time,
                            ),
                    decreases shown.len() - p,
                {
                    p += 1;
                }
                proof {
                    let s = shown_views(shown@);
                    let le = listing_order();
                    assert forall|k: int| 0 <= k < p implies le(#[trigger] s[k], issue@) by {
                        assert(s[k] == shown@[k]@);
                    }
                    if p < shown.len() {
                        assert(s[p as int] == shown@[p as int]@);
                    }
                    lemma_insert_index_is(s, issue@, le, p as int);
                    assert(shown_views(shown@.insert(p as int, issue)) =~= s.insert(
                        p as int,
                        issue@,
                    ));
                }
                shown.insert(p, issue);
            }
            i += 1;
        }
        shown
    }
}

} // verus!
