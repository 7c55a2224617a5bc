//! Instants in time, held as seconds and nanoseconds since the Unix epoch.

use vstd::prelude::*;

verus! {

/// Trusted: the error that chrono's parsers return; nothing is known of what it holds.
#[verifier::external_type_specification]
#[verifier::external_body]
pub struct ExParseError(chrono::format::ParseError);

/// An instant: whole seconds since 1970-01-01T00:00:00Z, and the nanoseconds
/// past that second. Two timestamps are equal when they name the same instant,
/// whatever offset they were written with.
#[derive(Clone, Copy, Debug, PartialEq, Eq, Structural)]
pub struct Timestamp {
    pub secs: i64,
    pub nanos: u32,
}

/// The instant that an RFC 3339 text denotes, as seconds and nanoseconds, or
/// `None` where the text is not a valid RFC 3339 date and time.
pub uninterp spec fn rfc3339_instant(s: Seq<char>) -> Option<(i64, u32)>;

/// The RFC 3339 text, at offset `+00:00`, of the instant given by seconds and
/// nanoseconds, or `None` where the instant lies outside the calendar's range.
pub uninterp spec fn rfc3339_text(secs: i64, nanos: u32) -> Option<Seq<char>>;

/// Trusted: `chrono::DateTime::parse_from_rfc3339` either refuses the text or
/// returns the instant it denotes, read off with `timestamp` and
/// `timestamp_subsec_nanos`; which of the two, and which instant, depends on the
/// text alone.
#[verifier::external_body]
fn parse_instant(s: &str) -> (r: Result<(i64, u32), chrono::format::ParseError>)
    ensures
        match r {
            Ok(p) => rfc3339_instant(s@) == Some(p),
            Err(_) => rfc3339_instant(s@) is None,
        },
{
    match chrono::DateTime::parse_from_rfc3339(s) {
        Ok(t) => Ok((t.timestamp(), t.timestamp_subsec_nanos())),
        Err(e) => Err(e),
    }
}

/// Trusted: `chrono::DateTime::to_rfc3339`, on the UTC date and time that
/// `chrono::DateTime::from_timestamp` makes of the seconds and nanoseconds,
/// returns a text that depends on them alone; `None` where `from_timestamp`
/// refuses them.
#[verifier::external_body]
fn format_instant(secs: i64, nanos: u32) -> (r: Option<String>)
    ensures
        match r {
            Some(s) => rfc3339_text(secs, nanos) == Some(s@),
            None => rfc3339_text(secs, nanos) is None,
        },
{
    match chrono::DateTime::from_timestamp(secs, nanos) {
        Some(t) => Some(t.to_rfc3339()),
        None => None,
    }
}

/// Trusted: `chrono::Utc::now` returns the current instant, of which nothing
/// can be said beforehand.
#[verifier::external_body]
pub(crate) fn current_instant() -> (r: (i64, u32)) {
    let t = chrono::Utc::now();
    (t.timestamp(), t.timestamp_subsec_nanos())
}

impl Timestamp {
    /// Whether `self` is the same instant as `other` or an earlier one.
    pub open spec fn at_or_before(self, other: Timestamp) -> bool {
        self.secs < other.secs || (self.secs == other.secs && self.nanos <= other.nanos)
    }

    /// The instant that an RFC 3339 text denotes, if it denotes one.
    pub open spec fn spec_parse(s: Seq<char>) -> Option<Timestamp> {
        match rfc3339_instant(s) {
            Some(p) => Some(Timestamp { secs: p.0, nanos: p.1 }),
            None => None,
        }
    }

    /// The RFC 3339 text of the instant at offset `+00:00`, where it has one.
    pub open spec fn spec_rfc3339(self) -> Option<Seq<char>> {
        rfc3339_text(self.secs, self.nanos)
    }

    /// The instant a number of whole seconds after the Unix epoch.
    pub fn from_unix_seconds(secs: i64) -> (t: Timestamp)
        ensures
            t == (Timestamp { secs, nanos: 0 }),
    {
        Timestamp { secs, nanos: 0 }
    }

    /// Whether `self` is the same instant as `other` or an earlier one.
    pub fn le(&self, other: &Timestamp) -> (r: bool)
        ensures
            r == self.at_or_before(*other),
    {
        self.secs < other.secs || (self.secs == other.secs && self.nanos <= other.nanos)
    }

    /// Reads an RFC 3339 date and time, such as `2025-07-24T08:36:25-06:00`.
    /// Succeeds exactly on the texts that denote an instant.
    pub fn parse_rfc3339(s: &str) -> (r: Result<Timestamp, chrono::format::ParseError>)
        ensures
            match r {
                Ok(t) => Timestamp::spec_parse(s@) == Some(t),
                Err(_) => Timestamp::spec_parse(s@) is None,
            },
    {
        match parse_instant(s) {
            Ok(p) => Ok(Timestamp { secs: p.0, nanos: p.1 }),
            Err(e) => Err(e),
        }
    }

    /// The RFC 3339 text of the instant at offset `+00:00`, where it has one.
    pub fn to_rfc3339(&self) -> (r: Option<String>)
        ensures
            match r {
                Some(s) => self.spec_rfc3339() == Some(s@),
                None => self.spec_rfc3339() is None,
            },
    {
        format_instant(self.secs, self.nanos)
    }

    /// The current instant.
    pub fn now() -> Timestamp {
        let p = current_instant();
        Timestamp { secs: p.0, nanos: p.1 }
    }
}

/// The order of instants is total.
pub proof fn lemma_at_or_before_total(a: Timestamp, b: Timestamp)
    ensures
        a.at_or_before(b) || b.at_or_before(a),
{
}

/// The order of instants is transitive.
pub proof fn lemma_at_or_before_transitive(a: Timestamp, b: Timestamp, c: Timestamp)
    requires
        a.at_or_before(b),
        b.at_or_before(c),
    ensures
        a.at_or_before(c),
{
}

} // verus!
