//! Tags as file names.
//!
//! A tag is any text; its marker file is named by the tag with every `,`
//! written as `,0` and every `/` written as `,1`. The two directions are
//! inverse to each other, and no file name made here holds a `/`.

use vstd::prelude::*;
use crate::issue::Issue;
use crate::issue::IssueError;
use crate::issue::IssueFault;
use crate::text::chars_of;
use crate::text::string_of;

verus! {

/// Why a file name is not the name of a tag.
pub enum TagFault {
    /// A comma is followed by this character, which selects nothing.
    InvalidEscape(char),
    /// A comma is followed by another comma or by the end of the name.
    TrailingEscape,
}

/// How one character of a tag is written in a file name.
pub open spec fn escaped_char(c: char) -> Seq<char> {
    if c == ',' {
        seq![',', '0']
    } else if c == '/' {
        seq![',', '1']
    } else {
        seq![c]
    }
}

/// The file name of a tag: its characters, each written by `escaped_char`.
pub open spec fn escaped(tag: Seq<char>) -> Seq<char>
    decreases tag.len(),
{
    if tag.len() == 0 {
        Seq::<char>::empty()
    } else {
        escaped_char(tag[0]) + escaped(tag.skip(1))
    }
}

/// A tag with `c` put in front, where there is a tag.
pub open spec fn prefixed(front: Seq<char>, rest: Result<Seq<char>, TagFault>) -> Result<
    Seq<char>,
    TagFault,
> {
    match rest {
        Ok(t) => Ok(front + t),
        Err(e) => Err(e),
    }
}

/// The tag that a file name stands for, or the first fault met when the name
/// is read from the left.
pub open spec fn unescaped(name: Seq<char>) -> Result<Seq<char>, TagFault>
    decreases name.len(),
{
    if name.len() == 0 {
        Ok(Seq::<char>::empty())
    } else if name[0] != ',' {
        prefixed(seq![name[0]], unescaped(name.skip(1)))
    } else if name.len() == 1 || name[1] == ',' {
        Err(TagFault::TrailingEscape)
    } else if name[1] == '0' {
        prefixed(seq![','], unescaped(name.skip(2)))
    } else if name[1] == '1' {
        prefixed(seq!['/'], unescaped(name.skip(2)))
    } else {
        Err(TagFault::InvalidEscape(name[1]))
    }
}

/// The error that stands for a fault in a file name.
pub open spec fn tag_error(fault: TagFault, filename: Seq<char>) -> IssueFault {
    match fault {
        TagFault::InvalidEscape(c) => IssueFault::TagInvalidEscape { escape: seq![c], filename },
        TagFault::TrailingEscape => IssueFault::TagTrailingEscape { filename },
    }
}

/// Writing a tag as a file name and reading the name back gives the tag.
pub proof fn lemma_unescape_escaped(tag: Seq<char>)
    ensures
        unescaped(escaped(tag)) == Ok::<Seq<char>, TagFault>(tag),
    decreases tag.len(),
{
    if tag.len() > 0 {
        let rest = tag.skip(1);
        lemma_unescape_escaped(rest);
        let name = escaped(tag);
        let c = tag[0];
        assert(name == escaped_char(c) + escaped(rest));
        assert(seq![c] + rest =~= tag);
        if c == ',' {
            assert(name[0] == ',' && name[1] == '0');
            assert(name.skip(2) =~= escaped(rest));
        } else if c == '/' {
            assert(name[0] == ',' && name[1] == '1');
            assert(name.skip(2) =~= escaped(rest));
        } else {
            assert(name[0] == c);
            assert(name.skip(1) =~= escaped(rest));
        }
    } else {
        assert(tag =~= Seq::<char>::empty());
    }
}

/// The file name of a tag holds no `/`: it names one entry of a directory.
pub proof fn lemma_escaped_has_no_slash(tag: Seq<char>)
    ensures
        forall|i: int| 0 <= i < escaped(tag).len() ==> escaped(tag)[i] != '/',
    decreases tag.len(),
{
    if tag.len() > 0 {
        let rest = tag.skip(1);
        lemma_escaped_has_no_slash(rest);
        let head = escaped_char(tag[0]);
        assert(escaped(tag) == head + escaped(rest));
        assert forall|i: int| 0 <= i < escaped(tag).len() implies escaped(tag)[i] != '/' by {
            if i < head.len() {
                assert(escaped(tag)[i] == head[i]);
            } else {
                assert(escaped(tag)[i] == escaped(rest)[i - head.len()]);
            }
        }
    }
}

/// Every tag can be kept as a file: its file name is read back as the tag,
/// and holds no `/`, so that it names one entry of a directory.
pub proof fn lemma_tag_round_trip(tag: Seq<char>)
    ensures
        unescaped(escaped(tag)) == Ok::<Seq<char>, TagFault>(tag),
        forall|i: int| 0 <= i < escaped(tag).len() ==> escaped(tag)[i] != '/',
{
    lemma_unescape_escaped(tag);
    lemma_escaped_has_no_slash(tag);
}

/// A file name without `/` that stands for a tag is the file name of that
/// tag: the names of tags are exactly the names that can be read.
pub proof fn lemma_escape_unescaped(name: Seq<char>)
    requires
        unescaped(name) is Ok,
        forall|i: int| 0 <= i < name.len() ==> name[i] != '/',
    ensures
        escaped(unescaped(name)->Ok_0) == name,
    decreases name.len(),
{
    if name.len() > 0 {
        if name[0] != ',' {
            let rest = name.skip(1);
            assert forall|i: int| 0 <= i < rest.len() implies rest[i] != '/' by {
                assert(rest[i] == name[i + 1]);
            }
            lemma_escape_unescaped(rest);
            let t = unescaped(rest)->Ok_0;
            let tag = seq![name[0]] + t;
            assert(unescaped(name)->Ok_0 == tag);
            assert(tag[0] == name[0]);
            assert(tag.skip(1) =~= t);
            assert(escaped(tag) == escaped_char(name[0]) + escaped(t));
            assert(escaped(tag) =~= name);
        } else {
            let rest = name.skip(2);
            assert forall|i: int| 0 <= i < rest.len() implies rest[i] != '/' by {
                assert(rest[i] == name[i + 2]);
            }
            lemma_escape_unescaped(rest);
            let t = unescaped(rest)->Ok_0;
            let c = if name[1] == '0' {
                ','
            } else {
                '/'
            };
            let tag = seq![c] + t;
            assert(unescaped(name)->Ok_0 == tag);
            assert(tag[0] == c);
            assert(tag.skip(1) =~= t);
            assert(escaped(tag) == escaped_char(c) + escaped(t));
            assert(escaped(tag) =~= name);
        }
    }
}

/// Two different tags have different file names.
pub proof fn lemma_escaped_injective(a: Seq<char>, b: Seq<char>)
    requires
        escaped(a) == escaped(b),
    ensures
        a == b,
{
    lemma_unescape_escaped(a);
    lemma_unescape_escaped(b);
}

impl Issue {
    /// The tag that a file name stands for: `,0` is read as `,` and `,1` as `/`.
    ///
    /// Fails with `TagTrailingEscape` where a comma is followed by a comma
    /// or by nothing, and with `TagInvalidEscape` where it is followed by any
    /// character other than `0` and `1`; the first fault from the left counts.
    pub fn tag_from_filename(filename: &str) -> (r: Result<String, IssueError>)
        ensures
            match unescaped(filename@) {
                Ok(tag) => r matches Ok(s) && s@ == tag,
                Err(fault) => r matches Err(e) && e@ == tag_error(fault, filename@),
            },
    {
        let name = chars_of(filename);
        let mut tag: Vec<char> = Vec::new();
        let mut i: usize = 0;
        assert(name@.skip(0) =~= name@);
        assert(Seq::<char>::empty() + unescaped(name@)->Ok_0 =~= unescaped(name@)->Ok_0);
        while i < name.len()
            invariant
                name@ == filename@,
                i <= name.len(),
                unescaped(name@) == prefixed(tag@, unescaped(name@.skip(i as int))),
            decreases name.len() - i,
        {
            let ghost rest = name@.skip(i as int);
            let ghost before = tag@;
            assert(rest[0] == name@[i as int]);
            let c = name[i];
            if c != ',' {
                tag.push(c);
                i += 1;
                proof {
                    assert(rest.skip(1) =~= name@.skip(i as int));
                    let u = unescaped(rest.skip(1));
                    if u is Ok {
                        assert(before + (seq![c] + u->Ok_0) =~= before.push(c) + u->Ok_0);
                    }
                }
            } else if i + 1 == name.len() {
                return Err(IssueError::TagTrailingEscape { filename: filename.to_owned() });
            } else {
                assert(rest[1] == name@[i + 1]);
                let selector = name[i + 1];
                if selector == ',' {
                    return Err(IssueError::TagTrailingEscape { filename: filename.to_owned() });
                } else if selector == '0' || selector == '1' {
                    let plain = if selector == '0' {
                        ','
                    } else {
                        '/'
                    };
                    tag.push(plain);
                    i += 2;
                    proof {
                        assert(rest.skip(2) =~= name@.skip(i as int));
                        let u = unescaped(rest.skip(2));
                        if u is Ok {
                            assert(before + (seq![plain] + u->Ok_0) =~= before.push(plain)
                                + u->Ok_0);
                        }
                    }
                } else {
                    let mut escape = String::new();
                    escape.push(selector);
                    assert(escape@ =~= seq![selector]);
                    return Err(
                        IssueError::TagInvalidEscape { escape, filename: filename.to_owned() },
                    );
                }
            }
        }
        assert(tag@ + Seq::<char>::empty() =~= tag@);
        Ok(string_of(&tag))
    }

    /// The file name of a tag: `,` is written as `,0` and `/` as `,1`.
    pub fn tag_to_filename(tag: &str) -> (filename: String)
        ensures
            filename@ == escaped(tag@),
    {
        let t = chars_of(tag);
        let mut name = String::new();
        let mut i: usize = 0;
        assert(t@.skip(0) =~= t@);
        assert(Seq::<char>::empty() + escaped(t@) =~= escaped(t@));
        while i < t.len()
            invariant
                t@ == tag@,
                i <= t.len(),
                escaped(t@) == name@ + escaped(t@.skip(i as int)),
            decreases t.len() - i,
        {
            let ghost rest = t@.skip(i as int);
            let ghost before = name@;
            assert(rest[0] == t@[i as int]);
            let c = t[i];
            if c == ',' {
                name.push(',');
                name.push('0');
            } else if c == '/' {
                name.push(',');
                name.push('1');
            } else {
                name.push(c);
            }
            i += 1;
            proof {
                assert(rest.skip(1) =~= t@.skip(i as int));
                assert(name@ =~= before + escaped_char(c));
                assert(before + (escaped_char(c) + escaped(rest.skip(1))) =~= name@ + escaped(
                    rest.skip(1),
                ));
            }
        }
        assert(name@ + Seq::<char>::empty() =~= name@);
        name
    }
}

} // verus!
