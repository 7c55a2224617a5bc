//! Text as sequences of characters: conversion between `String` and
//! `Vec<char>`, equality, lexicographic order, trimming and splitting.
//!
//! Every contract in this crate speaks of a text by its view, a `Seq<char>`.

use vstd::prelude::*;

verus! {

/// Trusted: `String::push` of the standard library appends one character and
/// changes nothing else.
pub assume_specification[ String::push ](s: &mut String, c: char)
    ensures
        final(s)@ == old(s)@.push(c),
;

/// Whether a character has the Unicode property `White_Space`.
pub uninterp spec fn unicode_whitespace(c: char) -> bool;

/// Trusted: `char::is_whitespace` of the standard library decides the Unicode
/// property `White_Space`, a fixed table that is named here and not written out.
pub assume_specification[ char::is_whitespace ](c: char) -> (r: bool)
    ensures
        r == unicode_whitespace(c),
;

/// The lowercase form of a text under the Unicode default case mapping.
pub uninterp spec fn lowercase(s: Seq<char>) -> Seq<char>;

/// Trusted: `str::to_lowercase` of the standard library returns the lowercase
/// form of its argument, which depends on the argument alone.
pub assume_specification[ str::to_lowercase ](s: &str) -> (r: String)
    ensures
        r@ == lowercase(s@),
;

/// The texts of a list of strings.
pub open spec fn texts(v: Seq<String>) -> Seq<Seq<char>> {
    v.map_values(|s: String| s@)
}

/// The text of a string that may be absent.
pub open spec fn opt_text(o: Option<String>) -> Option<Seq<char>> {
    match o {
        Some(s) => Some(s@),
        None => None,
    }
}

/// The texts of a list with one more string are the texts of the list with
/// one more text.
pub proof fn lemma_texts_push(v: Seq<String>, x: String)
    ensures
        texts(v.push(x)) == texts(v).push(x@),
{
    assert(texts(v.push(x)) =~= texts(v).push(x@));
}

/// The characters of a string, in order.
pub fn chars_of(s: &str) -> (v: Vec<char>)
    ensures
        v@ == s@,
{
    let mut v: Vec<char> = Vec::new();
    for c in it: s.chars()
        invariant
            it.seq() == s@,
            v@ == it.seq().take(it.index()),
    {
        v.push(c);
    }
    v
}

/// The string made of the characters `v[from..to]`.
pub fn string_of_range(v: &Vec<char>, from: usize, to: usize) -> (s: String)
    requires
        from <= to <= v.len(),
    ensures
        s@ == v@.subrange(from as int, to as int),
{
    let mut s = String::new();
    let mut i: usize = from;
    while i < to
        invariant
            from <= i <= to <= v.len(),
            s@ == v@.subrange(from as int, i as int),
        decreases to - i,
    {
        s.push(v[i]);
        i += 1;
        assert(v@.subrange(from as int, i as int) == v@.subrange(from as int, i - 1).push(
            v@[i - 1],
        ));
    }
    s
}

/// The string made of the characters of `v`.
pub fn string_of(v: &Vec<char>) -> (s: String)
    ensures
        s@ == v@,
{
    let s = string_of_range(v, 0, v.len());
    assert(v@.subrange(0, v.len() as int) == v@);
    s
}

/// The two texts, one behind the other.
pub fn join2(a: &str, b: &str) -> (r: String)
    ensures
        r@ == a@ + b@,
{
    let mut r = a.to_owned();
    r.append(b);
    r
}

/// The three texts, one behind the other.
pub fn join3(a: &str, b: &str, c: &str) -> (r: String)
    ensures
        r@ == a@ + b@ + c@,
{
    let mut r = a.to_owned();
    r.append(b);
    r.append(c);
    r
}

/// Whether two strings hold the same characters.
pub fn same_text(a: &str, b: &str) -> (r: bool)
    ensures
        r == (a@ == b@),
{
    a.to_owned() == b.to_owned()
}

/// Lexicographic order of texts by code point: the order of `String` in the
/// standard library.
pub open spec fn lex_le(a: Seq<char>, b: Seq<char>) -> bool
    decreases a.len(),
{
    if a.len() == 0 {
        true
    } else if b.len() == 0 {
        false
    } else if a[0] != b[0] {
        a[0] < b[0]
    } else {
        lex_le(a.skip(1), b.skip(1))
    }
}

/// `lex_le` is reflexive.
pub proof fn lemma_lex_le_reflexive(a: Seq<char>)
    ensures
        lex_le(a, a),
    decreases a.len(),
{
    if a.len() > 0 {
        lemma_lex_le_reflexive(a.skip(1));
    }
}

/// `lex_le` is total: of two texts one comes no later than the other.
pub proof fn lemma_lex_le_total(a: Seq<char>, b: Seq<char>)
    ensures
        lex_le(a, b) || lex_le(b, a),
    decreases a.len(),
{
    if a.len() > 0 && b.len() > 0 {
        if a[0] == b[0] {
            lemma_lex_le_total(a.skip(1), b.skip(1));
        }
    }
}

/// `lex_le` is antisymmetric: two texts that precede each other are equal.
pub proof fn lemma_lex_le_antisymmetric(a: Seq<char>, b: Seq<char>)
    requires
        lex_le(a, b),
        lex_le(b, a),
    ensures
        a == b,
    decreases a.len(),
{
    if a.len() == 0 || b.len() == 0 {
        assert(a =~= b);
    } else {
        assert(a[0] == b[0]);
        lemma_lex_le_antisymmetric(a.skip(1), b.skip(1));
        assert(a =~= seq![a[0]] + a.skip(1));
        assert(b =~= seq![b[0]] + b.skip(1));
    }
}

/// `lex_le` is transitive.
pub proof fn lemma_lex_le_transitive(a: Seq<char>, b: Seq<char>, c: Seq<char>)
    requires
        lex_le(a, b),
        lex_le(b, c),
    ensures
        lex_le(a, c),
    decreases a.len(),
{
    if a.len() > 0 && b.len() > 0 && c.len() > 0 {
        if a[0] == b[0] && b[0] == c[0] {
            lemma_lex_le_transitive(a.skip(1), b.skip(1), c.skip(1));
        }
    }
}

/// Whether `a` comes no later than `b` in lexicographic order.
pub fn text_le(a: &str, b: &str) -> (r: bool)
    ensures
        r == lex_le(a@, b@),
{
    let x = chars_of(a);
    let y = chars_of(b);
    let mut i: usize = 0;
    assert(x@.skip(0) =~= x@ && y@.skip(0) =~= y@);
    while i < x.len() && i < y.len()
        invariant
            x@ == a@,
            y@ == b@,
            i <= x.len(),
            i <= y.len(),
            lex_le(x@, y@) == lex_le(x@.skip(i as int), y@.skip(i as int)),
        decreases x.len() - i,
    {
        let p = x[i];
        let q = y[i];
        proof {
            let xs = x@.skip(i as int);
            let ys = y@.skip(i as int);
            assert(xs[0] == p && ys[0] == q);
            assert(xs.skip(1) =~= x@.skip(i + 1));
            assert(ys.skip(1) =~= y@.skip(i + 1));
        }
        if p != q {
            return p < q;
        }
        i += 1;
    }
    proof {
        assert(x@.skip(i as int).len() == x.len() - i);
        assert(y@.skip(i as int).len() == y.len() - i);
    }
    i == x.len()
}

/// The text without its leading whitespace.
pub open spec fn trim_start(s: Seq<char>) -> Seq<char>
    decreases s.len(),
{
    if s.len() > 0 && unicode_whitespace(s[0]) {
        trim_start(s.skip(1))
    } else {
        s
    }
}

/// The text without its trailing whitespace.
pub open spec fn trim_end(s: Seq<char>) -> Seq<char>
    decreases s.len(),
{
    if s.len() > 0 && unicode_whitespace(s.last()) {
        trim_end(s.drop_last())
    } else {
        s
    }
}

/// The text without leading and trailing whitespace.
pub open spec fn trimmed(s: Seq<char>) -> Seq<char> {
    trim_end(trim_start(s))
}

/// Whether every character of the text is whitespace; true of the empty text.
pub open spec fn is_blank(s: Seq<char>) -> bool {
    forall|i: int| 0 <= i < s.len() ==> unicode_whitespace(#[trigger] s[i])
}

/// A text is blank exactly when trimming leaves nothing.
pub proof fn lemma_blank_iff_trimmed_empty(s: Seq<char>)
    ensures
        is_blank(s) <==> trimmed(s).len() == 0,
{
    lemma_trim_start_shape(s);
    let t = trim_start(s);
    lemma_trim_end_shape(t);
    let k = s.len() - t.len();
    if is_blank(s) {
        if t.len() > 0 {
            assert(t[0] == s[k]);
        }
    }
    if trimmed(s).len() == 0 {
        if t.len() > 0 {
            assert(unicode_whitespace(t.last()));
        }
        assert forall|i: int| 0 <= i < s.len() implies unicode_whitespace(#[trigger] s[i]) by {
            if i >= k {
                assert(s[i] == t[i - k]);
            }
        }
    }
}

/// `trim_start` removes a prefix of whitespace and stops at the first other character.
pub proof fn lemma_trim_start_shape(s: Seq<char>)
    ensures
        trim_start(s).len() <= s.len(),
        trim_start(s) == s.skip(s.len() - trim_start(s).len()),
        forall|i: int| 0 <= i < s.len() - trim_start(s).len() ==> unicode_whitespace(#[trigger] s[i]),
        trim_start(s).len() > 0 ==> !unicode_whitespace(trim_start(s)[0]),
    decreases s.len(),
{
    if s.len() > 0 && unicode_whitespace(s[0]) {
        let r = s.skip(1);
        lemma_trim_start_shape(r);
        let k = r.len() - trim_start(r).len();
        assert(r.skip(k) =~= s.skip(k + 1));
        assert forall|i: int| 0 <= i < s.len() - trim_start(s).len() implies unicode_whitespace(
            #[trigger] s[i],
        ) by {
            if i > 0 {
                assert(s[i] == r[i - 1]);
            }
        }
    } else {
        assert(s.skip(0) =~= s);
    }
}

/// `trim_end` removes a suffix of whitespace and stops at the last other character.
pub proof fn lemma_trim_end_shape(s: Seq<char>)
    ensures
        trim_end(s).len() <= s.len(),
        trim_end(s) == s.take(trim_end(s).len() as int),
        forall|i: int| trim_end(s).len() <= i < s.len() ==> unicode_whitespace(#[trigger] s[i]),
        trim_end(s).len() > 0 ==> !unicode_whitespace(trim_end(s).last()),
    decreases s.len(),
{
    if s.len() > 0 && unicode_whitespace(s.last()) {
        let r = s.drop_last();
        lemma_trim_end_shape(r);
        let k = trim_end(r).len() as int;
        assert(r.take(k) =~= s.take(k));
        assert forall|i: int| trim_end(s).len() <= i < s.len() implies unicode_whitespace(
            #[trigger] s[i],
        ) by {
            if i < s.len() - 1 {
                assert(s[i] == r[i]);
            }
        }
    } else {
        assert(s.take(s.len() as int) =~= s);
    }
}

/// The characters of `s` without leading and trailing whitespace.
pub fn trim_chars(s: &Vec<char>) -> (r: Vec<char>)
    ensures
        r@ == trimmed(s@),
{
    let mut from: usize = 0;
    assert(s@.skip(0) =~= s@);
    while from < s.len() && s[from].is_whitespace()
        invariant
            from <= s.len(),
            trim_start(s@) == trim_start(s@.skip(from as int)),
        decreases s.len() - from,
    {
        proof {
            let t = s@.skip(from as int);
            assert(t[0] == s@[from as int]);
            assert(t.skip(1) =~= s@.skip(from + 1));
        }
        from += 1;
    }
    proof {
        let t = s@.skip(from as int);
        if from < s.len() {
            assert(t[0] == s@[from as int]);
        }
        assert(trim_start(s@) == t);
    }
    let mut to: usize = s.len();
    while to > from && s[to - 1].is_whitespace()
        invariant
            from <= to <= s.len(),
            trimmed(s@) == trim_end(s@.subrange(from as int, to as int)),
        decreases to,
    {
        proof {
            let t = s@.subrange(from as int, to as int);
            assert(t.last() == s@[to - 1]);
            assert(t.drop_last() =~= s@.subrange(from as int, to - 1));
        }
        to -= 1;
    }
    proof {
        let t = s@.subrange(from as int, to as int);
        if to > from {
            assert(t.last() == s@[to - 1]);
        }
        assert(trimmed(s@) == t);
    }
    let mut r: Vec<char> = Vec::new();
    let mut i: usize = from;
    while i < to
        invariant
            from <= i <= to <= s.len(),
            r@ == s@.subrange(from as int, i as int),
        decreases to - i,
    {
        r.push(s[i]);
        i += 1;
        assert(s@.subrange(from as int, i as int) == s@.subrange(from as int, i - 1).push(
            s@[i - 1],
        ));
    }
    r
}

/// The string without leading and trailing whitespace.
pub fn trim(s: &str) -> (r: String)
    ensures
        r@ == trimmed(s@),
{
    let v = chars_of(s);
    let t = trim_chars(&v);
    string_of(&t)
}

/// Whether every character of the string is whitespace.
pub fn blank(s: &str) -> (r: bool)
    ensures
        r == is_blank(s@),
{
    let v = chars_of(s);
    let mut i: usize = 0;
    while i < v.len()
        invariant
            v@ == s@,
            i <= v.len(),
            forall|k: int| 0 <= k < i ==> unicode_whitespace(#[trigger] v@[k]),
        decreases v.len() - i,
    {
        if !v[i].is_whitespace() {
            return false;
        }
        i += 1;
    }
    true
}

/// The index of the first `c` in `s`, if there is one.
pub fn find_char(s: &Vec<char>, c: char) -> (r: Option<usize>)
    ensures
        match s@.index_of_first(c) {
            Some(i) => r matches Some(j) && j == i,
            None => r is None,
        },
        r matches Some(j) ==> j < s.len() && s@[j as int] == c,
{
    let mut i: usize = 0;
    while i < s.len()
        invariant
            i <= s.len(),
            forall|k: int| 0 <= k < i ==> s@[k] != c,
        decreases s.len() - i,
    {
        if s[i] == c {
            proof {
                assert(s@.contains(c));
                s@.index_of_first_ensures(c);
            }
            return Some(i);
        }
        i += 1;
    }
    proof {
        assert(!s@.contains(c));
        s@.index_of_first_ensures(c);
    }
    None
}

/// The index of the last `c` in `s`, if there is one.
pub fn rfind_char(s: &Vec<char>, c: char) -> (r: Option<usize>)
    ensures
        match s@.index_of_last(c) {
            Some(i) => r matches Some(j) && j == i,
            None => r is None,
        },
        r matches Some(j) ==> j < s.len() && s@[j as int] == c,
{
    let mut i: usize = s.len();
    while i > 0
        invariant
            i <= s.len(),
            forall|k: int| i <= k < s.len() ==> s@[k] != c,
        decreases i,
    {
        i -= 1;
        if s[i] == c {
            proof {
                assert(s@.contains(c));
                s@.index_of_last_ensures(c);
            }
            return Some(i);
        }
    }
    proof {
        assert(!s@.contains(c));
        s@.index_of_last_ensures(c);
    }
    None
}

/// The value of a decimal digit.
pub open spec fn digit_value(c: char) -> Option<int> {
    if c == '0' {
        Some(0)
    } else if c == '1' {
        Some(1)
    } else if c == '2' {
        Some(2)
    } else if c == '3' {
        Some(3)
    } else if c == '4' {
        Some(4)
    } else if c == '5' {
        Some(5)
    } else if c == '6' {
        Some(6)
    } else if c == '7' {
        Some(7)
    } else if c == '8' {
        Some(8)
    } else if c == '9' {
        Some(9)
    } else {
        None
    }
}

/// Whether a text is made of decimal digits alone.
pub open spec fn all_digits(s: Seq<char>) -> bool {
    forall|i: int| 0 <= i < s.len() ==> (#[trigger] digit_value(s[i])) is Some
}

/// The number that a text of decimal digits writes.
pub open spec fn decimal(s: Seq<char>) -> int
    decreases s.len(),
{
    if s.len() == 0 {
        0
    } else {
        decimal(s.drop_last()) * 10 + digit_value(s.last()).unwrap_or(0)
    }
}

/// The 64-bit integer that a text writes: an optional sign, `+` or `-`, and
/// then one decimal digit or more, with a value that the type can hold.
pub open spec fn integer_of(s: Seq<char>) -> Option<int> {
    if s.len() > 0 && s[0] == '-' {
        let d = s.skip(1);
        if d.len() > 0 && all_digits(d) && -decimal(d) >= i64::MIN {
            Some(-decimal(d))
        } else {
            None
        }
    } else {
        let d = if s.len() > 0 && s[0] == '+' {
            s.skip(1)
        } else {
            s
        };
        if d.len() > 0 && all_digits(d) && decimal(d) <= i64::MAX {
            Some(decimal(d))
        } else {
            None
        }
    }
}

/// A text of digits writes a number no smaller than any of its beginnings does.
pub proof fn lemma_decimal_grows(s: Seq<char>, k: int)
    requires
        0 <= k <= s.len(),
    ensures
        0 <= decimal(s.take(k)) <= decimal(s),
    decreases s.len(),
{
    if s.len() == 0 {
        assert(s.take(k) =~= s);
    } else if k == s.len() {
        assert(s.take(k) =~= s);
        lemma_decimal_grows(s.drop_last(), k - 1);
    } else {
        lemma_decimal_grows(s.drop_last(), k);
        assert(s.drop_last().take(k) =~= s.take(k));
    }
}

/// The value of a decimal digit.
fn digit(c: char) -> (r: Option<u8>)
    ensures
        match r {
            Some(d) => digit_value(c) == Some(d as int),
            None => digit_value(c) is None,
        },
{
    match c {
        '0' => Some(0),
        '1' => Some(1),
        '2' => Some(2),
        '3' => Some(3),
        '4' => Some(4),
        '5' => Some(5),
        '6' => Some(6),
        '7' => Some(7),
        '8' => Some(8),
        '9' => Some(9),
        _ => None,
    }
}

/// Reads a 64-bit integer: an optional sign and decimal digits, nothing else.
pub fn parse_i64(s: &Vec<char>) -> (r: Option<i64>)
    ensures
        match integer_of(s@) {
            Some(n) => r matches Some(v) && v == n,
            None => r is None,
        },
{
    let negative = s.len() > 0 && s[0] == '-';
    let start: usize = if s.len() > 0 && (s[0] == '-' || s[0] == '+') {
        1
    } else {
        0
    };
    let ghost d = s@.skip(start as int);
    if start == s.len() {
        return None;
    }
    let mut acc: i128 = 0;
    let mut i: usize = start;
    assert(d.take(0) =~= Seq::<char>::empty());
    while i < s.len()
        invariant
            d == s@.skip(start as int),
            negative == (s.len() > 0 && s@[0] == '-'),
            start == (if s.len() > 0 && (s@[0] == '-' || s@[0] == '+') {
                1int
            } else {
                0int
            }),
            start < s.len(),
            start <= i <= s.len(),
            all_digits(d.take(i - start)),
            acc == decimal(d.take(i - start)),
            0 <= acc <= 0x8000_0000_0000_0000,
        decreases s.len() - i,
    {
        let ghost k = i - start;
        assert(d[k] == s@[i as int]);
        assert(d.take(k + 1).drop_last() =~= d.take(k));
        assert(d.take(k + 1).last() == d[k]);
        match digit(s[i]) {
            None => {
                assert(digit_value(d[k]) is None);
                assert(s@.skip(0) =~= s@);
                return None;
            },
            Some(v) => {
                acc = acc * 10 + v as i128;
                assert(all_digits(d.take(k + 1))) by {
                    assert forall|j: int| 0 <= j < k + 1 implies (#[trigger] digit_value(
                        d.take(k + 1)[j],
                    )) is Some by {
                        if j < k {
                            assert(d.take(k + 1)[j] == d.take(k)[j]);
                        }
                    }
                }
                if acc > 0x8000_0000_0000_0000 {
                    proof {
                        assert(s@.skip(0) =~= s@);
                        if all_digits(d) {
                            lemma_decimal_grows(d, k + 1);
                        }
                    }
                    return None;
                }
            },
        }
        i += 1;
    }
    assert(d.take(d.len() as int) =~= d);
    assert(s@.skip(0) =~= s@);
    if negative {
        Some((-acc) as i64)
    } else if acc > 0x7fff_ffff_ffff_ffff {
        None
    } else {
        Some(acc as i64)
    }
}

/// Whether `s` begins with `pat`.
pub open spec fn begins_with(s: Seq<char>, pat: Seq<char>) -> bool {
    pat.len() <= s.len() && s.take(pat.len() as int) == pat
}

/// The pieces of `s` between the occurrences of `pat`, where `seg` is the
/// beginning of the first piece. Occurrences are found from the left and do
/// not overlap.
pub open spec fn split_from(seg: Seq<char>, s: Seq<char>, pat: Seq<char>) -> Seq<Seq<char>>
    decreases s.len(),
{
    if s.len() == 0 {
        seq![seg]
    } else if pat.len() > 0 && begins_with(s, pat) {
        seq![seg] + split_from(Seq::empty(), s.skip(pat.len() as int), pat)
    } else {
        split_from(seg.push(s[0]), s.skip(1), pat)
    }
}

/// The pieces of `s` between the occurrences of the separator `pat`: one
/// more than there are occurrences, empty pieces included.
pub open spec fn split(s: Seq<char>, pat: Seq<char>) -> Seq<Seq<char>> {
    split_from(Seq::empty(), s, pat)
}

/// Putting the separator back between the pieces gives the text again.
pub open spec fn joined_by(pieces: Seq<Seq<char>>, pat: Seq<char>) -> Seq<char>
    decreases pieces.len(),
{
    if pieces.len() == 0 {
        Seq::empty()
    } else if pieces.len() == 1 {
        pieces[0]
    } else {
        pieces[0] + pat + joined_by(pieces.skip(1), pat)
    }
}

/// A split has at least one piece, and its pieces with the separator between
/// them are the text that was split.
pub proof fn lemma_split_from_joins(seg: Seq<char>, s: Seq<char>, pat: Seq<char>)
    ensures
        split_from(seg, s, pat).len() >= 1,
        joined_by(split_from(seg, s, pat), pat) == seg + s,
    decreases s.len(),
{
    if s.len() == 0 {
        assert(seg + s =~= seg);
    } else if pat.len() > 0 && begins_with(s, pat) {
        let rest = s.skip(pat.len() as int);
        lemma_split_from_joins(Seq::empty(), rest, pat);
        let tail = split_from(Seq::empty(), rest, pat);
        let all = seq![seg] + tail;
        assert(all.skip(1) =~= tail);
        assert(all[0] == seg);
        assert(Seq::<char>::empty() + rest =~= rest);
        assert(seg + pat + rest =~= seg + s) by {
            assert(s =~= s.take(pat.len() as int) + rest);
        }
    } else {
        lemma_split_from_joins(seg.push(s[0]), s.skip(1), pat);
        assert(seg.push(s[0]) + s.skip(1) =~= seg + s);
    }
}

/// Whether `pat` stands in `s` at index `at`.
fn stands_at(s: &Vec<char>, at: usize, pat: &Vec<char>) -> (r: bool)
    requires
        at <= s.len(),
    ensures
        r == begins_with(s@.skip(at as int), pat@),
{
    if pat.len() > s.len() - at {
        return false;
    }
    let mut k: usize = 0;
    while k < pat.len()
        invariant
            at <= s.len(),
            pat.len() <= s.len() - at,
            k <= pat.len(),
            forall|j: int| 0 <= j < k ==> s@[at + j] == pat@[j],
        decreases pat.len() - k,
    {
        if s[at + k] != pat[k] {
            proof {
                let t = s@.skip(at as int).take(pat.len() as int);
                assert(t[k as int] == s@[at + k]);
            }
            return false;
        }
        k += 1;
    }
    assert(s@.skip(at as int).take(pat.len() as int) =~= pat@);
    true
}

/// Splits a string at every occurrence of the separator `pat`.
pub fn split_text(s: &str, pat: &str) -> (pieces: Vec<String>)
    ensures
        texts(pieces@) == split(s@, pat@),
{
    let text = chars_of(s);
    let sep = chars_of(pat);
    let mut pieces: Vec<String> = Vec::new();
    let mut seg: Vec<char> = Vec::new();
    let mut i: usize = 0;
    proof {
        assert(text@.skip(0) =~= text@);
        assert(texts(pieces@) + split(text@, sep@) =~= split(text@, sep@));
    }
    while i < text.len()
        invariant
            i <= text.len(),
            split(text@, sep@) == texts(pieces@) + split_from(seg@, text@.skip(i as int), sep@),
        decreases text.len() - i,
    {
        let ghost rest = text@.skip(i as int);
        let ghost done = texts(pieces@);
        if sep.len() > 0 && stands_at(&text, i, &sep) {
            let piece = string_of(&seg);
            proof {
                lemma_texts_push(pieces@, piece);
                assert(rest.skip(sep.len() as int) =~= text@.skip(i + sep.len()));
                assert(done + (seq![seg@] + split_from(
                    Seq::empty(),
                    rest.skip(sep.len() as int),
                    sep@,
                )) =~= done.push(seg@) + split_from(
                    Seq::empty(),
                    rest.skip(sep.len() as int),
                    sep@,
                ));
            }
            pieces.push(piece);
            seg = Vec::new();
            i += sep.len();
        } else {
            proof {
                assert(rest[0] == text@[i as int]);
                assert(rest.skip(1) =~= text@.skip(i + 1));
            }
            seg.push(text[i]);
            i += 1;
        }
    }
    let piece = string_of(&seg);
    proof {
        lemma_texts_push(pieces@, piece);
        assert(texts(pieces@) + seq![seg@] =~= texts(pieces@).push(seg@));
    }
    pieces.push(piece);
    pieces
}

/// The first line of a text: what stands before its first line feed, or all
/// of it where it holds none.
pub open spec fn first_line(s: Seq<char>) -> Seq<char> {
    match s.index_of_first('\n') {
        Some(i) => s.take(i),
        None => s,
    }
}

/// The characters at the end of a text that are no whitespace.
pub open spec fn tail_word(s: Seq<char>) -> Seq<char>
    decreases s.len(),
{
    if s.len() == 0 || unicode_whitespace(s.last()) {
        Seq::empty()
    } else {
        tail_word(s.drop_last()).push(s.last())
    }
}

/// The last word of a text: the last run of characters that are no
/// whitespace, or `None` if the text is blank.
pub open spec fn last_word(s: Seq<char>) -> Option<Seq<char>> {
    if trim_end(s).len() == 0 {
        None
    } else {
        Some(tail_word(trim_end(s)))
    }
}

/// The end of a text from an index on is its `tail_word` if it holds no
/// whitespace and whitespace stands before it, or nothing does.
pub proof fn lemma_tail_word_is(s: Seq<char>, from: int)
    requires
        0 <= from <= s.len(),
        forall|k: int| from <= k < s.len() ==> !unicode_whitespace(#[trigger] s[k]),
        from > 0 ==> unicode_whitespace(s[from - 1]),
    ensures
        tail_word(s) == s.skip(from),
    decreases s.len(),
{
    if from == s.len() {
        assert(s.skip(from) =~= Seq::<char>::empty());
    } else {
        let r = s.drop_last();
        assert forall|k: int| from <= k < r.len() implies !unicode_whitespace(#[trigger] r[k]) by {
            assert(r[k] == s[k]);
        }
        if from > 0 {
            assert(r[from - 1] == s[from - 1]);
        }
        lemma_tail_word_is(r, from);
        assert(r.skip(from).push(s.last()) =~= s.skip(from));
    }
}

/// The last word of a string, if it has one.
pub fn last_word_of(s: &str) -> (r: Option<String>)
    ensures
        match last_word(s@) {
            Some(w) => r matches Some(x) && x@ == w,
            None => r is None,
        },
{
    let v = chars_of(s);
    let mut to: usize = v.len();
    assert(v@.take(to as int) =~= v@);
    while to > 0 && v[to - 1].is_whitespace()
        invariant
            to <= v.len(),
            trim_end(v@) == trim_end(v@.take(to as int)),
        decreases to,
    {
        proof {
            let t = v@.take(to as int);
            assert(t.last() == v@[to - 1]);
            assert(t.drop_last() =~= v@.take(to - 1));
        }
        to -= 1;
    }
    proof {
        let t = v@.take(to as int);
        if to > 0 {
            assert(t.last() == v@[to - 1]);
        }
        assert(trim_end(v@) == t);
    }
    if to == 0 {
        return None;
    }
    let mut from: usize = to;
    while from > 0 && !v[from - 1].is_whitespace()
        invariant
            from <= to <= v.len(),
            forall|k: int| from <= k < to ==> !unicode_whitespace(#[trigger] v@[k]),
        decreases from,
    {
        from -= 1;
    }
    proof {
        let t = v@.take(to as int);
        assert forall|k: int| from <= k < t.len() implies !unicode_whitespace(#[trigger] t[k]) by {
            assert(t[k] == v@[k]);
        }
        if from > 0 {
            assert(t[from - 1] == v@[from - 1]);
        }
        lemma_tail_word_is(t, from as int);
        assert(t.skip(from as int) =~= v@.subrange(from as int, to as int));
    }
    Some(string_of_range(&v, from, to))
}

/// The first line of a string.
pub fn first_line_of(s: &str) -> (r: String)
    ensures
        r@ == first_line(s@),
{
    let v = chars_of(s);
    match find_char(&v, '\n') {
        Some(i) => {
            let r = string_of_range(&v, 0, i);
            assert(v@.subrange(0, i as int) =~= v@.take(i as int));
            r
        },
        None => s.to_owned(),
    }
}

} // verus!
