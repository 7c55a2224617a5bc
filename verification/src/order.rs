//! Ordered sequences: where an item goes in a sorted sequence, and the
//! stable sort that putting the items in one by one gives.
//!
//! An order is a relation `le` that is total and transitive; items that the
//! order cannot tell apart keep the order in which they came.

use vstd::prelude::*;
use crate::text::lemma_lex_le_total;
use crate::text::lemma_lex_le_transitive;
use crate::text::lex_le;
use crate::text::text_le;
use crate::text::texts;

verus! {

/// Whether `le` is total and transitive.
pub open spec fn total_preorder<T>(le: spec_fn(T, T) -> bool) -> bool {
    &&& forall|a: T, b: T| #[trigger] le(a, b) || le(b, a)
    &&& forall|a: T, b: T, c: T| #[trigger] le(a, b) && #[trigger] le(b, c) ==> le(a, c)
}

/// Whether no item of the sequence comes before an earlier one.
pub open spec fn is_sorted<T>(s: Seq<T>, le: spec_fn(T, T) -> bool) -> bool {
    forall|i: int, j: int| 0 <= i <= j < s.len() ==> le(#[trigger] s[i], #[trigger] s[j])
}

/// Where `x` goes: the index of the first item that must come after `x`, or
/// the length of the sequence if there is none.
pub open spec fn insert_index<T>(s: Seq<T>, x: T, le: spec_fn(T, T) -> bool) -> int
    decreases s.len(),
{
    if s.len() == 0 || !le(s[0], x) {
        0
    } else {
        1 + insert_index(s.skip(1), x, le)
    }
}

/// The sequence with `x` put in where it goes.
pub open spec fn inserted<T>(s: Seq<T>, x: T, le: spec_fn(T, T) -> bool) -> Seq<T> {
    s.insert(insert_index(s, x, le), x)
}

/// The stable sort of a sequence: its items put in one by one, from the left.
pub open spec fn sorted<T>(s: Seq<T>, le: spec_fn(T, T) -> bool) -> Seq<T>
    decreases s.len(),
{
    if s.len() == 0 {
        s
    } else {
        inserted(sorted(s.drop_last(), le), s.last(), le)
    }
}

/// `insert_index` lies in the sequence or at its end; every item before it
/// is at most `x`, and the item at it, if there is one, is not.
pub proof fn lemma_insert_index<T>(s: Seq<T>, x: T, le: spec_fn(T, T) -> bool)
    ensures
        0 <= insert_index(s, x, le) <= s.len(),
        forall|k: int| 0 <= k < insert_index(s, x, le) ==> le(#[trigger] s[k], x),
        insert_index(s, x, le) < s.len() ==> !le(s[insert_index(s, x, le)], x),
    decreases s.len(),
{
    if s.len() == 0 || !le(s[0], x) {
    } else {
        let r = s.skip(1);
        lemma_insert_index(r, x, le);
        assert forall|k: int| 0 <= k < insert_index(s, x, le) implies le(#[trigger] s[k], x) by {
            if k > 0 {
                assert(s[k] == r[k - 1]);
            }
        }
        let p = insert_index(r, x, le);
        if p < r.len() {
            assert(r[p] == s[p + 1]);
        }
    }
}

/// An index with the two properties of `insert_index` is `insert_index`.
pub proof fn lemma_insert_index_is<T>(s: Seq<T>, x: T, le: spec_fn(T, T) -> bool, p: int)
    requires
        0 <= p <= s.len(),
        forall|k: int| 0 <= k < p ==> le(#[trigger] s[k], x),
        p < s.len() ==> !le(s[p], x),
    ensures
        insert_index(s, x, le) == p,
    decreases s.len(),
{
    if p > 0 {
        let r = s.skip(1);
        assert(le(s[0], x));
        assert forall|k: int| 0 <= k < p - 1 implies le(#[trigger] r[k], x) by {
            assert(r[k] == s[k + 1]);
        }
        if p - 1 < r.len() {
            assert(r[p - 1] == s[p]);
        }
        lemma_insert_index_is(r, x, le, p - 1);
    }
}

/// Putting an item into a sorted sequence leaves it sorted.
pub proof fn lemma_inserted_is_sorted<T>(s: Seq<T>, x: T, le: spec_fn(T, T) -> bool)
    requires
        total_preorder(le),
        is_sorted(s, le),
    ensures
        is_sorted(inserted(s, x, le), le),
{
    lemma_insert_index(s, x, le);
    let p = insert_index(s, x, le);
    let t = inserted(s, x, le);
    assert forall|i: int, j: int| 0 <= i <= j < t.len() implies le(
        #[trigger] t[i],
        #[trigger] t[j],
    ) by {
        if i == p {
            if j == p {
                assert(le(x, x) || le(x, x));
            } else {
                assert(t[j] == s[j - 1]);
                assert(le(s[p], x) || le(x, s[p]));
                assert(le(s[p], s[j - 1]));
                assert(le(x, s[p]) && le(s[p], s[j - 1]));
            }
        } else if j == p {
            assert(t[i] == s[i]);
        } else {
            let a = if i < p {
                i
            } else {
                i - 1
            };
            let b = if j < p {
                j
            } else {
                j - 1
            };
            assert(t[i] == s[a] && t[j] == s[b]);
            assert(le(s[a], s[b]));
        }
    }
}

/// The stable sort of a sequence is sorted.
pub proof fn lemma_sorted_is_sorted<T>(s: Seq<T>, le: spec_fn(T, T) -> bool)
    requires
        total_preorder(le),
    ensures
        is_sorted(sorted(s, le), le),
    decreases s.len(),
{
    if s.len() > 0 {
        lemma_sorted_is_sorted(s.drop_last(), le);
        lemma_inserted_is_sorted(sorted(s.drop_last(), le), s.last(), le);
    }
}

/// The stable sort of a sequence holds the same items, each as often.
pub proof fn lemma_sorted_permutes<T>(s: Seq<T>, le: spec_fn(T, T) -> bool)
    ensures
        sorted(s, le).to_multiset() == s.to_multiset(),
        sorted(s, le).len() == s.len(),
    decreases s.len(),
{
    broadcast use vstd::seq_lib::group_to_multiset_ensures;

    if s.len() > 0 {
        let r = s.drop_last();
        lemma_sorted_permutes(r, le);
        let t = sorted(r, le);
        lemma_insert_index(t, s.last(), le);
        assert(r.push(s.last()) =~= s);
    } else {
        assert(sorted(s, le) =~= s);
    }
}

/// Sorting a sorted sequence changes nothing.
pub proof fn lemma_sorted_of_sorted<T>(s: Seq<T>, le: spec_fn(T, T) -> bool)
    requires
        is_sorted(s, le),
    ensures
        sorted(s, le) == s,
    decreases s.len(),
{
    if s.len() > 0 {
        let r = s.drop_last();
        assert forall|i: int, j: int| 0 <= i <= j < r.len() implies le(
            #[trigger] r[i],
            #[trigger] r[j],
        ) by {
            assert(r[i] == s[i] && r[j] == s[j]);
        }
        lemma_sorted_of_sorted(r, le);
        assert forall|k: int| 0 <= k < r.len() implies le(#[trigger] r[k], s.last()) by {
            assert(r[k] == s[k]);
            assert(le(s[k], s[s.len() - 1]));
        }
        lemma_insert_index_is(r, s.last(), le, r.len() as int);
        assert(r.insert(r.len() as int, s.last()) =~= s);
    }
}

/// The order of texts: lexicographic by code point.
pub open spec fn text_order() -> spec_fn(Seq<char>, Seq<char>) -> bool {
    |a: Seq<char>, b: Seq<char>| lex_le(a, b)
}

/// The order of texts is total and transitive.
pub proof fn lemma_text_order()
    ensures
        total_preorder(text_order()),
{
    let le = text_order();
    assert forall|a: Seq<char>, b: Seq<char>| #[trigger] le(a, b) || le(b, a) by {
        lemma_lex_le_total(a, b);
    }
    assert forall|a: Seq<char>, b: Seq<char>, c: Seq<char>| #[trigger]
        le(a, b) && #[trigger] le(b, c) implies le(a, c) by {
        lemma_lex_le_transitive(a, b, c);
    }
}

/// Puts a string into a list where it goes in the order of texts: before the
/// first string that is greater.
pub fn insert_text(v: &mut Vec<String>, x: String)
    ensures
        texts(final(v)@) == inserted(texts(old(v)@), x@, text_order()),
{
    let mut p: usize = 0;
    while p < v.len() && text_le(v[p].as_str(), x.as_str())
        invariant
            p <= v.len(),
            forall|k: int| 0 <= k < p ==> lex_le(#[trigger] v@[k]@, x@),
        decreases v.len() - p,
    {
        p += 1;
    }
    proof {
        let s = texts(v@);
        let le = text_order();
        assert forall|k: int| 0 <= k < p implies le(#[trigger] s[k], x@) by {
            assert(s[k] == v@[k]@);
        }
        if p < v.len() {
            assert(s[p as int] == v@[p as int]@);
        }
        lemma_insert_index_is(s, x@, le, p as int);
        assert(texts(v@.insert(p as int, x)) =~= s.insert(p as int, x@));
    }
    v.insert(p, x);
}

/// The strings of a list in the order of texts.
pub fn sort_texts(v: &Vec<String>) -> (r: Vec<String>)
    ensures
        texts(r@) == sorted(texts(v@), text_order()),
{
    let mut r: Vec<String> = Vec::new();
    let mut i: usize = 0;
    let ghost all = texts(v@);
    assert(texts(r@) =~= all.take(0));
    while i < v.len()
        invariant
            all == texts(v@),
            i <= v.len(),
            texts(r@) == sorted(all.take(i as int), text_order()),
        decreases v.len() - i,
    {
        proof {
            assert(all.take(i + 1).drop_last() =~= all.take(i as int));
            assert(all.take(i + 1).last() == v@[i as int]@);
        }
        insert_text(&mut r, v[i].clone());
        i += 1;
    }
    proof {
        assert(all.take(all.len() as int) =~= all);
    }
    r
}

} // verus!
