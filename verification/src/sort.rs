//! A stable ordering kernel: a specification-level insertion sort under an
//! arbitrary weak ordering, with the lemmas the task table needs — the
//! result is sorted, sorting a sorted sequence changes nothing, and the
//! sort is therefore idempotent. Stability is by construction: a later
//! element is inserted after every earlier element it does not strictly
//! precede, so ties keep their insertion order.

use vstd::prelude::*;
use vstd::relations::{sorted_by, strongly_connected, transitive};

verus! {

/// Where `x` lands when inserted into `s` from the back: after every
/// trailing element that does not come at-or-before `x`.
pub open spec fn insert_pos<T>(s: Seq<T>, x: T, le: spec_fn(T, T) -> bool) -> int
    decreases s.len(),
{
    if s.len() == 0 {
        0
    } else if le(s.last(), x) {
        s.len() as int
    } else {
        insert_pos(s.drop_last(), x, le)
    }
}

/// Insert `x` into `s`, scanning from the back past every element `e` with
/// `!le(e, x)`. On a sorted `s` this places `x` after every element that
/// compares at-or-before it, so an element inserted later than its equals
/// stays after them: the sort built on this is stable.
pub open spec fn insert_ordered<T>(s: Seq<T>, x: T, le: spec_fn(T, T) -> bool) -> Seq<T>
    decreases s.len(),
{
    if s.len() == 0 {
        seq![x]
    } else if le(s.last(), x) {
        s.push(x)
    } else {
        insert_ordered(s.drop_last(), x, le).push(s.last())
    }
}

/// Stable insertion sort of `s` under `le`: each element in turn is
/// inserted into the sorted order of the elements before it.
pub open spec fn sort_ordered<T>(s: Seq<T>, le: spec_fn(T, T) -> bool) -> Seq<T>
    decreases s.len(),
{
    if s.len() == 0 {
        s
    } else {
        insert_ordered(sort_ordered(s.drop_last(), le), s.last(), le)
    }
}

/// The insertion point is a valid index, everything at or after it refuses
/// to come at-or-before `x`, and the element just before it (if any) comes
/// at-or-before `x`.
pub proof fn lemma_insert_pos_bounds<T>(s: Seq<T>, x: T, le: spec_fn(T, T) -> bool)
    ensures
        0 <= insert_pos(s, x, le) <= s.len(),
        forall|k: int| insert_pos(s, x, le) <= k < s.len() ==> !le(#[trigger] s[k], x),
        insert_pos(s, x, le) > 0 ==> le(s[insert_pos(s, x, le) - 1], x),
    decreases s.len(),
{
    if s.len() == 0 {
    } else if le(s.last(), x) {
    } else {
        lemma_insert_pos_bounds(s.drop_last(), x, le);
        assert forall|k: int| insert_pos(s, x, le) <= k < s.len() implies !le(
            #[trigger] s[k],
            x,
        ) by {
            if k < s.len() - 1 {
                assert(s.drop_last()[k] == s[k]);
            }
        }
        if insert_pos(s, x, le) > 0 {
            assert(s.drop_last()[insert_pos(s, x, le) - 1] == s[insert_pos(s, x, le) - 1]);
        }
    }
}

/// No other index has the insertion point's properties: the position where
/// everything before comes at-or-before `x` and everything after refuses
/// to is unique. This lets an executable scan that found such a position
/// conclude it found `insert_pos`.
pub proof fn lemma_insert_pos_unique<T>(s: Seq<T>, x: T, le: spec_fn(T, T) -> bool, j: int)
    requires
        0 <= j <= s.len(),
        forall|k: int| j <= k < s.len() ==> !le(#[trigger] s[k], x),
        j > 0 ==> le(s[j - 1], x),
    ensures
        j == insert_pos(s, x, le),
{
    lemma_insert_pos_bounds(s, x, le);
    let p = insert_pos(s, x, le);
    if j < p {
        assert(!le(s[p - 1], x));
    } else if p < j {
        assert(!le(s[j - 1], x));
    }
}

/// Inserting from the back is the same as splicing `x` in at the
/// insertion point.
pub proof fn lemma_insert_ordered_is_insert<T>(s: Seq<T>, x: T, le: spec_fn(T, T) -> bool)
    ensures
        insert_ordered(s, x, le) =~= s.insert(insert_pos(s, x, le), x),
    decreases s.len(),
{
    lemma_insert_pos_bounds(s, x, le);
    if s.len() == 0 {
    } else if le(s.last(), x) {
    } else {
        lemma_insert_ordered_is_insert(s.drop_last(), x, le);
    }
}

/// Inserting into a sorted sequence keeps it sorted, provided the ordering
/// is total (any two elements compare some way round) and transitive.
pub proof fn lemma_insert_ordered_sorted<T>(s: Seq<T>, x: T, le: spec_fn(T, T) -> bool)
    requires
        sorted_by(s, le),
        strongly_connected(le),
        transitive(le),
    ensures
        sorted_by(insert_ordered(s, x, le), le),
{
    lemma_insert_pos_bounds(s, x, le);
    lemma_insert_ordered_is_insert(s, x, le);
    let p = insert_pos(s, x, le);
    let r = insert_ordered(s, x, le);
    assert forall|i: int, j: int| 0 <= i < j < r.len() implies le(r[i], r[j]) by {
        if i < p {
            assert(r[i] == s[i]);
        }
        if j < p {
            assert(r[j] == s[j]);
        }
        if i > p {
            assert(r[i] == s[i - 1]);
        }
        if j > p {
            assert(r[j] == s[j - 1]);
        }
        if i == p && j > p {
            // x against a later element: that element refused le(e, x).
            assert(!le(s[j - 1], x));
            assert(le(x, s[j - 1]));
        }
        if j == p && i < p {
            // an earlier element against x, through the one just before x
            assert(le(s[p - 1], x));
            if i < p - 1 {
                assert(le(s[i], s[p - 1]));
            }
        }
    }
}

/// The sort's result is sorted.
pub proof fn lemma_sort_ordered_sorted<T>(s: Seq<T>, le: spec_fn(T, T) -> bool)
    requires
        strongly_connected(le),
        transitive(le),
    ensures
        sorted_by(sort_ordered(s, le), le),
    decreases s.len(),
{
    if s.len() > 0 {
        lemma_sort_ordered_sorted(s.drop_last(), le);
        lemma_insert_ordered_sorted(sort_ordered(s.drop_last(), le), s.last(), le);
    }
}

/// Sorting a sequence that is already sorted gives it back unchanged.
pub proof fn lemma_sort_ordered_of_sorted<T>(s: Seq<T>, le: spec_fn(T, T) -> bool)
    requires
        sorted_by(s, le),
    ensures
        sort_ordered(s, le) =~= s,
    decreases s.len(),
{
    if s.len() > 0 {
        assert forall|i: int, j: int|
            0 <= i < j < s.drop_last().len() implies le(
            #[trigger] s.drop_last()[i],
            #[trigger] s.drop_last()[j],
        ) by {
            assert(s.drop_last()[i] == s[i] && s.drop_last()[j] == s[j]);
        }
        lemma_sort_ordered_of_sorted(s.drop_last(), le);
        if s.len() == 1 {
        } else {
            assert(le(s.drop_last().last(), s.last()));
        }
    }
}

/// Sorting twice is the same as sorting once: with the working set and the
/// comparison fixed, a repeated reorder cannot change the order.
pub proof fn lemma_sort_ordered_idempotent<T>(s: Seq<T>, le: spec_fn(T, T) -> bool)
    requires
        strongly_connected(le),
        transitive(le),
    ensures
        sort_ordered(sort_ordered(s, le), le) == sort_ordered(s, le),
{
    lemma_sort_ordered_sorted(s, le);
    lemma_sort_ordered_of_sorted(sort_ordered(s, le), le);
}

/// The sort permutes the working set: nothing is added or dropped.
pub proof fn lemma_sort_ordered_multiset<T>(s: Seq<T>, le: spec_fn(T, T) -> bool)
    ensures
        sort_ordered(s, le).to_multiset() == s.to_multiset(),
    decreases s.len(),
{
    broadcast use vstd::seq_lib::group_to_multiset_ensures;

    if s.len() > 0 {
        lemma_sort_ordered_multiset(s.drop_last(), le);
        let inner = sort_ordered(s.drop_last(), le);
        let p = insert_pos(inner, s.last(), le);
        lemma_insert_pos_bounds(inner, s.last(), le);
        lemma_insert_ordered_is_insert(inner, s.last(), le);
        lemma_insert_multiset(inner, p, s.last());
        assert(s =~= s.drop_last().push(s.last()));
    }
}

/// Lexicographic order on character sequences, by code point: the empty
/// sequence comes first, otherwise the first differing character decides,
/// and a proper prefix comes before its extensions.
pub open spec fn lex_le(a: Seq<char>, b: Seq<char>) -> bool
    decreases a.len(),
{
    if a.len() == 0 {
        true
    } else if b.len() == 0 {
        false
    } else if (a[0] as u32) < (b[0] as u32) {
        true
    } else if (a[0] as u32) > (b[0] as u32) {
        false
    } else {
        lex_le(a.drop_first(), b.drop_first())
    }
}

/// Any two character sequences compare one way or the other.
pub proof fn lemma_lex_le_total(a: Seq<char>, b: Seq<char>)
    ensures
        lex_le(a, b) || lex_le(b, a),
    decreases a.len(),
{
    if a.len() > 0 && b.len() > 0 && (a[0] as u32) == (b[0] as u32) {
        lemma_lex_le_total(a.drop_first(), b.drop_first());
    }
}

/// Lexicographic order is transitive.
pub proof fn lemma_lex_le_trans(a: Seq<char>, b: Seq<char>, c: Seq<char>)
    requires
        lex_le(a, b),
        lex_le(b, c),
    ensures
        lex_le(a, c),
    decreases a.len(),
{
    if a.len() > 0 && b.len() > 0 && c.len() > 0 && (a[0] as u32) == (b[0] as u32) && (b[0]
        as u32) == (c[0] as u32) {
        lemma_lex_le_trans(a.drop_first(), b.drop_first(), c.drop_first());
    }
}

/// Dropping an equal prefix does not change how two sequences compare.
pub proof fn lemma_lex_le_common_prefix(a: Seq<char>, b: Seq<char>, i: int)
    requires
        0 <= i <= a.len(),
        i <= b.len(),
        forall|k: int| 0 <= k < i ==> (a[k] as u32) == (b[k] as u32),
    ensures
        lex_le(a, b) == lex_le(a.skip(i), b.skip(i)),
    decreases i,
{
    if i == 0 {
        assert(a.skip(0) =~= a);
        assert(b.skip(0) =~= b);
    } else {
        assert((a[0] as u32) == (b[0] as u32));
        assert(a.drop_first() =~= a.skip(1));
        assert(b.drop_first() =~= b.skip(1));
        assert(a.drop_first().skip(i - 1) =~= a.skip(i));
        assert(b.drop_first().skip(i - 1) =~= b.skip(i));
        assert forall|k: int| 0 <= k < i - 1 implies (a.drop_first()[k] as u32) == (
        b.drop_first()[k] as u32) by {
            assert((a[k + 1] as u32) == (b[k + 1] as u32));
        }
        lemma_lex_le_common_prefix(a.drop_first(), b.drop_first(), i - 1);
    }
}

/// Executable lexicographic comparison of two strings, against `lex_le`
/// on their character sequences.
pub fn str_lex_le(a: &str, b: &str) -> (r: bool)
    ensures
        r == lex_le(a@, b@),
{
    let a_len = a.unicode_len();
    let b_len = b.unicode_len();
    let mut i: usize = 0;
    loop
        invariant
            i <= a_len,
            i <= b_len,
            a_len == a@.len(),
            b_len == b@.len(),
            forall|k: int| 0 <= k < i ==> (a@[k] as u32) == (b@[k] as u32),
        decreases a_len - i,
    {
        if i >= a_len {
            proof {
                lemma_lex_le_common_prefix(a@, b@, i as int);
                assert(a@.skip(i as int).len() == 0);
            }
            return true;
        }
        if i >= b_len {
            proof {
                lemma_lex_le_common_prefix(a@, b@, i as int);
                assert(b@.skip(i as int).len() == 0);
                assert(a@.skip(i as int).len() > 0);
            }
            return false;
        }
        let ca = a.get_char(i);
        let cb = b.get_char(i);
        if (ca as u32) < (cb as u32) {
            proof {
                lemma_lex_le_common_prefix(a@, b@, i as int);
                assert(a@.skip(i as int)[0] == a@[i as int]);
                assert(b@.skip(i as int)[0] == b@[i as int]);
            }
            return true;
        }
        if (ca as u32) > (cb as u32) {
            proof {
                lemma_lex_le_common_prefix(a@, b@, i as int);
                assert(a@.skip(i as int)[0] == a@[i as int]);
                assert(b@.skip(i as int)[0] == b@[i as int]);
            }
            return false;
        }
        proof {
            assert((a@[i as int] as u32) == (b@[i as int] as u32));
        }
        i = i + 1;
    }
}

/// The sort keeps the sequence's length.
pub proof fn lemma_sort_len<T>(s: Seq<T>, le: spec_fn(T, T) -> bool)
    ensures
        sort_ordered(s, le).len() == s.len(),
    decreases s.len(),
{
    if s.len() > 0 {
        lemma_sort_len(s.drop_last(), le);
        lemma_insert_len(sort_ordered(s.drop_last(), le), s.last(), le);
    }
}

pub proof fn lemma_insert_len<T>(s: Seq<T>, x: T, le: spec_fn(T, T) -> bool)
    ensures
        insert_ordered(s, x, le).len() == s.len() + 1,
    decreases s.len(),
{
    if s.len() > 0 && !le(s.last(), x) {
        lemma_insert_len(s.drop_last(), x, le);
    }
}

/// Splicing one element into a sequence adds exactly that element to its
/// multiset.
proof fn lemma_insert_multiset<T>(s: Seq<T>, p: int, x: T)
    requires
        0 <= p <= s.len(),
    ensures
        s.insert(p, x).to_multiset() == s.to_multiset().insert(x),
    decreases s.len() - p,
{
    broadcast use vstd::seq_lib::group_to_multiset_ensures;

    if p == s.len() {
        assert(s.insert(p, x) =~= s.push(x));
    } else {
        assert(s.insert(p, x).drop_last() =~= s.drop_last().insert(p, x));
        assert(s.insert(p, x).last() == s.last());
        lemma_insert_multiset(s.drop_last(), p, x);
        assert(s.insert(p, x) =~= s.insert(p, x).drop_last().push(s.last()));
        assert(s =~= s.drop_last().push(s.last()));
        assert(s.insert(p, x).to_multiset() == s.drop_last().insert(p, x).to_multiset().insert(
            s.last(),
        ));
        assert(s.drop_last().insert(p, x).to_multiset() == s.drop_last().to_multiset().insert(x));
        assert(s.to_multiset() == s.drop_last().to_multiset().insert(s.last()));
        assert(s.insert(p, x).to_multiset() =~= s.to_multiset().insert(x));
    }
}

/// Stability: two elements that the comparator ties keep their original
/// relative order in the sort's result. Stated for a sequence of
/// pairwise-distinct elements, where each element has one position.
pub proof fn lemma_sort_ordered_stable<T>(s: Seq<T>, le: spec_fn(T, T) -> bool, i: int, j: int)
    requires
        0 <= i < j < s.len(),
        le(s[i], s[j]),
        le(s[j], s[i]),
        forall|p: int, q: int| 0 <= p < q < s.len() ==> s[p] != s[q],
    ensures
        exists|pi: int, pj: int|
            0 <= pi < pj < sort_ordered(s, le).len() && sort_ordered(s, le)[pi] == s[i]
                && sort_ordered(s, le)[pj] == s[j],
    decreases s.len(),
{
    broadcast use vstd::seq_lib::group_to_multiset_ensures;

    let rest = s.drop_last();
    let inner = sort_ordered(rest, le);
    let x = s.last();
    let p = insert_pos(inner, x, le);
    let r = sort_ordered(s, le);
    lemma_insert_pos_bounds(inner, x, le);
    lemma_insert_ordered_is_insert(inner, x, le);
    lemma_sort_len(rest, le);
    assert(r =~= inner.insert(p, x));
    if j < s.len() - 1 {
        assert(rest[i] == s[i] && rest[j] == s[j]);
        assert forall|a: int, b: int| 0 <= a < b < rest.len() implies rest[a] != rest[b] by {
            assert(rest[a] == s[a] && rest[b] == s[b]);
        }
        lemma_sort_ordered_stable(rest, le, i, j);
        let (pi, pj) = choose|pi: int, pj: int|
            0 <= pi < pj < inner.len() && inner[pi] == rest[i] && inner[pj] == rest[j];
        let qi: int = if pi < p {
            pi
        } else {
            pi + 1
        };
        let qj: int = if pj < p {
            pj
        } else {
            pj + 1
        };
        assert(r[qi] == inner[pi]);
        assert(r[qj] == inner[pj]);
        assert(0 <= qi < qj < r.len() && r[qi] == s[i] && r[qj] == s[j]);
    } else {
        // The later element of the tied pair is the one being inserted:
        // everything at or past the insertion point refuses to come
        // at-or-before it, so its tied partner sits strictly before.
        assert(x == s[j]);
        assert(rest[i] == s[i]);
        assert(rest.contains(s[i]));
        lemma_sort_ordered_multiset(rest, le);
        assert(inner.to_multiset().contains(s[i]));
        assert(inner.contains(s[i]));
        let pi = choose|pi: int| 0 <= pi < inner.len() && inner[pi] == s[i];
        assert(pi < p) by {
            if pi >= p {
                assert(!le(inner[pi], x));
            }
        }
        assert(r[pi] == inner[pi]);
        assert(r[p] == x);
        assert(0 <= pi < p < r.len() && r[pi] == s[i] && r[p] == s[j]);
    }
}

} // verus!
