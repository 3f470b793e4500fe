//! Ordered queues of handles: where an item goes in a queue kept in key
//! order, and what inserting and removing does to membership.

use vstd::prelude::*;

verus! {

/// The keys never increase from front to back.
pub open spec fn sorted_desc(keys: Seq<int>) -> bool {
    forall|i: int, j: int| 0 <= i < j < keys.len() ==> keys[i] >= keys[j]
}

/// The index of the first key smaller than `k`, or the length if there is none.
/// An item with key `k` inserted there stands behind every item whose key is
/// at least `k`: in key order, and last among its equals.
pub open spec fn first_below(keys: Seq<int>, k: int) -> int
    decreases keys.len(),
{
    if keys.len() == 0 {
        0
    } else if keys[0] < k {
        0
    } else {
        1 + first_below(keys.drop_first(), k)
    }
}

/// What `first_below` returns: every key before it is at least `k`, the key
/// at it (if any) is smaller.
pub proof fn lemma_first_below(keys: Seq<int>, k: int)
    ensures
        0 <= first_below(keys, k) <= keys.len(),
        forall|i: int| 0 <= i < first_below(keys, k) ==> keys[i] >= k,
        first_below(keys, k) < keys.len() ==> keys[first_below(keys, k)] < k,
    decreases keys.len(),
{
    if keys.len() != 0 && keys[0] >= k {
        let rest = keys.drop_first();
        lemma_first_below(rest, k);
        assert forall|i: int| 0 <= i < first_below(keys, k) implies keys[i] >= k by {
            if i > 0 {
                assert(keys[i] == rest[i - 1]);
            }
        }
        let f = first_below(rest, k);
        if f < rest.len() {
            assert(keys[f + 1] == rest[f]);
        }
    }
}

/// An index with the two properties of `first_below` is `first_below`.
pub proof fn lemma_first_below_unique(keys: Seq<int>, k: int, j: int)
    requires
        0 <= j <= keys.len(),
        forall|i: int| 0 <= i < j ==> keys[i] >= k,
        j < keys.len() ==> keys[j] < k,
    ensures
        j == first_below(keys, k),
{
    lemma_first_below(keys, k);
    let f = first_below(keys, k);
    if f < j {
        assert(keys[f] >= k);
    } else if j < f {
        assert(keys[j] >= k);
    }
}

/// Inserting a key at its place keeps the order.
pub proof fn lemma_insert_sorted(keys: Seq<int>, k: int)
    requires
        sorted_desc(keys),
    ensures
        sorted_desc(keys.insert(first_below(keys, k), k)),
{
    lemma_first_below(keys, k);
    let f = first_below(keys, k);
    let out = keys.insert(f, k);
    assert forall|i: int, j: int| 0 <= i < j < out.len() implies out[i] >= out[j] by {
        if j < f {
        } else if j == f {
            assert(out[i] == keys[i]);
        } else if i == f {
            assert(out[j] == keys[j - 1]);
            if f < j - 1 {
                assert(keys[f] >= keys[j - 1]);
            }
        } else if i < f {
            assert(out[i] == keys[i]);
            assert(out[j] == keys[j - 1]);
        } else {
            assert(out[i] == keys[i - 1]);
            assert(out[j] == keys[j - 1]);
        }
    }
}

/// Removing a key keeps the order.
pub proof fn lemma_remove_sorted(keys: Seq<int>, at: int)
    requires
        sorted_desc(keys),
        0 <= at < keys.len(),
    ensures
        sorted_desc(keys.remove(at)),
{
    let out = keys.remove(at);
    assert forall|i: int, j: int| 0 <= i < j < out.len() implies out[i] >= out[j] by {
        let a = if i < at { i } else { i + 1 };
        let b = if j < at { j } else { j + 1 };
        assert(out[i] == keys[a]);
        assert(out[j] == keys[b]);
    }
}

/// Membership after an insertion: the new item and the old ones.
pub proof fn lemma_insert_members<T>(s: Seq<T>, at: int, v: T)
    requires
        0 <= at <= s.len(),
    ensures
        forall|x: T| s.insert(at, v).contains(x) <==> (x == v || s.contains(x)),
        s.no_duplicates() && !s.contains(v) ==> s.insert(at, v).no_duplicates(),
{
    let out = s.insert(at, v);
    assert forall|x: T| out.contains(x) <==> (x == v || s.contains(x)) by {
        if out.contains(x) {
            let i = choose|i: int| 0 <= i < out.len() && out[i] == x;
            if i < at {
                assert(s[i] == x);
            } else if i > at {
                assert(s[i - 1] == x);
            }
        }
        if x == v {
            assert(out[at] == x);
        }
        if s.contains(x) {
            let i = choose|i: int| 0 <= i < s.len() && s[i] == x;
            if i < at {
                assert(out[i] == x);
            } else {
                assert(out[i + 1] == x);
            }
        }
    }
    if s.no_duplicates() && !s.contains(v) {
        assert forall|i: int, j: int| 0 <= i < out.len() && 0 <= j < out.len() && i != j implies out[i]
            != out[j] by {
            let a = if i < at { i } else { i - 1 };
            let b = if j < at { j } else { j - 1 };
            if i != at {
                assert(out[i] == s[a]);
                assert(s.contains(s[a]));
            }
            if j != at {
                assert(out[j] == s[b]);
                assert(s.contains(s[b]));
            }
        }
    }
}

/// Membership after a removal from a queue without repeats: all but the
/// removed item.
pub proof fn lemma_remove_members<T>(s: Seq<T>, at: int)
    requires
        0 <= at < s.len(),
        s.no_duplicates(),
    ensures
        forall|x: T| s.remove(at).contains(x) <==> (x != s[at] && s.contains(x)),
        s.remove(at).no_duplicates(),
{
    let out = s.remove(at);
    assert forall|x: T| out.contains(x) <==> (x != s[at] && s.contains(x)) by {
        if out.contains(x) {
            let i = choose|i: int| 0 <= i < out.len() && out[i] == x;
            let a = if i < at { i } else { i + 1 };
            assert(s[a] == x);
        }
        if x != s[at] && s.contains(x) {
            let i = choose|i: int| 0 <= i < s.len() && s[i] == x;
            if i < at {
                assert(out[i] == x);
            } else {
                assert(out[i - 1] == x);
            }
        }
    }
    assert forall|i: int, j: int| 0 <= i < out.len() && 0 <= j < out.len() && i != j implies out[i]
        != out[j] by {
        let a = if i < at { i } else { i + 1 };
        let b = if j < at { j } else { j + 1 };
        assert(out[i] == s[a]);
        assert(out[j] == s[b]);
    }
}

/// The index of the first largest key; zero for an empty sequence.
pub open spec fn first_max(keys: Seq<int>) -> int
    decreases keys.len(),
{
    if keys.len() <= 1 {
        0
    } else {
        let m = first_max(keys.drop_last());
        if keys.last() > keys[m] {
            keys.len() - 1
        } else {
            m
        }
    }
}

/// What `first_max` returns: no key is larger, and no earlier key is as large.
pub proof fn lemma_first_max(keys: Seq<int>)
    requires
        keys.len() > 0,
    ensures
        0 <= first_max(keys) < keys.len(),
        forall|i: int| 0 <= i < keys.len() ==> #[trigger] keys[i] <= keys[first_max(keys)],
        forall|i: int| 0 <= i < first_max(keys) ==> #[trigger] keys[i] < keys[first_max(keys)],
    decreases keys.len(),
{
    if keys.len() > 1 {
        let front = keys.drop_last();
        lemma_first_max(front);
        let m = first_max(front);
        assert(forall|i: int| 0 <= i < front.len() ==> front[i] == keys[i]);
    }
}

/// An index with the two properties of `first_max` is `first_max`.
pub proof fn lemma_first_max_unique(keys: Seq<int>, j: int)
    requires
        0 <= j < keys.len(),
        forall|i: int| 0 <= i < keys.len() ==> #[trigger] keys[i] <= keys[j],
        forall|i: int| 0 <= i < j ==> #[trigger] keys[i] < keys[j],
    ensures
        j == first_max(keys),
{
    lemma_first_max(keys);
}

/// The position of `x` in `s`: the index of its first occurrence, or the
/// length if it does not occur.
pub open spec fn position(s: Seq<usize>, x: usize) -> int
    decreases s.len(),
{
    if s.len() == 0 {
        0
    } else if s[0] == x {
        0
    } else {
        1 + position(s.drop_first(), x)
    }
}

/// What `position` returns.
pub proof fn lemma_position(s: Seq<usize>, x: usize)
    ensures
        0 <= position(s, x) <= s.len(),
        forall|i: int| 0 <= i < position(s, x) ==> s[i] != x,
        position(s, x) < s.len() ==> s[position(s, x)] == x,
        position(s, x) < s.len() <==> s.contains(x),
    decreases s.len(),
{
    if s.len() != 0 && s[0] != x {
        let rest = s.drop_first();
        lemma_position(rest, x);
        let p = position(rest, x);
        assert forall|i: int| 0 <= i < position(s, x) implies s[i] != x by {
            if i > 0 {
                assert(s[i] == rest[i - 1]);
            }
        }
        if p < rest.len() {
            assert(s[p + 1] == rest[p]);
        }
        if s.contains(x) {
            let i = choose|i: int| 0 <= i < s.len() && s[i] == x;
            assert(rest[i - 1] == x);
        }
    } else if s.len() != 0 {
        assert(s[0] == x);
    }
}

/// `s` without the first occurrence of `x`; `s` itself if `x` does not occur.
pub open spec fn without(s: Seq<usize>, x: usize) -> Seq<usize> {
    if s.contains(x) {
        s.remove(position(s, x))
    } else {
        s
    }
}

} // verus!
