//! Stable sorting as the specifications state it: insertion of each element,
//! in input order, after every element it does not go before.

use vstd::prelude::*;
use crate::tables::keep;

verus! {

/// `sorted` with `x` inserted after every trailing element that `x` does not
/// go before; elements that compare equal keep their input order.
pub open spec fn insert_stable<T>(sorted: Seq<T>, x: T, before: spec_fn(T, T) -> bool) -> Seq<T>
    decreases sorted.len(),
{
    if sorted.len() == 0 || !before(x, sorted.last()) {
        sorted.push(x)
    } else {
        insert_stable(sorted.drop_last(), x, before).push(sorted.last())
    }
}

/// The stable sort of `s` under the strict order `before`, as
/// `slice::sort_by_key` produces it.
pub open spec fn sort_stable<T>(s: Seq<T>, before: spec_fn(T, T) -> bool) -> Seq<T>
    decreases s.len(),
{
    if s.len() == 0 {
        s
    } else {
        insert_stable(sort_stable(s.drop_last(), before), s.last(), before)
    }
}

/// Inserting at the first position from which `x` goes before every element
/// is the stable insertion.
pub proof fn lemma_insert_stable_at<T>(
    sorted: Seq<T>,
    x: T,
    before: spec_fn(T, T) -> bool,
    j: int,
)
    requires
        0 <= j <= sorted.len(),
        forall|k: int| j <= k < sorted.len() ==> before(x, #[trigger] sorted[k]),
        j == 0 || !before(x, sorted[j - 1]),
    ensures
        insert_stable(sorted, x, before) == sorted.insert(j, x),
    decreases sorted.len() - j,
{
    if j == sorted.len() {
        assert(sorted.insert(j, x) =~= sorted.push(x));
    } else {
        let rest = sorted.drop_last();
        assert(before(x, sorted[sorted.len() - 1]));
        assert forall|k: int| j <= k < rest.len() implies before(x, #[trigger] rest[k]) by {
            assert(rest[k] == sorted[k]);
        }
        if j > 0 {
            assert(rest[j - 1] == sorted[j - 1]);
        }
        lemma_insert_stable_at(rest, x, before, j);
        assert(rest.insert(j, x).push(sorted.last()) =~= sorted.insert(j, x));
    }
}

/// Stable sorting keeps every element: the result is a permutation.
pub proof fn lemma_sort_stable_permutes<T>(s: Seq<T>, before: spec_fn(T, T) -> bool)
    ensures
        sort_stable(s, before).to_multiset() == s.to_multiset(),
        sort_stable(s, before).len() == s.len(),
    decreases s.len(),
{
    broadcast use vstd::seq_lib::group_to_multiset_ensures;

    if s.len() > 0 {
        lemma_sort_stable_permutes(s.drop_last(), before);
        lemma_insert_stable_permutes(sort_stable(s.drop_last(), before), s.last(), before);
        assert(s.drop_last().push(s.last()) =~= s);
    }
}

/// Stable insertion adds exactly the inserted element.
pub proof fn lemma_insert_stable_permutes<T>(sorted: Seq<T>, x: T, before: spec_fn(T, T) -> bool)
    ensures
        insert_stable(sorted, x, before).to_multiset() == sorted.to_multiset().insert(x),
        insert_stable(sorted, x, before).len() == sorted.len() + 1,
    decreases sorted.len(),
{
    broadcast use vstd::seq_lib::group_to_multiset_ensures;

    if sorted.len() > 0 && before(x, sorted.last()) {
        lemma_insert_stable_permutes(sorted.drop_last(), x, before);
        assert(sorted.drop_last().push(sorted.last()) =~= sorted);
        assert(sorted.to_multiset() =~= sorted.drop_last().to_multiset().insert(sorted.last()));
        assert(insert_stable(sorted, x, before).to_multiset() =~= sorted.to_multiset().insert(x));
    }
}

/// Stable insertion adds exactly the inserted element, also as seen
/// through `f`.
pub proof fn lemma_insert_stable_permutes_mapped<T, U>(
    sorted: Seq<T>,
    x: T,
    before: spec_fn(T, T) -> bool,
    f: spec_fn(T) -> U,
)
    ensures
        insert_stable(sorted, x, before).map_values(f).to_multiset() == sorted.map_values(f).to_multiset().insert(
            f(x),
        ),
    decreases sorted.len(),
{
    broadcast use vstd::seq_lib::group_to_multiset_ensures;

    if sorted.len() == 0 || !before(x, sorted.last()) {
        assert(sorted.push(x).map_values(f) =~= sorted.map_values(f).push(f(x)));
    } else {
        let rest = sorted.drop_last();
        lemma_insert_stable_permutes_mapped(rest, x, before, f);
        let inserted = insert_stable(rest, x, before);
        assert(inserted.push(sorted.last()).map_values(f) =~= inserted.map_values(f).push(f(sorted.last())));
        assert(sorted.map_values(f) =~= rest.map_values(f).push(f(sorted.last())));
        assert(insert_stable(sorted, x, before).map_values(f).to_multiset() =~= sorted.map_values(
            f,
        ).to_multiset().insert(f(x)));
    }
}

/// Stable sorting keeps every element, also as seen through `f`.
pub proof fn lemma_sort_stable_permutes_mapped<T, U>(s: Seq<T>, before: spec_fn(T, T) -> bool, f: spec_fn(T) -> U)
    ensures
        sort_stable(s, before).map_values(f).to_multiset() == s.map_values(f).to_multiset(),
    decreases s.len(),
{
    broadcast use vstd::seq_lib::group_to_multiset_ensures;

    if s.len() == 0 {
        assert(sort_stable(s, before).map_values(f) =~= s.map_values(f));
    } else {
        lemma_sort_stable_permutes_mapped(s.drop_last(), before, f);
        lemma_insert_stable_permutes_mapped(sort_stable(s.drop_last(), before), s.last(), before, f);
        assert(s.map_values(f) =~= s.drop_last().map_values(f).push(f(s.last())));
    }
}

/// A prefix holds no element more often than the whole sequence does.
pub proof fn lemma_take_sub_multiset<T>(s: Seq<T>, n: int)
    requires
        0 <= n <= s.len(),
    ensures
        s.take(n).to_multiset().subset_of(s.to_multiset()),
{
    broadcast use vstd::multiset::group_multiset_axioms;

    vstd::seq_lib::lemma_multiset_commutative(s.take(n), s.skip(n));
    assert(s.take(n) + s.skip(n) =~= s);
}

/// Whether `s` is in non-decreasing order of `key`.
pub open spec fn sorted_by<T>(s: Seq<T>, key: spec_fn(T) -> int) -> bool {
    forall|i: int, j: int| 0 <= i < j < s.len() ==> key(s[i]) <= key(s[j])
}

/// Whether the strict order `before` respects `key`: what goes before has
/// no larger key, and what does not go before has no smaller one.
pub open spec fn respects_key<T>(before: spec_fn(T, T) -> bool, key: spec_fn(T) -> int) -> bool {
    forall|a: T, b: T|
        (#[trigger] before(a, b) ==> key(a) <= key(b)) && (!before(a, b) ==> key(b) <= key(a))
}

/// Whether `x` goes before `y` exactly when its key is smaller.
pub open spec fn is_key_order<T>(before: spec_fn(T, T) -> bool, key: spec_fn(T) -> int) -> bool {
    forall|a: T, b: T| #[trigger] before(a, b) == (key(a) < key(b))
}

/// Whether an element has key `k`.
pub open spec fn has_key<T>(key: spec_fn(T) -> int, k: int) -> spec_fn(T) -> bool {
    |x: T| key(x) == k
}

/// Stable insertion into a sequence in key order keeps it in key order.
pub proof fn lemma_insert_stable_sorted<T>(
    sorted: Seq<T>,
    x: T,
    before: spec_fn(T, T) -> bool,
    key: spec_fn(T) -> int,
)
    requires
        sorted_by(sorted, key),
        respects_key(before, key),
    ensures
        sorted_by(insert_stable(sorted, x, before), key),
    decreases sorted.len(),
{
    broadcast use vstd::seq_lib::group_to_multiset_ensures;

    let n = sorted.len() as int;
    if n == 0 || !before(x, sorted.last()) {
        let r = sorted.push(x);
        assert forall|i: int, j: int| 0 <= i < j < r.len() implies key(r[i]) <= key(r[j]) by {
            if j == n {
                assert(key(sorted[n - 1]) <= key(x));
                if i < n - 1 {
                    assert(key(sorted[i]) <= key(sorted[n - 1]));
                }
            } else {
                assert(r[i] == sorted[i] && r[j] == sorted[j]);
            }
        }
    } else {
        let rest = sorted.drop_last();
        let last = sorted.last();
        assert(sorted_by(rest, key)) by {
            assert forall|i: int, j: int| 0 <= i < j < rest.len() implies key(rest[i]) <= key(rest[j]) by {
                assert(rest[i] == sorted[i] && rest[j] == sorted[j]);
            }
        }
        lemma_insert_stable_sorted(rest, x, before, key);
        lemma_insert_stable_permutes(rest, x, before);
        let inner = insert_stable(rest, x, before);
        assert(key(x) <= key(last));
        assert forall|k: int| 0 <= k < inner.len() implies key(#[trigger] inner[k]) <= key(last) by {
            let y = inner[k];
            assert(inner.contains(y));
            assert(inner.to_multiset().count(y) > 0);
            if y != x {
                assert(rest.to_multiset().count(y) > 0);
                assert(rest.contains(y));
                let m = choose|m: int| 0 <= m < rest.len() && rest[m] == y;
                assert(sorted[m] == y);
                assert(key(sorted[m]) <= key(sorted[n - 1]));
            }
        }
        let r = inner.push(last);
        assert forall|i: int, j: int| 0 <= i < j < r.len() implies key(r[i]) <= key(r[j]) by {
            if j == inner.len() {
                assert(r[i] == inner[i]);
            } else {
                assert(r[i] == inner[i] && r[j] == inner[j]);
            }
        }
    }
}

/// Stable sorting by an order that respects `key` puts the sequence in key order.
pub proof fn lemma_sort_stable_sorted<T>(s: Seq<T>, before: spec_fn(T, T) -> bool, key: spec_fn(T) -> int)
    requires
        respects_key(before, key),
    ensures
        sorted_by(sort_stable(s, before), key),
    decreases s.len(),
{
    if s.len() > 0 {
        lemma_sort_stable_sorted(s.drop_last(), before, key);
        lemma_insert_stable_sorted(sort_stable(s.drop_last(), before), s.last(), before, key);
    }
}

/// Stable insertion under a key order adds `x` after the elements that
/// share its key, and leaves the elements of any other key as they were.
pub proof fn lemma_insert_stable_keep<T>(
    sorted: Seq<T>,
    x: T,
    before: spec_fn(T, T) -> bool,
    key: spec_fn(T) -> int,
    k: int,
)
    requires
        is_key_order(before, key),
    ensures
        keep(insert_stable(sorted, x, before), has_key(key, k)) == if key(x) == k {
            keep(sorted, has_key(key, k)).push(x)
        } else {
            keep(sorted, has_key(key, k))
        },
    decreases sorted.len(),
{
    let p = has_key(key, k);
    if sorted.len() == 0 || !before(x, sorted.last()) {
        assert(sorted.push(x).drop_last() =~= sorted);
    } else {
        let rest = sorted.drop_last();
        let last = sorted.last();
        lemma_insert_stable_keep(rest, x, before, key, k);
        let inner = insert_stable(rest, x, before);
        assert(inner.push(last).drop_last() =~= inner);
        assert(key(x) < key(last));
    }
}

/// Stable sorting under a key order keeps, within each key, the input order.
pub proof fn lemma_sort_stable_keep<T>(s: Seq<T>, before: spec_fn(T, T) -> bool, key: spec_fn(T) -> int, k: int)
    requires
        is_key_order(before, key),
    ensures
        keep(sort_stable(s, before), has_key(key, k)) == keep(s, has_key(key, k)),
    decreases s.len(),
{
    if s.len() > 0 {
        lemma_sort_stable_keep(s.drop_last(), before, key, k);
        lemma_insert_stable_keep(sort_stable(s.drop_last(), before), s.last(), before, key, k);
    }
}

} // verus!
