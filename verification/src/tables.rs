//! Generic facts about the table-like sequences the store keeps: finding the
//! first matching row and keeping the rows that satisfy a condition.

use vstd::prelude::*;

verus! {

/// The index of the first element satisfying `p`, if any.
pub open spec fn first_index<T>(s: Seq<T>, p: spec_fn(T) -> bool) -> Option<int>
    decreases s.len(),
{
    if s.len() == 0 {
        None
    } else if p(s[0]) {
        Some(0)
    } else {
        match first_index(s.drop_first(), p) {
            Some(i) => Some(i + 1),
            None => None,
        }
    }
}

/// `first_index` is the first index whose element satisfies `p`.
pub proof fn lemma_first_index<T>(s: Seq<T>, p: spec_fn(T) -> bool)
    ensures
        first_index(s, p) matches Some(i) ==> 0 <= i < s.len() && p(s[i]) && forall|j: int|
            0 <= j < i ==> !p(#[trigger] s[j]),
        first_index(s, p) is None ==> forall|j: int| 0 <= j < s.len() ==> !p(#[trigger] s[j]),
    decreases s.len(),
{
    if s.len() > 0 && !p(s[0]) {
        lemma_first_index(s.drop_first(), p);
        assert forall|j: int| 1 <= j < s.len() implies s[j] == s.drop_first()[j - 1] by {}
        if first_index(s, p) is None {
            assert forall|j: int| 0 <= j < s.len() implies !p(#[trigger] s[j]) by {
                if j > 0 {
                    assert(s[j] == s.drop_first()[j - 1]);
                }
            }
        } else {
            let i = first_index(s, p)->0;
            assert forall|j: int| 0 <= j < i implies !p(#[trigger] s[j]) by {
                if j > 0 {
                    assert(s[j] == s.drop_first()[j - 1]);
                }
            }
        }
    }
}

/// Pinning down `first_index` from a scan.
pub proof fn lemma_first_index_at<T>(s: Seq<T>, p: spec_fn(T) -> bool, i: int)
    requires
        0 <= i <= s.len(),
        forall|j: int| 0 <= j < i ==> !p(#[trigger] s[j]),
        i < s.len() ==> p(s[i]),
    ensures
        first_index(s, p) == (if i < s.len() { Some(i) } else { None::<int> }),
{
    lemma_first_index(s, p);
    match first_index(s, p) {
        Some(k) => {
            if k < i {
                assert(!p(s[k]));
            }
            if k > i && i < s.len() {
                assert(!p(s[i]));
            }
        },
        None => {
            if i < s.len() {
                assert(!p(s[i]));
            }
        },
    }
}

/// The elements of `s` that satisfy `p`, in order.
pub open spec fn keep<T>(s: Seq<T>, p: spec_fn(T) -> bool) -> Seq<T>
    decreases s.len(),
{
    if s.len() == 0 {
        Seq::empty()
    } else {
        let kept = keep(s.drop_last(), p);
        if p(s.last()) {
            kept.push(s.last())
        } else {
            kept
        }
    }
}

/// Extending the scanned prefix by one element.
pub proof fn lemma_keep_step<T>(s: Seq<T>, p: spec_fn(T) -> bool, i: int)
    requires
        0 <= i < s.len(),
    ensures
        keep(s.take(i + 1), p) == if p(s[i]) {
            keep(s.take(i), p).push(s[i])
        } else {
            keep(s.take(i), p)
        },
{
    assert(s.take(i + 1).drop_last() =~= s.take(i));
    assert(s.take(i + 1).last() == s[i]);
}

/// Every kept element satisfies `p` and comes from `s`; an element of `s`
/// that satisfies `p` is kept.
pub proof fn lemma_keep_contents<T>(s: Seq<T>, p: spec_fn(T) -> bool)
    ensures
        forall|k: int| 0 <= k < keep(s, p).len() ==> p(#[trigger] keep(s, p)[k]) && s.contains(
            keep(s, p)[k],
        ),
        forall|j: int| 0 <= j < s.len() && p(#[trigger] s[j]) ==> keep(s, p).contains(s[j]),
        keep(s, p).len() <= s.len(),
    decreases s.len(),
{
    if s.len() > 0 {
        let rest = s.drop_last();
        lemma_keep_contents(rest, p);
        let kept = keep(rest, p);
        assert forall|k: int| 0 <= k < keep(s, p).len() implies p(#[trigger] keep(s, p)[k])
            && s.contains(keep(s, p)[k]) by {
            if k < kept.len() {
                assert(keep(s, p)[k] == kept[k]);
                let m = choose|m: int| 0 <= m < rest.len() && rest[m] == kept[k];
                assert(s[m] == rest[m]);
            } else {
                assert(keep(s, p)[k] == s.last());
                assert(s[s.len() - 1] == s.last());
            }
        }
        assert forall|j: int| 0 <= j < s.len() && p(#[trigger] s[j]) implies keep(s, p).contains(
            s[j],
        ) by {
            if j < rest.len() {
                assert(rest[j] == s[j]);
                assert(kept.contains(s[j]));
                let m = choose|m: int| 0 <= m < kept.len() && kept[m] == s[j];
                assert(keep(s, p)[m] == kept[m]);
            } else {
                assert(keep(s, p)[keep(s, p).len() - 1] == s[j]);
            }
        }
    }
}

/// Keeping by `p` and then by `q` keeps what satisfies both.
pub proof fn lemma_keep_keep<T>(s: Seq<T>, p: spec_fn(T) -> bool, q: spec_fn(T) -> bool)
    ensures
        keep(keep(s, p), q) == keep(s, |x: T| p(x) && q(x)),
    decreases s.len(),
{
    if s.len() > 0 {
        lemma_keep_keep(s.drop_last(), p, q);
        let kept = keep(s.drop_last(), p);
        if p(s.last()) {
            assert(kept.push(s.last()).drop_last() =~= kept);
        }
    }
}

/// Keeping by predicates that agree everywhere keeps the same.
pub proof fn lemma_keep_same<T>(s: Seq<T>, p: spec_fn(T) -> bool, q: spec_fn(T) -> bool)
    requires
        forall|x: T| #[trigger] p(x) == q(x),
    ensures
        keep(s, p) == keep(s, q),
    decreases s.len(),
{
    if s.len() > 0 {
        lemma_keep_same(s.drop_last(), p, q);
        assert(p(s.last()) == q(s.last()));
    }
}

/// Keeping by a predicate that no element satisfies keeps nothing.
pub proof fn lemma_keep_none<T>(s: Seq<T>, p: spec_fn(T) -> bool)
    requires
        forall|x: T| !#[trigger] p(x),
    ensures
        keep(s, p).len() == 0,
    decreases s.len(),
{
    if s.len() > 0 {
        lemma_keep_none(s.drop_last(), p);
        assert(!p(s.last()));
    }
}

/// The sequence with its first element satisfying `p` replaced by `x`, or
/// with `x` appended when no element does: an upsert by key.
pub open spec fn upsert_first<T>(s: Seq<T>, p: spec_fn(T) -> bool, x: T) -> Seq<T> {
    match first_index(s, p) {
        Some(i) => s.update(i, x),
        None => s.push(x),
    }
}

/// After an upsert of `x` by a key that `x` has, `x` is the first element
/// with that key.
pub proof fn lemma_upsert_first<T>(s: Seq<T>, p: spec_fn(T) -> bool, x: T)
    requires
        p(x),
    ensures
        first_index(upsert_first(s, p, x), p) matches Some(k) && upsert_first(s, p, x)[k] == x,
{
    lemma_first_index(s, p);
    let r = upsert_first(s, p, x);
    match first_index(s, p) {
        Some(i) => {
            assert forall|j: int| 0 <= j < i implies !p(#[trigger] r[j]) by {
                assert(r[j] == s[j]);
            }
            lemma_first_index_at(r, p, i);
        },
        None => {
            assert forall|j: int| 0 <= j < s.len() implies !p(#[trigger] r[j]) by {
                assert(r[j] == s[j]);
            }
            lemma_first_index_at(r, p, s.len() as int);
        },
    }
}

/// Changing an element that does not satisfy `q`, into another that does
/// not either, leaves the first element satisfying `q` where it was.
pub proof fn lemma_first_index_update_other<T>(s: Seq<T>, i: int, x: T, q: spec_fn(T) -> bool)
    requires
        0 <= i < s.len(),
        !q(s[i]),
        !q(x),
    ensures
        first_index(s.update(i, x), q) == first_index(s, q),
        first_index(s, q) matches Some(k) ==> s.update(i, x)[k] == s[k],
{
    lemma_first_index(s, q);
    let r = s.update(i, x);
    match first_index(s, q) {
        Some(k) => {
            assert forall|j: int| 0 <= j < k implies !q(#[trigger] r[j]) by {
                if j != i {
                    assert(r[j] == s[j]);
                }
            }
            assert(r[k] == s[k]);
            lemma_first_index_at(r, q, k);
        },
        None => {
            assert forall|j: int| 0 <= j < r.len() implies !q(#[trigger] r[j]) by {
                if j != i {
                    assert(r[j] == s[j]);
                }
            }
            lemma_first_index_at(r, q, r.len() as int);
        },
    }
}

/// Appending an element that does not satisfy `q` leaves the first element
/// satisfying `q` where it was.
pub proof fn lemma_first_index_push_other<T>(s: Seq<T>, x: T, q: spec_fn(T) -> bool)
    requires
        !q(x),
    ensures
        first_index(s.push(x), q) == first_index(s, q),
        first_index(s, q) matches Some(k) ==> s.push(x)[k] == s[k],
{
    lemma_first_index(s, q);
    let r = s.push(x);
    match first_index(s, q) {
        Some(k) => {
            assert forall|j: int| 0 <= j < k implies !q(#[trigger] r[j]) by {
                assert(r[j] == s[j]);
            }
            assert(r[k] == s[k]);
            lemma_first_index_at(r, q, k);
        },
        None => {
            assert forall|j: int| 0 <= j < r.len() implies !q(#[trigger] r[j]) by {
                if j < s.len() {
                    assert(r[j] == s[j]);
                }
            }
            lemma_first_index_at(r, q, r.len() as int);
        },
    }
}

/// After keeping only elements that fail `q`, none satisfies `q`.
/// The first element that satisfies `p` is the first one that `keep` keeps.
pub proof fn lemma_first_index_first_kept<T>(s: Seq<T>, p: spec_fn(T) -> bool)
    ensures
        match first_index(s, p) {
            Some(i) => keep(s, p).len() > 0 && keep(s, p)[0] == s[i],
            None => keep(s, p).len() == 0,
        },
    decreases s.len(),
{
    if s.len() > 0 {
        let rest = s.drop_last();
        lemma_first_index_first_kept(rest, p);
        lemma_first_index(rest, p);
        match first_index(rest, p) {
            Some(i) => {
                assert forall|j: int| 0 <= j < i implies !p(#[trigger] s[j]) by {
                    assert(s[j] == rest[j]);
                }
                assert(s[i] == rest[i]);
                lemma_first_index_at(s, p, i);
            },
            None => {
                assert forall|j: int| 0 <= j < s.len() - 1 implies !p(#[trigger] s[j]) by {
                    assert(s[j] == rest[j]);
                }
                if p(s.last()) {
                    lemma_first_index_at(s, p, s.len() - 1);
                } else {
                    lemma_first_index_at(s, p, s.len() as int);
                }
            },
        }
    }
}

/// When two sequences keep the same elements under `p`, the first element
/// that satisfies `p` is the same in both.
pub proof fn lemma_first_index_same_kept<T>(s: Seq<T>, t: Seq<T>, p: spec_fn(T) -> bool)
    requires
        keep(s, p) == keep(t, p),
    ensures
        match first_index(s, p) {
            Some(i) => first_index(t, p) matches Some(j) && t[j] == s[i],
            None => first_index(t, p) is None,
        },
{
    lemma_first_index_first_kept(s, p);
    lemma_first_index_first_kept(t, p);
}

pub proof fn lemma_keep_excludes<T>(s: Seq<T>, p: spec_fn(T) -> bool, q: spec_fn(T) -> bool)
    requires
        forall|x: T| #[trigger] p(x) ==> !q(x),
    ensures
        first_index(keep(s, p), q) is None,
{
    lemma_keep_contents(s, p);
    let kept = keep(s, p);
    assert forall|j: int| 0 <= j < kept.len() implies !q(#[trigger] kept[j]) by {
        assert(p(kept[j]));
    }
    lemma_first_index_at(kept, q, kept.len() as int);
}

} // verus!
