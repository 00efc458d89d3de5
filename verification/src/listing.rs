//! Generic listing operations over sequences: filtered selections newest or
//! oldest first with a limit, counting, lookup of the first element with a
//! key, and insert-or-replace by key.
use vstd::prelude::*;

verus! {

/// Up to `limit` elements of `s` that satisfy `keep`, newest first.
pub open spec fn newest_matching<T>(s: Seq<T>, keep: spec_fn(T) -> bool, limit: nat) -> Seq<T>
    decreases s.len(),
{
    if s.len() == 0 || limit == 0 {
        Seq::<T>::empty()
    } else if keep(s.last()) {
        seq![s.last()] + newest_matching(s.drop_last(), keep, (limit - 1) as nat)
    } else {
        newest_matching(s.drop_last(), keep, limit)
    }
}

/// Up to `limit` elements of `s` that satisfy `keep`, oldest first.
pub open spec fn oldest_matching<T>(s: Seq<T>, keep: spec_fn(T) -> bool, limit: nat) -> Seq<T>
    decreases s.len(),
{
    if s.len() == 0 || limit == 0 {
        Seq::<T>::empty()
    } else if keep(s[0]) {
        seq![s[0]] + oldest_matching(s.skip(1), keep, (limit - 1) as nat)
    } else {
        oldest_matching(s.skip(1), keep, limit)
    }
}

/// The number of elements of `s` that satisfy `keep`.
pub open spec fn count_matching<T>(s: Seq<T>, keep: spec_fn(T) -> bool) -> nat
    decreases s.len(),
{
    if s.len() == 0 {
        0
    } else {
        count_matching(s.drop_last(), keep) + if keep(s.last()) { 1nat } else { 0nat }
    }
}


/// The index of the first element of `s` with key `key` under `key_of`.
pub open spec fn first_with<T>(s: Seq<T>, key_of: spec_fn(T) -> Seq<char>, key: Seq<char>) -> Option<int>
    decreases s.len(),
{
    if s.len() == 0 {
        None
    } else {
        match first_with(s.drop_last(), key_of, key) {
            Some(i) => Some(i),
            None => if key_of(s.last()) == key { Some(s.len() - 1) } else { None },
        }
    }
}

/// `s` with the first element keyed like `x` replaced by `x`, or `x` appended.
pub open spec fn upserted<T>(s: Seq<T>, key_of: spec_fn(T) -> Seq<char>, x: T) -> Seq<T> {
    match first_with(s, key_of, key_of(x)) {
        Some(i) => s.update(i, x),
        None => s.push(x),
    }
}

/// No two elements share a key.
pub open spec fn keys_unique<T>(s: Seq<T>, key_of: spec_fn(T) -> Seq<char>) -> bool {
    forall|i: int, j: int| 0 <= i < s.len() && 0 <= j < s.len() && i != j ==> key_of(s[i]) != key_of(s[j])
}


pub proof fn lemma_first_with_bounds<T>(s: Seq<T>, key_of: spec_fn(T) -> Seq<char>, key: Seq<char>)
    ensures
        first_with(s, key_of, key) matches Some(i) ==> 0 <= i < s.len() && key_of(s[i]) == key
            && forall|j: int| 0 <= j < i ==> key_of(#[trigger] s[j]) != key,
        first_with(s, key_of, key) is None ==> forall|j: int| 0 <= j < s.len() ==> key_of(#[trigger] s[j]) != key,
    decreases s.len(),
{
    if s.len() > 0 {
        lemma_first_with_bounds(s.drop_last(), key_of, key);
        assert forall|j: int| 0 <= j < s.len() - 1 implies s.drop_last()[j] == #[trigger] s[j] by {}
    }
}

pub proof fn lemma_first_with_is<T>(s: Seq<T>, key_of: spec_fn(T) -> Seq<char>, key: Seq<char>, i: int)
    requires
        0 <= i < s.len(),
        key_of(s[i]) == key,
        forall|j: int| 0 <= j < i ==> key_of(#[trigger] s[j]) != key,
    ensures
        first_with(s, key_of, key) == Some(i),
    decreases s.len(),
{
    lemma_first_with_bounds(s, key_of, key);
    lemma_first_with_bounds(s.drop_last(), key_of, key);
    if i < s.len() - 1 {
        assert forall|j: int| 0 <= j < i implies key_of(#[trigger] s.drop_last()[j]) != key by {
            assert(s.drop_last()[j] == s[j]);
        }
        assert(s.drop_last()[i] == s[i]);
        lemma_first_with_is(s.drop_last(), key_of, key, i);
    } else {
        assert forall|j: int| 0 <= j < s.len() - 1 implies key_of(#[trigger] s.drop_last()[j]) != key by {
            assert(s.drop_last()[j] == s[j]);
        }
    }
}

pub proof fn lemma_first_with_none<T>(s: Seq<T>, key_of: spec_fn(T) -> Seq<char>, key: Seq<char>)
    requires
        forall|j: int| 0 <= j < s.len() ==> key_of(#[trigger] s[j]) != key,
    ensures
        first_with(s, key_of, key) is None,
{
    lemma_first_with_bounds(s, key_of, key);
}


/// Storing the same record twice leaves the store as storing it once.
pub proof fn law_upsert_idempotent<T>(s: Seq<T>, key_of: spec_fn(T) -> Seq<char>, x: T)
    ensures
        upserted(upserted(s, key_of, x), key_of, x) == upserted(s, key_of, x),
{
    lemma_first_with_bounds(s, key_of, key_of(x));
    let u = upserted(s, key_of, x);
    match first_with(s, key_of, key_of(x)) {
        Some(i) => {
            assert forall|j: int| 0 <= j < i implies key_of(#[trigger] u[j]) != key_of(x) by {
                assert(u[j] == s[j]);
            }
            lemma_first_with_is(u, key_of, key_of(x), i);
            assert(u.update(i, x) =~= u);
        },
        None => {
            assert forall|j: int| 0 <= j < s.len() implies key_of(#[trigger] u[j]) != key_of(x) by {
                assert(u[j] == s[j]);
            }
            lemma_first_with_is(u, key_of, key_of(x), s.len() as int);
            assert(u.update(s.len() as int, x) =~= u);
        },
    }
}

/// Storing records never gives two of them the same key, and adds at most one.
pub proof fn law_upsert_keeps_keys_unique<T>(s: Seq<T>, key_of: spec_fn(T) -> Seq<char>, x: T)
    requires
        keys_unique(s, key_of),
    ensures
        keys_unique(upserted(s, key_of, x), key_of),
        s.len() <= upserted(s, key_of, x).len() <= s.len() + 1,
{
    lemma_first_with_bounds(s, key_of, key_of(x));
    let u = upserted(s, key_of, x);
    match first_with(s, key_of, key_of(x)) {
        Some(i) => {
            assert forall|a: int, b: int| 0 <= a < u.len() && 0 <= b < u.len() && a != b
                implies key_of(u[a]) != key_of(u[b]) by {
                if a != i && b != i {
                    assert(u[a] == s[a] && u[b] == s[b]);
                } else if a == i {
                    assert(u[b] == s[b]);
                    assert(key_of(s[i]) == key_of(x));
                } else {
                    assert(u[a] == s[a]);
                    assert(key_of(s[i]) == key_of(x));
                }
            }
        },
        None => {
            assert forall|a: int, b: int| 0 <= a < u.len() && 0 <= b < u.len() && a != b
                implies key_of(u[a]) != key_of(u[b]) by {
                if a < s.len() && b < s.len() {
                    assert(u[a] == s[a] && u[b] == s[b]);
                } else if a == s.len() {
                    assert(u[b] == s[b]);
                } else {
                    assert(u[a] == s[a]);
                }
            }
        },
    }
}

/// A query never returns more than `limit` elements, each satisfying its filter,
/// and a newest-first query with room returns the newest matching element first.
pub proof fn law_newest_matching_bounded<T>(s: Seq<T>, keep: spec_fn(T) -> bool, limit: nat)
    ensures
        newest_matching(s, keep, limit).len() <= limit,
        forall|k: int| 0 <= k < newest_matching(s, keep, limit).len() ==> keep(#[trigger] newest_matching(s, keep, limit)[k]),
        limit > 0 && s.len() > 0 && keep(s.last()) ==> newest_matching(s, keep, limit)[0] == s.last(),
    decreases s.len(),
{
    if s.len() > 0 && limit > 0 {
        law_newest_matching_bounded(s.drop_last(), keep, (limit - 1) as nat);
        law_newest_matching_bounded(s.drop_last(), keep, limit);
        let r = newest_matching(s, keep, limit);
        if keep(s.last()) {
            let t = newest_matching(s.drop_last(), keep, (limit - 1) as nat);
            assert forall|k: int| 0 <= k < r.len() implies keep(#[trigger] r[k]) by {
                if k > 0 {
                    assert(r[k] == t[k - 1]);
                }
            }
        }
    }
}

/// Likewise for oldest-first queries.
pub proof fn law_oldest_matching_bounded<T>(s: Seq<T>, keep: spec_fn(T) -> bool, limit: nat)
    ensures
        oldest_matching(s, keep, limit).len() <= limit,
        forall|k: int| 0 <= k < oldest_matching(s, keep, limit).len() ==> keep(#[trigger] oldest_matching(s, keep, limit)[k]),
    decreases s.len(),
{
    if s.len() > 0 && limit > 0 {
        law_oldest_matching_bounded(s.skip(1), keep, (limit - 1) as nat);
        law_oldest_matching_bounded(s.skip(1), keep, limit);
        let r = oldest_matching(s, keep, limit);
        if keep(s[0]) {
            let t = oldest_matching(s.skip(1), keep, (limit - 1) as nat);
            assert forall|k: int| 0 <= k < r.len() implies keep(#[trigger] r[k]) by {
                if k > 0 {
                    assert(r[k] == t[k - 1]);
                }
            }
        }
    }
}


/// Every element a filter keeps comes from the sequence and satisfies the filter.
pub proof fn lemma_filter_within<T>(s: Seq<T>, keep: spec_fn(T) -> bool)
    ensures
        forall|i: int| 0 <= i < s.filter(keep).len() ==> s.contains(#[trigger] s.filter(keep)[i]) && keep(s.filter(keep)[i]),
    decreases s.len(),
{
    reveal_with_fuel(Seq::filter, 1);
    if s.len() > 0 {
        let d = s.drop_last();
        lemma_filter_within(d, keep);
        let f = s.filter(keep);
        let g = d.filter(keep);
        assert forall|i: int| 0 <= i < f.len() implies s.contains(#[trigger] f[i]) && keep(f[i]) by {
            if i < g.len() {
                assert(f[i] == g[i]);
                let m = choose|m: int| 0 <= m < d.len() && d[m] == g[i];
                assert(s[m] == d[m]);
            } else {
                assert(f[i] == s.last());
                assert(s[s.len() - 1] == s.last());
            }
        }
    }
}

} // verus!
