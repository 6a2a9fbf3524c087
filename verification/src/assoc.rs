//! Association lists keyed by `u64`, used for the issuer table and the
//! holder/issuer credential indexes.
//!
//! A list of key-value pairs with pairwise distinct keys represents a
//! finite map. `assoc_get` is the mathematical lookup; the lemmas relate
//! it to positional reasoning and to the updates the registry performs.

use vstd::prelude::*;

verus! {

/// No two entries share a key.
pub open spec fn unique_keys<V>(s: Seq<(u64, V)>) -> bool {
    forall|i: int, j: int| 0 <= i < j < s.len() ==> s[i].0 != s[j].0
}

/// The value stored under key `k`, searching from the back of the list.
pub open spec fn assoc_get<V>(s: Seq<(u64, V)>, k: u64) -> Option<V>
    decreases s.len(),
{
    if s.len() == 0 {
        None
    } else if s.last().0 == k {
        Some(s.last().1)
    } else {
        assoc_get(s.drop_last(), k)
    }
}

/// Whether key `k` is present.
pub open spec fn assoc_has<V>(s: Seq<(u64, V)>, k: u64) -> bool {
    assoc_get(s, k) is Some
}

/// Lookup fails exactly when no entry carries the key.
pub proof fn lemma_assoc_none<V>(s: Seq<(u64, V)>, k: u64)
    ensures
        (assoc_get(s, k) is None) <==> (forall|i: int| 0 <= i < s.len() ==> s[i].0 != k),
    decreases s.len(),
{
    if s.len() > 0 {
        lemma_assoc_none(s.drop_last(), k);
        assert(forall|i: int| 0 <= i < s.len() - 1 ==> s.drop_last()[i] == s[i]);
        assert(s.last() == s[s.len() - 1]);
    }
}

/// With unique keys, lookup of an entry's key yields that entry's value.
pub proof fn lemma_assoc_at<V>(s: Seq<(u64, V)>, i: int)
    requires
        unique_keys(s),
        0 <= i < s.len(),
    ensures
        assoc_get(s, s[i].0) == Some(s[i].1),
    decreases s.len(),
{
    assert(s.last() == s[s.len() - 1]);
    if i < s.len() - 1 {
        assert(forall|j: int| 0 <= j < s.len() - 1 ==> s.drop_last()[j] == s[j]);
        lemma_assoc_at(s.drop_last(), i);
    }
}

/// Replacing the value at position `i` (keeping its key) changes the
/// lookup for that key alone, and keeps the keys unique.
pub proof fn lemma_assoc_update<V>(s: Seq<(u64, V)>, i: int, v: V, k: u64)
    requires
        unique_keys(s),
        0 <= i < s.len(),
    ensures
        assoc_get(s.update(i, (s[i].0, v)), k) == (if k == s[i].0 {
            Some(v)
        } else {
            assoc_get(s, k)
        }),
        unique_keys(s.update(i, (s[i].0, v))),
    decreases s.len(),
{
    let t = s.update(i, (s[i].0, v));
    assert(t.last() == t[s.len() - 1]);
    assert(s.last() == s[s.len() - 1]);
    if i == s.len() - 1 {
        assert(t.last() == (s[i].0, v));
        if k != s[i].0 {
            assert(t.drop_last() =~= s.drop_last());
        }
    } else {
        assert(t.last() == s.last());
        if s.last().0 != k {
            assert(forall|j: int| 0 <= j < s.len() - 1 ==> s.drop_last()[j] == s[j]);
            assert(t.drop_last() =~= s.drop_last().update(i, (s[i].0, v)));
            assert(s.drop_last()[i] == s[i]);
            lemma_assoc_update(s.drop_last(), i, v, k);
        }
    }
}

/// Appending an entry with a fresh key adds exactly that binding.
pub proof fn lemma_assoc_push<V>(s: Seq<(u64, V)>, k0: u64, v: V, k: u64)
    ensures
        assoc_get(s.push((k0, v)), k) == (if k == k0 {
            Some(v)
        } else {
            assoc_get(s, k)
        }),
{
    let t = s.push((k0, v));
    assert(t.last() == (k0, v));
    if k != k0 {
        assert(t.drop_last() =~= s);
    }
}

/// Appending a fresh key keeps the keys unique.
pub proof fn lemma_assoc_push_unique<V>(s: Seq<(u64, V)>, k0: u64, v: V)
    requires
        unique_keys(s),
        !assoc_has(s, k0),
    ensures
        unique_keys(s.push((k0, v))),
{
    lemma_assoc_none(s, k0);
    let t = s.push((k0, v));
    assert forall|i: int, j: int| 0 <= i < j < t.len() implies t[i].0 != t[j].0 by {
        if j < s.len() {
            assert(t[i] == s[i] && t[j] == s[j]);
        } else {
            assert(t[i] == s[i] && t[j] == (k0, v));
        }
    }
}

/// Linear scan for a key; relates the outcome to the positional view.
pub fn assoc_find<V>(s: &Vec<(u64, V)>, k: u64) -> (r: Option<usize>)
    ensures
        match r {
            Some(i) => i < s@.len() && s@[i as int].0 == k,
            None => forall|i: int| 0 <= i < s@.len() ==> s@[i].0 != k,
        },
{
    let mut i: usize = 0;
    while i < s.len()
        invariant
            i <= s@.len(),
            forall|j: int| 0 <= j < i ==> s@[j].0 != k,
        decreases s@.len() - i,
    {
        if s[i].0 == k {
            return Some(i);
        }
        i = i + 1;
    }
    None
}

/// A fresh vector holding the same identifiers.
pub fn copy_ids(src: &Vec<u64>) -> (r: Vec<u64>)
    ensures
        r@ == src@,
{
    let mut r: Vec<u64> = Vec::new();
    let mut i: usize = 0;
    while i < src.len()
        invariant
            i <= src@.len(),
            r@ == src@.subrange(0, i as int),
        decreases src@.len() - i,
    {
        r.push(src[i]);
        proof {
            assert(r@ =~= src@.subrange(0, i as int + 1));
        }
        i = i + 1;
    }
    proof {
        assert(r@ =~= src@);
    }
    r
}

/// The identifiers recorded under key `k`, empty when the key is absent.
pub open spec fn index_ids(s: Seq<(u64, Vec<u64>)>, k: u64) -> Seq<u64> {
    match assoc_get(s, k) {
        Some(l) => l@,
        None => Seq::empty(),
    }
}

/// Append `id` to the identifier list stored under `key`, creating the
/// entry when the key is new. Every other key's list is untouched.
pub fn append_to_index(idx: &mut Vec<(u64, Vec<u64>)>, key: u64, id: u64)
    requires
        unique_keys(old(idx)@),
    ensures
        unique_keys(final(idx)@),
        index_ids(final(idx)@, key) == index_ids(old(idx)@, key).push(id),
        forall|k2: u64| k2 != key ==> index_ids(final(idx)@, k2) == index_ids(old(idx)@, k2),
{
    let ghost s0 = idx@;
    let found = assoc_find(idx, key);
    match found {
        Some(i) => {
            let mut nl = copy_ids(&idx[i].1);
            nl.push(id);
            proof {
                lemma_assoc_at(s0, i as int);
            }
            idx.set(i, (key, nl));
            proof {
                assert(s0[i as int].0 == key);
                assert(idx@ == s0.update(i as int, (s0[i as int].0, nl)));
                lemma_assoc_update(s0, i as int, nl, key);
                assert(index_ids(idx@, key) =~= index_ids(s0, key).push(id));
                assert forall|k2: u64| k2 != key implies index_ids(idx@, k2) == index_ids(
                    s0,
                    k2,
                ) by {
                    lemma_assoc_update(s0, i as int, nl, k2);
                }
            }
        },
        None => {
            proof {
                lemma_assoc_none(s0, key);
            }
            let mut nl: Vec<u64> = Vec::new();
            nl.push(id);
            idx.push((key, nl));
            proof {
                lemma_assoc_push_unique(s0, key, nl);
                lemma_assoc_push(s0, key, nl, key);
                assert(index_ids(s0, key) =~= Seq::<u64>::empty());
                assert(index_ids(idx@, key) =~= index_ids(s0, key).push(id));
                assert forall|k2: u64| k2 != key implies index_ids(idx@, k2) == index_ids(
                    s0,
                    k2,
                ) by {
                    lemma_assoc_push(s0, key, nl, k2);
                }
            }
        },
    }
}

} // verus!
