//! Small tables keyed by strings, each key at most once: the plugin keeps
//! its jobs, marks, permission requests and grants in them.
use vstd::prelude::*;

verus! {

/// No key occurs twice.
pub open spec fn keys_unique<V>(t: Seq<(String, V)>) -> bool {
    forall|i: int, j: int| 0 <= i < j < t.len() ==> (#[trigger] t[i]).0@ != (#[trigger] t[j]).0@
}

/// The value stored under `key`.
pub open spec fn lookup<V>(t: Seq<(String, V)>, key: Seq<char>) -> Option<V> {
    if exists|i: int| 0 <= i < t.len() && (#[trigger] t[i]).0@ == key {
        let i = choose|i: int| 0 <= i < t.len() && (#[trigger] t[i]).0@ == key;
        Some(t[i].1)
    } else {
        None
    }
}

/// The keys present.
pub open spec fn has_key<V>(t: Seq<(String, V)>, key: Seq<char>) -> bool {
    exists|i: int| 0 <= i < t.len() && (#[trigger] t[i]).0@ == key
}

pub proof fn lemma_lookup_at<V>(t: Seq<(String, V)>, i: int)
    requires
        keys_unique(t),
        0 <= i < t.len(),
    ensures
        lookup(t, t[i].0@) == Some(t[i].1),
{
    let k = t[i].0@;
    assert(exists|j: int| 0 <= j < t.len() && (#[trigger] t[j]).0@ == k);
    let j = choose|j: int| 0 <= j < t.len() && (#[trigger] t[j]).0@ == k;
    if j != i {
        if j < i {
            assert(t[j].0@ != t[i].0@);
        } else {
            assert(t[i].0@ != t[j].0@);
        }
    }
}

/// The index of `key`.
pub fn position<V>(t: &Vec<(String, V)>, key: &String) -> (r: Option<usize>)
    requires
        keys_unique(t@),
    ensures
        match r {
            Some(i) => i < t@.len() && t@[i as int].0@ == key@ && lookup(t@, key@) == Some(
                t@[i as int].1,
            ),
            None => !has_key(t@, key@) && lookup(t@, key@) is None,
        },
{
    let mut i: usize = 0;
    while i < t.len()
        invariant
            i <= t@.len(),
            keys_unique(t@),
            forall|k: int| 0 <= k < i ==> (#[trigger] t@[k]).0@ != key@,
        decreases t@.len() - i,
    {
        if t[i].0 == *key {
            proof {
                lemma_lookup_at(t@, i as int);
            }
            return Some(i);
        }
        i = i + 1;
    }
    None
}

/// Stores `value` under `key`, replacing what was there.
pub fn insert<V>(t: &mut Vec<(String, V)>, key: String, value: V)
    requires
        keys_unique(old(t)@),
    ensures
        keys_unique(final(t)@),
        forall|k: Seq<char>| #[trigger] lookup(final(t)@, k) == if k == key@ {
            Some(value)
        } else {
            lookup(old(t)@, k)
        },
        forall|k: Seq<char>| #[trigger] has_key(final(t)@, k) == (k == key@ || has_key(old(t)@, k)),
        !has_key(old(t)@, key@) ==> final(t)@ == old(t)@.push((key, value)),
        has_key(old(t)@, key@) ==> exists|i: int|
            0 <= i < old(t)@.len() && old(t)@[i].0@ == key@ && final(t)@ == old(t)@.update(i, (key, value)),
{
    let ghost kv = key@;
    match position(t, &key) {
        Some(i) => {
            assert(has_key(old(t)@, kv));
            let ghost entry = (key, value);
            t.set(i, (key, value));
            assert(t@ == old(t)@.update(i as int, entry));
            assert forall|k: Seq<char>| #[trigger] has_key(t@, k) == (k == kv || has_key(old(t)@, k)) by {
                if has_key(old(t)@, k) {
                    let j = choose|j: int| 0 <= j < old(t)@.len() && (#[trigger] old(t)@[j]).0@ == k;
                    assert(t@[j].0@ == k);
                }
                if has_key(t@, k) {
                    let j = choose|j: int| 0 <= j < t@.len() && (#[trigger] t@[j]).0@ == k;
                    assert(old(t)@[j].0@ == k);
                }
            }
            assert forall|k: Seq<char>| #[trigger] lookup(t@, k) == if k == kv {
                Some(value)
            } else {
                lookup(old(t)@, k)
            } by {
                lemma_lookup_at(t@, i as int);
                if k != kv && has_key(old(t)@, k) {
                    let j = choose|j: int| 0 <= j < old(t)@.len() && (#[trigger] old(t)@[j]).0@ == k;
                    lemma_lookup_at(old(t)@, j);
                    lemma_lookup_at(t@, j);
                }
            }
        },
        None => {
            t.push((key, value));
            let ghost n: int = t@.len() - 1;
            assert forall|k: Seq<char>| #[trigger] has_key(t@, k) == (k == kv || has_key(old(t)@, k)) by {
                if has_key(old(t)@, k) {
                    let j = choose|j: int| 0 <= j < old(t)@.len() && (#[trigger] old(t)@[j]).0@ == k;
                    assert(t@[j].0@ == k);
                }
                if k == kv {
                    assert(t@[n].0@ == k);
                }
                if has_key(t@, k) && k != kv {
                    let j = choose|j: int| 0 <= j < t@.len() && (#[trigger] t@[j]).0@ == k;
                    assert(old(t)@[j].0@ == k);
                }
            }
            assert forall|k: Seq<char>| #[trigger] lookup(t@, k) == if k == kv {
                Some(value)
            } else {
                lookup(old(t)@, k)
            } by {
                lemma_lookup_at(t@, n);
                if k != kv && has_key(old(t)@, k) {
                    let j = choose|j: int| 0 <= j < old(t)@.len() && (#[trigger] old(t)@[j]).0@ == k;
                    lemma_lookup_at(old(t)@, j);
                    lemma_lookup_at(t@, j);
                }
            }
        },
    }
}

/// Takes out the value stored under `key`.
pub fn remove<V>(t: &mut Vec<(String, V)>, key: &String) -> (r: Option<V>)
    requires
        keys_unique(old(t)@),
    ensures
        keys_unique(final(t)@),
        r == lookup(old(t)@, key@),
        r is None ==> final(t)@ == old(t)@,
        forall|k: Seq<char>| #[trigger] lookup(final(t)@, k) == if k == key@ {
            None
        } else {
            lookup(old(t)@, k)
        },
        forall|k: Seq<char>| #[trigger] has_key(final(t)@, k) == (k != key@ && has_key(old(t)@, k)),
        final(t)@.len() <= old(t)@.len(),
        r is Some ==> exists|i: int| 0 <= i < old(t)@.len() && final(t)@ == old(t)@.remove(i),
{
    match position(t, key) {
        Some(i) => {
            let (_, v) = t.remove(i);
            assert(t@ == old(t)@.remove(i as int));
            assert forall|a: int, b: int| 0 <= a < b < t@.len() implies (#[trigger] t@[a]).0@
                != (#[trigger] t@[b]).0@ by {
                let a2 = if a < i { a } else { a + 1 };
                let b2 = if b < i { b } else { b + 1 };
                assert(t@[a] == old(t)@[a2]);
                assert(t@[b] == old(t)@[b2]);
            }
            assert forall|k: Seq<char>| #[trigger] has_key(t@, k) == (k != key@ && has_key(old(t)@, k)) by {
                if has_key(t@, k) {
                    let j = choose|j: int| 0 <= j < t@.len() && (#[trigger] t@[j]).0@ == k;
                    let j2 = if j < i { j } else { j + 1 };
                    assert(old(t)@[j2] == t@[j]);
                    if k == key@ {
                        assert(old(t)@[i as int].0@ == key@);
                    }
                }
                if k != key@ && has_key(old(t)@, k) {
                    let j = choose|j: int| 0 <= j < old(t)@.len() && (#[trigger] old(t)@[j]).0@ == k;
                    assert(j != i);
                    let j2 = if j < i { j } else { j - 1 };
                    assert(t@[j2] == old(t)@[j]);
                }
            }
            assert forall|k: Seq<char>| #[trigger] lookup(t@, k) == if k == key@ {
                None
            } else {
                lookup(old(t)@, k)
            } by {
                if k != key@ && has_key(old(t)@, k) {
                    let j = choose|j: int| 0 <= j < old(t)@.len() && (#[trigger] old(t)@[j]).0@ == k;
                    assert(j != i);
                    let j2 = if j < i { j } else { j - 1 };
                    assert(t@[j2] == old(t)@[j]);
                    lemma_lookup_at(old(t)@, j);
                    lemma_lookup_at(t@, j2);
                }
            }
            Some(v)
        },
        None => None,
    }
}

} // verus!
