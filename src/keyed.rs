use vstd::prelude::*;

verus! {

/// No two entries of `s` share a key.
pub open spec fn keys_unique<T, K>(s: Seq<T>, key: spec_fn(T) -> K) -> bool {
    forall|i: int, j: int|
        0 <= i < s.len() && 0 <= j < s.len() && #[trigger] key(s[i]) == #[trigger] key(s[j])
            ==> i == j
}

/// Some entry of `s` has key `k`.
pub open spec fn has_key<T, K>(s: Seq<T>, key: spec_fn(T) -> K, k: K) -> bool {
    exists|i: int| 0 <= i < s.len() && #[trigger] key(s[i]) == k
}

/// The position of an entry of `s` with key `k` (meaningful where one exists).
pub open spec fn key_index<T, K>(s: Seq<T>, key: spec_fn(T) -> K, k: K) -> int {
    choose|i: int| 0 <= i < s.len() && #[trigger] key(s[i]) == k
}

/// The entry of `s` with key `k`, if there is one.
pub open spec fn lookup<T, K>(s: Seq<T>, key: spec_fn(T) -> K, k: K) -> Option<T> {
    if has_key(s, key, k) {
        Some(s[key_index(s, key, k)])
    } else {
        None
    }
}

/// `s` with `v` in place of the entry that has its key, or with `v` appended
/// where there is none.
pub open spec fn put<T, K>(s: Seq<T>, key: spec_fn(T) -> K, v: T) -> Seq<T> {
    if has_key(s, key, key(v)) {
        s.update(key_index(s, key, key(v)), v)
    } else {
        s.push(v)
    }
}

pub proof fn lemma_lookup_at<T, K>(s: Seq<T>, key: spec_fn(T) -> K, i: int)
    requires
        keys_unique(s, key),
        0 <= i < s.len(),
    ensures
        has_key(s, key, key(s[i])),
        key_index(s, key, key(s[i])) == i,
        lookup(s, key, key(s[i])) == Some(s[i]),
{
    let k = key(s[i]);
    assert(has_key(s, key, k));
    let j = key_index(s, key, k);
    assert(key(s[j]) == key(s[i]));
}

pub proof fn lemma_lookup_absent<T, K>(s: Seq<T>, key: spec_fn(T) -> K, k: K)
    requires
        forall|i: int| 0 <= i < s.len() ==> #[trigger] key(s[i]) != k,
    ensures
        lookup(s, key, k) == None::<T>,
{
}

pub proof fn lemma_lookup_update<T, K>(s: Seq<T>, key: spec_fn(T) -> K, i: int, v: T)
    requires
        keys_unique(s, key),
        0 <= i < s.len(),
        key(v) == key(s[i]),
    ensures
        keys_unique(s.update(i, v), key),
        forall|k: K|
            #[trigger] lookup(s.update(i, v), key, k) == if k == key(v) {
                Some(v)
            } else {
                lookup(s, key, k)
            },
{
    let t = s.update(i, v);
    assert forall|a: int, b: int|
        0 <= a < t.len() && 0 <= b < t.len() && #[trigger] key(t[a]) == #[trigger] key(t[b])
        implies a == b by {
        assert(key(t[a]) == key(s[a]));
        assert(key(t[b]) == key(s[b]));
    }
    assert forall|k: K|
        #[trigger] lookup(t, key, k) == if k == key(v) {
            Some(v)
        } else {
            lookup(s, key, k)
        } by {
        if k == key(v) {
            lemma_lookup_at(t, key, i);
        } else {
            if has_key(s, key, k) {
                let j = choose|j: int| 0 <= j < s.len() && #[trigger] key(s[j]) == k;
                assert(j != i);
                assert(key(t[j]) == k);
                lemma_lookup_at(t, key, j);
                lemma_lookup_at(s, key, j);
            } else {
                assert forall|j: int| 0 <= j < t.len() implies #[trigger] key(t[j]) != k by {
                    if j != i {
                        assert(key(t[j]) == key(s[j]));
                    }
                }
                lemma_lookup_absent(t, key, k);
            }
        }
    }
}

pub proof fn lemma_lookup_push<T, K>(s: Seq<T>, key: spec_fn(T) -> K, v: T)
    requires
        keys_unique(s, key),
        !has_key(s, key, key(v)),
    ensures
        keys_unique(s.push(v), key),
        forall|k: K|
            #[trigger] lookup(s.push(v), key, k) == if k == key(v) {
                Some(v)
            } else {
                lookup(s, key, k)
            },
{
    let t = s.push(v);
    let n = s.len() as int;
    assert forall|a: int, b: int|
        0 <= a < t.len() && 0 <= b < t.len() && #[trigger] key(t[a]) == #[trigger] key(t[b])
        implies a == b by {
        if a < n && b < n {
            assert(key(t[a]) == key(s[a]));
            assert(key(t[b]) == key(s[b]));
        } else if a < n {
            assert(key(s[a]) == key(v));
        } else if b < n {
            assert(key(s[b]) == key(v));
        }
    }
    assert forall|k: K|
        #[trigger] lookup(t, key, k) == if k == key(v) {
            Some(v)
        } else {
            lookup(s, key, k)
        } by {
        assert(t[n] == v);
        if k == key(v) {
            lemma_lookup_at(t, key, n);
        } else {
            if has_key(s, key, k) {
                let j = choose|j: int| 0 <= j < s.len() && #[trigger] key(s[j]) == k;
                assert(key(t[j]) == k);
                lemma_lookup_at(t, key, j);
                lemma_lookup_at(s, key, j);
            } else {
                assert forall|j: int| 0 <= j < t.len() implies #[trigger] key(t[j]) != k by {
                    if j < n {
                        assert(key(t[j]) == key(s[j]));
                    }
                }
                lemma_lookup_absent(t, key, k);
            }
        }
    }
}

pub proof fn lemma_lookup_put<T, K>(s: Seq<T>, key: spec_fn(T) -> K, v: T)
    requires
        keys_unique(s, key),
    ensures
        keys_unique(put(s, key, v), key),
        forall|k: K|
            #[trigger] lookup(put(s, key, v), key, k) == if k == key(v) {
                Some(v)
            } else {
                lookup(s, key, k)
            },
{
    if has_key(s, key, key(v)) {
        let i = key_index(s, key, key(v));
        lemma_lookup_update(s, key, i, v);
    } else {
        lemma_lookup_push(s, key, v);
    }
}

} // verus!
