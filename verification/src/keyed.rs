use vstd::prelude::*;

use crate::text::str_eq;

verus! {

/// Entries keyed by a string, in the order they were first inserted.
/// No key occurs twice.
pub open spec fn keys_unique<V>(s: Seq<(Seq<char>, V)>) -> bool {
    forall|i: int, j: int|
        0 <= i < s.len() && 0 <= j < s.len() && i != j ==> #[trigger] s[i].0 != #[trigger] s[j].0
}

/// The position of `key`, searching from `i` on.
pub open spec fn key_position_from<V>(s: Seq<(Seq<char>, V)>, key: Seq<char>, i: int) -> Option<
    int,
>
    decreases s.len() - i,
{
    if i < 0 || i >= s.len() {
        None
    } else if s[i].0 == key {
        Some(i)
    } else {
        key_position_from(s, key, i + 1)
    }
}

/// The position of `key`.
pub open spec fn key_position<V>(s: Seq<(Seq<char>, V)>, key: Seq<char>) -> Option<int> {
    key_position_from(s, key, 0)
}

/// The value stored under `key`.
pub open spec fn keyed_lookup<V>(s: Seq<(Seq<char>, V)>, key: Seq<char>) -> Option<V> {
    match key_position(s, key) {
        Some(i) => Some(s[i].1),
        None => None,
    }
}

/// Stores `value` under `key`, replacing an earlier value in its place.
pub open spec fn keyed_upsert<V>(s: Seq<(Seq<char>, V)>, key: Seq<char>, value: V) -> Seq<
    (Seq<char>, V),
> {
    match key_position(s, key) {
        Some(i) => s.update(i, (key, value)),
        None => s.push((key, value)),
    }
}

/// Stores `value` under `key` unless the key is already present.
pub open spec fn keyed_insert_absent<V>(s: Seq<(Seq<char>, V)>, key: Seq<char>, value: V) -> Seq<
    (Seq<char>, V),
> {
    match key_position(s, key) {
        Some(i) => s,
        None => s.push((key, value)),
    }
}

/// The values, in entry order.
pub open spec fn keyed_values<V>(s: Seq<(Seq<char>, V)>) -> Seq<V> {
    s.map_values(|e: (Seq<char>, V)| e.1)
}

proof fn lemma_key_position_from<V>(s: Seq<(Seq<char>, V)>, key: Seq<char>, i: int)
    requires
        0 <= i <= s.len(),
    ensures
        key_position_from(s, key, i) matches Some(k) ==> i <= k < s.len() && s[k].0 == key
            && forall|j: int| i <= j < k ==> s[j].0 != key,
        key_position_from(s, key, i) is None ==> forall|j: int| i <= j < s.len() ==> s[j].0 != key,
    decreases s.len() - i,
{
    if i < s.len() {
        lemma_key_position_from(s, key, i + 1);
    }
}

/// A key's position is the first index that holds it; there is none
/// exactly when no entry holds it.
pub proof fn lemma_key_position<V>(s: Seq<(Seq<char>, V)>, key: Seq<char>)
    ensures
        key_position(s, key) matches Some(k) ==> 0 <= k < s.len() && s[k].0 == key && forall|
            j: int,
        |
            0 <= j < k ==> s[j].0 != key,
        key_position(s, key) is None ==> forall|j: int| 0 <= j < s.len() ==> s[j].0 != key,
{
    lemma_key_position_from(s, key, 0);
}

/// In entries with unique keys, the position of a key is the index holding it.
pub proof fn lemma_key_position_unique<V>(s: Seq<(Seq<char>, V)>, key: Seq<char>, k: int)
    requires
        keys_unique(s),
        0 <= k < s.len(),
        s[k].0 == key,
    ensures
        key_position(s, key) == Some(k),
{
    lemma_key_position(s, key);
    if let Some(p) = key_position(s, key) {
        if p != k {
            assert(s[p].0 == s[k].0);
        }
    }
}

/// Storing a value keeps the keys unique, and afterwards the key holds
/// exactly that value while every other key holds what it held before.
pub proof fn lemma_keyed_upsert<V>(s: Seq<(Seq<char>, V)>, key: Seq<char>, value: V)
    requires
        keys_unique(s),
    ensures
        keys_unique(keyed_upsert(s, key, value)),
        keyed_lookup(keyed_upsert(s, key, value), key) == Some(value),
        forall|other: Seq<char>|
            other != key ==> #[trigger] keyed_lookup(keyed_upsert(s, key, value), other)
                == keyed_lookup(s, other),
{
    lemma_key_position(s, key);
    let t = keyed_upsert(s, key, value);
    assert forall|i: int, j: int|
        0 <= i < t.len() && 0 <= j < t.len() && i != j implies #[trigger] t[i].0
        != #[trigger] t[j].0 by {
        if key_position(s, key) is None {
            if i < s.len() && j < s.len() {
                assert(s[i].0 != s[j].0);
            }
        } else {
            assert(s[i].0 != s[j].0);
        }
    }
    match key_position(s, key) {
        Some(k) => {
            lemma_key_position_unique(t, key, k);
        },
        None => {
            lemma_key_position_unique(t, key, s.len() as int);
        },
    }
    assert forall|other: Seq<char>| other != key implies #[trigger] keyed_lookup(t, other)
        == keyed_lookup(s, other) by {
        lemma_key_position(s, other);
        lemma_key_position(t, other);
        match key_position(s, other) {
            Some(k) => {
                lemma_key_position_unique(t, other, k);
            },
            None => {
                assert forall|j: int| 0 <= j < t.len() implies t[j].0 != other by {
                    if j < s.len() {
                        assert(s[j].0 != other);
                    }
                }
            },
        }
    }
}

/// Inserting under an absent key keeps the keys unique; the key then holds
/// its old value if it had one and `value` otherwise, and every other key
/// holds what it held before.
pub proof fn lemma_keyed_insert_absent<V>(s: Seq<(Seq<char>, V)>, key: Seq<char>, value: V)
    requires
        keys_unique(s),
    ensures
        keys_unique(keyed_insert_absent(s, key, value)),
        keyed_lookup(keyed_insert_absent(s, key, value), key) == match keyed_lookup(s, key) {
            Some(v) => Some(v),
            None => Some(value),
        },
        forall|other: Seq<char>|
            other != key ==> #[trigger] keyed_lookup(keyed_insert_absent(s, key, value), other)
                == keyed_lookup(s, other),
{
    lemma_key_position(s, key);
    if key_position(s, key) is None {
        lemma_keyed_upsert(s, key, value);
        assert(keyed_insert_absent(s, key, value) == keyed_upsert(s, key, value));
    }
}

/// The view of an entry with a string key.
pub open spec fn entry_view<V: View>(e: (String, V)) -> (Seq<char>, V::V) {
    (e.0@, e.1@)
}

/// The views of entries with string keys.
pub open spec fn entries_view<V: View>(v: Seq<(String, V)>) -> Seq<(Seq<char>, V::V)> {
    v.map_values(|e: (String, V)| entry_view(e))
}

/// Finds the position of `key` among entries with string keys.
pub fn find_key<V: View>(v: &Vec<(String, V)>, key: &str) -> (pos: Option<usize>)
    ensures
        match pos {
            Some(p) => key_position(entries_view(v@), key@) == Some(p as int) && p < v@.len(),
            None => key_position(entries_view(v@), key@) is None,
        },
{
    let n = v.len();
    let mut i: usize = 0;
    while i < n
        invariant
            n == v@.len(),
            0 <= i <= n,
            key_position(entries_view(v@), key@) == key_position_from(
                entries_view(v@),
                key@,
                i as int,
            ),
        decreases n - i,
    {
        assert(entries_view(v@)[i as int] == entry_view(v@[i as int]));
        if str_eq(v[i].0.as_str(), key) {
            return Some(i);
        }
        i = i + 1;
    }
    None
}

} // verus!
