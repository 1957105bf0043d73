use vstd::prelude::*;

use crate::text::str_eq;

verus! {

/// A JSON value, as packets carry it in their bodies.
pub enum JsonValue {
    Null,
    Bool(bool),
    /// A number that is an integer in the range of `i64`.
    Int(i64),
    /// A number that is an integer in the range of `u64`.
    UInt(u64),
    /// Any other number, kept as the decimal text it was written with.
    Float(String),
    Str(String),
    Array(Vec<JsonValue>),
    /// An object's members, in order; no key occurs twice.
    Object(Vec<(String, JsonValue)>),
}

/// The value of the first member named `key` among `entries`, from `i` on.
pub open spec fn member_from(entries: Seq<(String, JsonValue)>, key: Seq<char>, i: int) -> Option<
    JsonValue,
>
    decreases entries.len() - i,
{
    if i < 0 || i >= entries.len() {
        None
    } else if entries[i].0@ == key {
        Some(entries[i].1)
    } else {
        member_from(entries, key, i + 1)
    }
}

/// No key names two members.
pub open spec fn keys_distinct(entries: Seq<(String, JsonValue)>) -> bool {
    forall|i: int, j: int|
        0 <= i < entries.len() && 0 <= j < entries.len() && i != j ==> (#[trigger] entries[i]).0@
            != (#[trigger] entries[j]).0@
}

proof fn lemma_member_from(entries: Seq<(String, JsonValue)>, key: Seq<char>, i: int)
    requires
        0 <= i <= entries.len(),
    ensures
        member_from(entries, key, i) is None <==> forall|k: int|
            i <= k < entries.len() ==> (#[trigger] entries[k]).0@ != key,
        member_from(entries, key, i) matches Some(v) ==> exists|k: int|
            i <= k < entries.len() && (#[trigger] entries[k]).0@ == key && entries[k].1 == v,
    decreases entries.len() - i,
{
    if i < entries.len() {
        lemma_member_from(entries, key, i + 1);
    }
}

/// In an object whose keys are distinct, the member named `key` is the
/// value that stands under that key, wherever it stands; there is none
/// when no member has that key.
pub proof fn lemma_member_by_key(entries: Seq<(String, JsonValue)>, key: Seq<char>)
    requires
        keys_distinct(entries),
    ensures
        forall|k: int|
            0 <= k < entries.len() && (#[trigger] entries[k]).0@ == key ==> member_from(
                entries,
                key,
                0,
            ) == Some(entries[k].1),
        (forall|k: int| 0 <= k < entries.len() ==> (#[trigger] entries[k]).0@ != key)
            ==> member_from(entries, key, 0) is None,
{
    lemma_member_from(entries, key, 0);
    assert forall|k: int|
        0 <= k < entries.len() && (#[trigger] entries[k]).0@ == key implies member_from(
            entries,
            key,
            0,
        ) == Some(entries[k].1) by {
        if let Some(v) = member_from(entries, key, 0) {
            let w = choose|w: int|
                0 <= w < entries.len() && (#[trigger] entries[w]).0@ == key && entries[w].1 == v;
            if w != k {
                assert(entries[w].0@ != entries[k].0@);
            }
        }
    }
}

/// The member `key` of an object; nothing for any other value.
pub open spec fn spec_get(v: JsonValue, key: Seq<char>) -> Option<JsonValue> {
    match v {
        JsonValue::Object(entries) => member_from(entries@, key, 0),
        _ => None,
    }
}

/// The value as an `i64`, when it is an integer in that range.
pub open spec fn spec_as_i64(v: JsonValue) -> Option<i64> {
    match v {
        JsonValue::Int(n) => Some(n),
        JsonValue::UInt(n) => if n <= i64::MAX {
            Some(n as i64)
        } else {
            None
        },
        _ => None,
    }
}

/// The value as a `bool`, when it is one.
pub open spec fn spec_as_bool(v: JsonValue) -> Option<bool> {
    match v {
        JsonValue::Bool(b) => Some(b),
        _ => None,
    }
}

/// The value is `{}`.
pub open spec fn is_empty_object(v: JsonValue) -> bool {
    v matches JsonValue::Object(entries) && entries@.len() == 0
}

/// The empty object `{}`.
pub fn empty_object() -> (v: JsonValue)
    ensures
        is_empty_object(v),
{
    JsonValue::Object(Vec::new())
}

/// The member `key` of an object value.
pub fn get<'a>(v: &'a JsonValue, key: &str) -> (member: Option<&'a JsonValue>)
    ensures
        match member {
            Some(m) => spec_get(*v, key@) == Some(*m),
            None => spec_get(*v, key@) is None,
        },
{
    match v {
        JsonValue::Object(entries) => {
            assert(spec_get(*v, key@) == member_from(entries@, key@, 0));
            let n = entries.len();
            let mut i: usize = 0;
            while i < n
                invariant
                    n == entries@.len(),
                    0 <= i <= n,
                    spec_get(*v, key@) == member_from(entries@, key@, 0),
                    member_from(entries@, key@, 0) == member_from(entries@, key@, i as int),
                decreases n - i,
            {
                if str_eq(entries[i].0.as_str(), key) {
                    let member = &entries[i].1;
                    assert(member_from(entries@, key@, i as int) == Some(entries@[i as int].1));
                    assert(*member == entries@[i as int].1);
                    return Some(member);
                }
                i = i + 1;
            }
            None
        },
        _ => None,
    }
}

/// The value as an `i64`, when it is an integer in that range.
pub fn as_i64(v: &JsonValue) -> (n: Option<i64>)
    ensures
        n == spec_as_i64(*v),
{
    match v {
        JsonValue::Int(n) => Some(*n),
        JsonValue::UInt(n) => if *n <= 9223372036854775807u64 {
            Some(*n as i64)
        } else {
            None
        },
        _ => None,
    }
}

/// The value as a `bool`, when it is one.
pub fn as_bool(v: &JsonValue) -> (b: Option<bool>)
    ensures
        b == spec_as_bool(*v),
{
    match v {
        JsonValue::Bool(b) => Some(*b),
        _ => None,
    }
}

} // verus!
