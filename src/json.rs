//! The JSON values that clients send, and lookups in JSON objects.

use vstd::prelude::*;

verus! {

/// A JSON number, held the way JSON parsers hold one: a non-negative integer,
/// a negative integer, or a finite double.
pub enum JsonNumber {
    PosInt(u64),
    NegInt(i64),
    /// A finite double: its IEEE-754 bit pattern, and the shortest decimal text
    /// that JSON writes for it (such as `1.5` or `1e21`).
    Float { bits: u64, text: String },
}

/// A JSON value. An object is a list of members; looking a key up finds the
/// first member with that key.
pub enum JsonValue {
    Null,
    Bool(bool),
    Number(JsonNumber),
    Str(String),
    Array(Vec<JsonValue>),
    Object(Vec<(String, JsonValue)>),
}

/// The value of the first member of `m` at or after position `i` whose key is
/// `key`.
pub open spec fn member_from(m: Seq<(String, JsonValue)>, key: Seq<char>, i: int) -> Option<
    JsonValue,
>
    decreases m.len() - i,
{
    if i < 0 || i >= m.len() {
        None
    } else if m[i].0@ == key {
        Some(m[i].1)
    } else {
        member_from(m, key, i + 1)
    }
}

/// The value that object members `m` give to `key`.
pub open spec fn member(m: Seq<(String, JsonValue)>, key: Seq<char>) -> Option<JsonValue> {
    member_from(m, key, 0)
}

/// The text at `key`, when `m` holds a string there.
pub open spec fn str_member(m: Seq<(String, JsonValue)>, key: Seq<char>) -> Option<Seq<char>> {
    match member(m, key) {
        Some(JsonValue::Str(s)) => Some(s@),
        _ => None,
    }
}

/// The non-negative integer at `key`, when `m` holds one there.
pub open spec fn u64_member(m: Seq<(String, JsonValue)>, key: Seq<char>) -> Option<u64> {
    match member(m, key) {
        Some(JsonValue::Number(JsonNumber::PosInt(n))) => Some(n),
        _ => None,
    }
}

/// The value of member `key` of `m`.
pub fn get_member<'a>(m: &'a Vec<(String, JsonValue)>, key: &String) -> (r: Option<&'a JsonValue>)
    ensures
        match r {
            Some(v) => member(m@, key@) == Some(*v),
            None => member(m@, key@) is None,
        },
{
    let mut i: usize = 0;
    while i < m.len()
        invariant
            i <= m@.len(),
            member(m@, key@) == member_from(m@, key@, i as int),
        decreases m@.len() - i,
    {
        if m[i].0 == *key {
            return Some(&m[i].1);
        }
        i = i + 1;
    }
    None
}

} // verus!
