use vstd::prelude::*;

verus! {

/// A JSON number as the CLI meets it: a non-negative integer, a negative
/// integer, or any other number, kept in the decimal notation it was read in.
#[derive(Debug)]
pub enum JsonNumber {
    PosInt(u64),
    NegInt(i64),
    Float(String),
}

/// A JSON document. An object is the list of its members in insertion order;
/// when a key occurs more than once the last member wins, as it does when the
/// members are collected into a map.
#[derive(Debug)]
pub enum Json {
    Null,
    Bool(bool),
    Number(JsonNumber),
    String(String),
    Array(Vec<Json>),
    Object(Vec<(String, Json)>),
}

/// The value bound to `key` among object members: the last member with that key.
pub open spec fn obj_lookup(entries: Seq<(String, Json)>, key: Seq<char>) -> Option<Json>
    decreases entries.len(),
{
    if entries.len() == 0 {
        None
    } else if entries.last().0@ == key {
        Some(entries.last().1)
    } else {
        obj_lookup(entries.drop_last(), key)
    }
}

/// `Value::get` on an object; `None` on every other kind of value.
pub open spec fn json_get(v: Json, key: Seq<char>) -> Option<Json> {
    match v {
        Json::Object(entries) => obj_lookup(entries@, key),
        _ => None,
    }
}

/// `Value::as_u64`: the value of a non-negative integer.
pub open spec fn json_as_u64(v: Json) -> Option<u64> {
    match v {
        Json::Number(JsonNumber::PosInt(n)) => Some(n),
        _ => None,
    }
}

/// `Value::as_str`: the text of a string.
pub open spec fn json_as_str(v: Json) -> Option<Seq<char>> {
    match v {
        Json::String(s) => Some(s@),
        _ => None,
    }
}

/// Equality of two string slices (`<str as PartialEq>::eq`).
#[verifier::external_body]
pub fn str_eq(a: &str, b: &str) -> (r: bool)
    ensures
        r == (a@ == b@),
{
    a == b
}

/// The position of the member that binds `key` (the last member with that key).
pub fn find_member(entries: &Vec<(String, Json)>, key: &str) -> (r: Option<usize>)
    ensures
        match r {
            Some(i) => i < entries@.len() && obj_lookup(entries@, key@) == Some(entries@[i as int].1),
            None => obj_lookup(entries@, key@) is None,
        },
{
    let mut i = entries.len();
    assert(entries@.subrange(0, i as int) =~= entries@);
    while i > 0
        invariant
            i <= entries.len(),
            obj_lookup(entries@, key@) == obj_lookup(entries@.subrange(0, i as int), key@),
        decreases i,
    {
        let ghost prefix = entries@.subrange(0, i as int);
        assert(prefix.drop_last() =~= entries@.subrange(0, i - 1));
        assert(prefix.last() == entries@[i - 1]);
        i = i - 1;
        if str_eq(entries[i].0.as_str(), key) {
            return Some(i);
        }
    }
    None
}

/// The member value bound to `key` (the last member with that key).
pub fn lookup<'a>(entries: &'a Vec<(String, Json)>, key: &str) -> (r: Option<&'a Json>)
    ensures
        match r {
            Some(v) => obj_lookup(entries@, key@) == Some(*v),
            None => obj_lookup(entries@, key@) is None,
        },
{
    match find_member(entries, key) {
        Some(i) => Some(&entries[i].1),
        None => None,
    }
}

impl Json {
    /// `Value::get`: the member `key` of an object, `None` for other values.
    pub fn get(&self, key: &str) -> (r: Option<&Json>)
        ensures
            match r {
                Some(v) => json_get(*self, key@) == Some(*v),
                None => json_get(*self, key@) is None,
            },
    {
        match self {
            Json::Object(entries) => lookup(entries, key),
            _ => None,
        }
    }

    /// `Value::as_u64`.
    pub fn as_u64(&self) -> (r: Option<u64>)
        ensures
            r == json_as_u64(*self),
    {
        match self {
            Json::Number(JsonNumber::PosInt(n)) => Some(*n),
            _ => None,
        }
    }

    /// `Value::as_str`.
    pub fn as_str(&self) -> (r: Option<&str>)
        ensures
            match r {
                Some(s) => json_as_str(*self) == Some(s@),
                None => json_as_str(*self) is None,
            },
    {
        match self {
            Json::String(s) => Some(s.as_str()),
            _ => None,
        }
    }
}

} // verus!
