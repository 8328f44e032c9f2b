//! The JSON values that the protocol carries, as plain data.

use vstd::prelude::*;

verus! {

/// A JSON number as the protocol reads it: its value as an unsigned integer,
/// where it is one, and its value as a length in app units (1/60 of a pixel).
#[derive(Clone, Copy, Debug, PartialEq, Eq, Structural)]
pub struct Number {
    pub unsigned: Option<u64>,
    pub app_units: i32,
}

/// A JSON value. An object keeps its members in order; a lookup by name
/// finds the first member of that name.
#[derive(Debug)]
pub enum Json {
    Null,
    Bool(bool),
    Number(Number),
    Str(String),
    Array(Vec<Json>),
    Object(Vec<(String, Json)>),
}

/// The value of the first member of `fields` named `key`.
pub open spec fn field_of(fields: Seq<(String, Json)>, key: Seq<char>) -> Option<Json>
    decreases fields.len(),
{
    if fields.len() == 0 {
        None
    } else if fields[0].0@ == key {
        Some(fields[0].1)
    } else {
        field_of(fields.drop_first(), key)
    }
}

/// The member `key` of an object; `None` for anything else.
pub open spec fn field(j: Json, key: Seq<char>) -> Option<Json> {
    match j {
        Json::Object(fields) => field_of(fields@, key),
        _ => None,
    }
}

/// A number that is an unsigned integer.
pub open spec fn as_u64(j: Json) -> Option<u64> {
    match j {
        Json::Number(n) => n.unsigned,
        _ => None,
    }
}

/// A number read as a length in app units.
pub open spec fn as_app_units(j: Json) -> Option<i32> {
    match j {
        Json::Number(n) => Some(n.app_units),
        _ => None,
    }
}

/// A string's characters.
pub open spec fn as_str(j: Json) -> Option<Seq<char>> {
    match j {
        Json::Str(s) => Some(s@),
        _ => None,
    }
}

/// Index of the first member of `fields` named `key`.
pub fn find_field(fields: &Vec<(String, Json)>, key: &str) -> (r: Option<usize>)
    ensures
        match r {
            Some(i) => i < fields@.len() && fields@[i as int].0@ == key@
                && field_of(fields@, key@) == Some(fields@[i as int].1),
            None => field_of(fields@, key@) is None,
        },
{
    let name = key.to_owned();
    let mut i: usize = 0;
    assert(fields@.skip(0) =~= fields@);
    while i < fields.len()
        invariant
            i <= fields@.len(),
            name@ == key@,
            field_of(fields@, key@) == field_of(fields@.skip(i as int), key@),
        decreases fields@.len() - i,
    {
        assert(fields@.skip(i as int).drop_first() =~= fields@.skip(i as int + 1));
        if fields[i].0 == name {
            return Some(i);
        }
        i = i + 1;
    }
    None
}

impl Json {
    /// The member `key` of an object.
    pub fn get(&self, key: &str) -> (r: Option<&Json>)
        ensures
            match r {
                Some(v) => field(*self, key@) == Some(*v),
                None => field(*self, key@) is None,
            },
    {
        match self {
            Json::Object(fields) => match find_field(fields, key) {
                Some(i) => Some(&fields[i].1),
                None => None,
            },
            _ => None,
        }
    }

    /// The value as an unsigned integer.
    pub fn as_u64(&self) -> (r: Option<u64>)
        ensures
            r == as_u64(*self),
    {
        match self {
            Json::Number(n) => n.unsigned,
            _ => None,
        }
    }

    /// The value as a length in app units.
    pub fn as_app_units(&self) -> (r: Option<i32>)
        ensures
            r == as_app_units(*self),
    {
        match self {
            Json::Number(n) => Some(n.app_units),
            _ => None,
        }
    }

    /// The value as a string.
    pub fn as_str(&self) -> (r: Option<&String>)
        ensures
            match r {
                Some(s) => as_str(*self) == Some(s@),
                None => as_str(*self) is None,
            },
    {
        match self {
            Json::Str(s) => Some(s),
            _ => None,
        }
    }
}

} // verus!
