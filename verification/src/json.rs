//! JSON values as plain data, with the lookups the tools make on them.
use vstd::prelude::*;

use crate::text::{owned, str_eq};

verus! {

/// A JSON value; a number is kept as its JSON text, and an object as its
/// fields in order.
pub enum JsonValue {
    Null,
    Bool(bool),
    Number(String),
    Str(String),
    Array(Vec<JsonValue>),
    Object(Vec<(String, JsonValue)>),
}

/// The value of the first field named `key`.
pub open spec fn field_lookup(fields: Seq<(String, JsonValue)>, key: Seq<char>) -> Option<JsonValue>
    decreases fields.len(),
{
    if fields.len() == 0 {
        None
    } else if fields[0].0@ == key {
        Some(fields[0].1)
    } else {
        field_lookup(fields.drop_first(), key)
    }
}

/// The value of an object's field (`Value::get` with a key); none for
/// anything but an object.
pub open spec fn json_get(v: JsonValue, key: Seq<char>) -> Option<JsonValue> {
    match v {
        JsonValue::Object(fields) => field_lookup(fields@, key),
        _ => None,
    }
}

/// The value of an object's field, or null (`value[key]`).
pub open spec fn json_index(v: JsonValue, key: Seq<char>) -> JsonValue {
    match json_get(v, key) {
        Some(x) => x,
        None => JsonValue::Null,
    }
}

/// The text of a string value.
pub open spec fn json_str(v: Option<JsonValue>) -> Option<Seq<char>> {
    match v {
        Some(JsonValue::Str(s)) => Some(s@),
        _ => None,
    }
}

/// The truth of a boolean value.
pub open spec fn json_bool(v: Option<JsonValue>) -> Option<bool> {
    match v {
        Some(JsonValue::Bool(b)) => Some(b),
        _ => None,
    }
}

/// The items of an array value.
pub open spec fn json_items(v: Option<JsonValue>) -> Option<Seq<JsonValue>> {
    match v {
        Some(JsonValue::Array(items)) => Some(items@),
        _ => None,
    }
}

impl JsonValue {
    /// The value of an object's field.
    pub fn get(&self, key: &str) -> (r: Option<&JsonValue>)
        ensures
            match r {
                Some(x) => json_get(*self, key@) == Some(*x),
                None => json_get(*self, key@) is None,
            },
    {
        match self {
            JsonValue::Object(fields) => {
                let mut i: usize = 0;
                assert(fields@.skip(0) =~= fields@);
                assert(json_get(*self, key@) == field_lookup(fields@, key@));
                while i < fields.len()
                    invariant
                        i <= fields.len(),
                        json_get(*self, key@) == field_lookup(fields@, key@),
                        field_lookup(fields@, key@) == field_lookup(fields@.skip(i as int), key@),
                    decreases fields.len() - i,
                {
                    assert(fields@.skip(i as int)[0] == fields@[i as int]);
                    assert(fields@.skip(i as int).drop_first() =~= fields@.skip(i + 1));
                    if str_eq(fields[i].0.as_str(), key) {
                        return Some(&fields[i].1);
                    }
                    i = i + 1;
                }
                assert(fields@.skip(i as int) =~= Seq::<(String, JsonValue)>::empty());
                None
            },
            _ => None,
        }
    }

    /// The text of a string value.
    pub fn as_str(&self) -> (r: Option<&str>)
        ensures
            crate::graph::opt_str_view(r) == json_str(Some(*self)),
    {
        match self {
            JsonValue::Str(s) => Some(s.as_str()),
            _ => None,
        }
    }

    /// The truth of a boolean value.
    pub fn as_bool(&self) -> (r: Option<bool>)
        ensures
            r == json_bool(Some(*self)),
    {
        match self {
            JsonValue::Bool(b) => Some(*b),
            _ => None,
        }
    }

    /// The items of an array value.
    pub fn as_array(&self) -> (r: Option<&Vec<JsonValue>>)
        ensures
            match r {
                Some(items) => json_items(Some(*self)) == Some(items@),
                None => json_items(Some(*self)) is None,
            },
    {
        match self {
            JsonValue::Array(items) => Some(items),
            _ => None,
        }
    }
}

/// The field of an optional value.
pub fn get_opt<'a>(v: Option<&'a JsonValue>, key: &str) -> (r: Option<&'a JsonValue>)
    ensures
        match v {
            Some(x) => match r {
                Some(y) => json_get(*x, key@) == Some(*y),
                None => json_get(*x, key@) is None,
            },
            None => r is None,
        },
{
    match v {
        Some(x) => x.get(key),
        None => None,
    }
}

/// A string value.
pub fn json_string(s: &str) -> (r: JsonValue)
    ensures
        r matches JsonValue::Str(t) && t@ == s@,
{
    JsonValue::Str(owned(s))
}

} // verus!
