//! A plain JSON document model. The host application hands the sources their
//! API responses (and their filter values) as such trees; every rule the
//! sources apply to a response is stated over this model.

use vstd::prelude::*;
use crate::text::str_eq;

verus! {

/// A JSON value. Numbers with a fractional part are kept only as `Other`: none
/// of the rules here reads one.
pub enum JsonValue {
    Null,
    Bool(bool),
    Int(i64),
    Str(String),
    Array(Vec<JsonValue>),
    Object(Vec<JsonField>),
    Other,
}

/// One member of a JSON object.
pub struct JsonField {
    pub key: String,
    pub value: JsonValue,
}

/// The value of the first member of `fields` whose key is `key`, searching from `i`.
pub open spec fn field_from(fields: Seq<JsonField>, key: Seq<char>, i: int) -> Option<JsonValue>
    decreases fields.len() - i,
{
    if i < 0 || i >= fields.len() {
        None
    } else if fields[i].key@ == key {
        Some(fields[i].value)
    } else {
        field_from(fields, key, i + 1)
    }
}

/// The member `key` of `v`, when `v` is an object that has one.
pub open spec fn lookup(v: JsonValue, key: Seq<char>) -> Option<JsonValue> {
    match v {
        JsonValue::Object(fields) => field_from(fields@, key, 0),
        _ => None,
    }
}

/// The member `key` of `v`, or `Null` when there is none.
pub open spec fn get(v: JsonValue, key: Seq<char>) -> JsonValue {
    match lookup(v, key) {
        Some(x) => x,
        None => JsonValue::Null,
    }
}

/// The text of a string value.
pub open spec fn str_of(v: JsonValue) -> Option<Seq<char>> {
    match v {
        JsonValue::Str(s) => Some(s@),
        _ => None,
    }
}

/// The value of an integer.
pub open spec fn int_of(v: JsonValue) -> Option<i64> {
    match v {
        JsonValue::Int(i) => Some(i),
        _ => None,
    }
}

/// The value of a boolean.
pub open spec fn bool_of(v: JsonValue) -> Option<bool> {
    match v {
        JsonValue::Bool(b) => Some(b),
        _ => None,
    }
}

/// The elements of an array.
pub open spec fn array_of(v: JsonValue) -> Option<Seq<JsonValue>> {
    match v {
        JsonValue::Array(a) => Some(a@),
        _ => None,
    }
}

/// The members of an object.
pub open spec fn object_of(v: JsonValue) -> Option<Seq<JsonField>> {
    match v {
        JsonValue::Object(fields) => Some(fields@),
        _ => None,
    }
}

/// The text of the string member `key` of `v`.
pub open spec fn str_member(v: JsonValue, key: Seq<char>) -> Option<Seq<char>> {
    match lookup(v, key) {
        Some(x) => str_of(x),
        None => None,
    }
}

/// The value of the first member of an object, in document order.
pub open spec fn first_value(v: JsonValue) -> Option<JsonValue> {
    match v {
        JsonValue::Object(fields) => if fields@.len() > 0 {
            Some(fields@[0].value)
        } else {
            None
        },
        _ => None,
    }
}

impl JsonValue {
    /// The member `key` of this value, when it is an object that has one.
    pub fn member(&self, key: &str) -> (r: Option<&JsonValue>)
        ensures
            r matches Some(x) ==> lookup(*self, key@) == Some(*x),
            r is None ==> lookup(*self, key@) is None,
    {
        match self {
            JsonValue::Object(fields) => {
                let mut i: usize = 0;
                while i < fields.len()
                    invariant
                        i <= fields@.len(),
                        *self == JsonValue::Object(*fields),
                        field_from(fields@, key@, 0) == field_from(fields@, key@, i as int),
                    decreases fields.len() - i,
                {
                    if str_eq(fields[i].key.as_str(), key) {
                        return Some(&fields[i].value);
                    }
                    i = i + 1;
                }
                None
            },
            _ => None,
        }
    }

    /// The text of this value, when it is a string.
    pub fn as_string(&self) -> (r: Option<String>)
        ensures
            r matches Some(s) ==> str_of(*self) == Some(s@),
            r is None ==> str_of(*self) is None,
    {
        match self {
            JsonValue::Str(s) => Some(s.clone()),
            _ => None,
        }
    }

    /// The value of this integer.
    pub fn as_int(&self) -> (r: Option<i64>)
        ensures
            r == int_of(*self),
    {
        match self {
            JsonValue::Int(i) => Some(*i),
            _ => None,
        }
    }

    /// The value of this boolean.
    pub fn as_bool(&self) -> (r: Option<bool>)
        ensures
            r == bool_of(*self),
    {
        match self {
            JsonValue::Bool(b) => Some(*b),
            _ => None,
        }
    }

    /// The elements of this array.
    pub fn as_array(&self) -> (r: Option<&Vec<JsonValue>>)
        ensures
            r matches Some(a) ==> array_of(*self) == Some(a@),
            r is None ==> array_of(*self) is None,
    {
        match self {
            JsonValue::Array(a) => Some(a),
            _ => None,
        }
    }

    /// Whether this value is an object.
    pub fn is_object(&self) -> (r: bool)
        ensures
            r == (object_of(*self) is Some),
    {
        match self {
            JsonValue::Object(_) => true,
            _ => false,
        }
    }

    /// The value of the first member of this object.
    pub fn first_member_value(&self) -> (r: Option<&JsonValue>)
        ensures
            r matches Some(x) ==> first_value(*self) == Some(*x),
            r is None ==> first_value(*self) is None,
    {
        match self {
            JsonValue::Object(fields) => if fields.len() > 0 {
                Some(&fields[0].value)
            } else {
                None
            },
            _ => None,
        }
    }

    /// The text of the string member `key`.
    pub fn string_member(&self, key: &str) -> (r: Option<String>)
        ensures
            r matches Some(s) ==> str_member(*self, key@) == Some(s@),
            r is None ==> str_member(*self, key@) is None,
    {
        match self.member(key) {
            Some(x) => x.as_string(),
            None => None,
        }
    }
}

} // verus!
