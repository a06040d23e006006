use vstd::prelude::*;

verus! {

/// A JSON number, as the logic reads it: as an unsigned integer, as a signed integer
/// (each present only when the number is an integer that fits), and rounded to one
/// decimal place, in tenths.
#[derive(Debug, Clone, Copy, PartialEq, Eq)]
pub struct JsonNumber {
    pub as_u64: Option<u64>,
    pub as_i64: Option<i64>,
    pub rounded_tenths: i64,
}

/// A parsed JSON document. An object's members keep their order; its keys are unique.
#[derive(Debug)]
pub enum JsonValue {
    Null,
    Bool(bool),
    Number(JsonNumber),
    Str(String),
    Array(Vec<JsonValue>),
    Object(Vec<(String, JsonValue)>),
}

/// Index of the first member named `key`, searching from `i`.
pub open spec fn member_index(es: Seq<(String, JsonValue)>, key: Seq<char>, i: int) -> Option<int>
    decreases es.len() - i,
{
    if i < 0 || i >= es.len() {
        None
    } else if es[i].0@ == key {
        Some(i)
    } else {
        member_index(es, key, i + 1)
    }
}

/// The member `key` of an object, if it has one (`Map::get`).
pub open spec fn member(v: JsonValue, key: Seq<char>) -> Option<JsonValue> {
    match v {
        JsonValue::Object(es) => match member_index(es@, key, 0) {
            Some(i) => Some(es@[i].1),
            None => None,
        },
        _ => None,
    }
}

/// `v[key]`: the member `key` of an object, `null` otherwise.
pub open spec fn field(v: JsonValue, key: Seq<char>) -> JsonValue {
    match member(v, key) {
        Some(x) => x,
        None => JsonValue::Null,
    }
}

pub open spec fn as_str(v: JsonValue) -> Option<Seq<char>> {
    match v {
        JsonValue::Str(s) => Some(s@),
        _ => None,
    }
}

pub open spec fn as_u64(v: JsonValue) -> Option<u64> {
    match v {
        JsonValue::Number(n) => n.as_u64,
        _ => None,
    }
}

pub open spec fn as_i64(v: JsonValue) -> Option<i64> {
    match v {
        JsonValue::Number(n) => n.as_i64,
        _ => None,
    }
}

/// A number rounded to one decimal place, in tenths.
pub open spec fn as_tenths(v: JsonValue) -> Option<i64> {
    match v {
        JsonValue::Number(n) => Some(n.rounded_tenths),
        _ => None,
    }
}

pub open spec fn as_array(v: JsonValue) -> Option<Seq<JsonValue>> {
    match v {
        JsonValue::Array(a) => Some(a@),
        _ => None,
    }
}

pub open spec fn is_object(v: JsonValue) -> bool {
    v is Object
}

pub proof fn lemma_member_index(es: Seq<(String, JsonValue)>, key: Seq<char>, i: int)
    ensures
        member_index(es, key, i) matches Some(j) ==> 0 <= j < es.len() && es[j].0@ == key,
    decreases es.len() - i,
{
    if 0 <= i < es.len() && es[i].0@ != key {
        lemma_member_index(es, key, i + 1);
    }
}

/// The member `key` of an object, if it has one.
pub fn get_member<'a>(v: &'a JsonValue, key: &str) -> (r: Option<&'a JsonValue>)
    ensures
        match r {
            Some(x) => member(*v, key@) == Some(*x),
            None => member(*v, key@) is None,
        },
{
    match v {
        JsonValue::Object(es) => {
            let k = key.to_owned();
            let mut i: usize = 0;
            while i < es.len()
                invariant
                    i <= es@.len(),
                    k@ == key@,
                    member(*v, key@) == (match member_index(es@, key@, 0) {
                        Some(j) => Some(es@[j].1),
                        None => None,
                    }),
                    member_index(es@, key@, 0) == member_index(es@, key@, i as int),
                decreases es@.len() - i,
            {
                if es[i].0 == k {
                    return Some(&es[i].1);
                }
                i = i + 1;
            }
            None
        },
        _ => None,
    }
}


/// The value an optional reference stands for: `null` when there is none.
pub open spec fn opt_json(v: Option<&JsonValue>) -> JsonValue {
    match v {
        Some(x) => *x,
        None => JsonValue::Null,
    }
}

/// `v[key]`, with `null` represented by `None`.
pub fn fld<'a>(v: Option<&'a JsonValue>, key: &str) -> (r: Option<&'a JsonValue>)
    ensures
        opt_json(r) == field(opt_json(v), key@),
{
    match v {
        Some(x) => get_member(x, key),
        None => None,
    }
}

/// `v.as_str()`.
pub fn str_val(v: Option<&JsonValue>) -> (r: Option<String>)
    ensures
        match r {
            Some(s) => as_str(opt_json(v)) == Some(s@),
            None => as_str(opt_json(v)) is None,
        },
{
    match v {
        Some(JsonValue::Str(s)) => Some(s.clone()),
        _ => None,
    }
}

/// `v.as_u64()`.
pub fn u64_val(v: Option<&JsonValue>) -> (r: Option<u64>)
    ensures
        r == as_u64(opt_json(v)),
{
    match v {
        Some(JsonValue::Number(n)) => n.as_u64,
        _ => None,
    }
}

/// `v.as_i64()`.
pub fn i64_val(v: Option<&JsonValue>) -> (r: Option<i64>)
    ensures
        r == as_i64(opt_json(v)),
{
    match v {
        Some(JsonValue::Number(n)) => n.as_i64,
        _ => None,
    }
}

/// The number rounded to one decimal place, in tenths.
pub fn tenths_val(v: Option<&JsonValue>) -> (r: Option<i64>)
    ensures
        r == as_tenths(opt_json(v)),
{
    match v {
        Some(JsonValue::Number(n)) => Some(n.rounded_tenths),
        _ => None,
    }
}

/// `v.as_array()`.
pub fn arr_val<'a>(v: Option<&'a JsonValue>) -> (r: Option<&'a Vec<JsonValue>>)
    ensures
        match r {
            Some(a) => as_array(opt_json(v)) == Some(a@),
            None => as_array(opt_json(v)) is None,
        },
{
    match v {
        Some(JsonValue::Array(a)) => Some(a),
        _ => None,
    }
}

} // verus!
