//! A JSON document model holding what the status logic reads.

use vstd::prelude::*;
use crate::text::{concat3, opt_view, spec_decimal, str_chars, u64_to_decimal};

verus! {

/// A JSON number, kept in the three forms JSON parsers produce: a
/// non-negative integer, a negative integer, or a binary64 floating-point
/// value, held by its IEEE-754 bit pattern together with the text it is
/// written as (the shortest text that reads back as the same value).
#[derive(Debug, Clone, PartialEq)]
pub enum JsonNumber {
    PosInt(u64),
    NegInt(i64),
    Float(u64, String),
}

/// A JSON value. Object members keep their order; a key occurs at most once.
#[derive(Debug, PartialEq)]
pub enum JsonValue {
    Null,
    Bool(bool),
    Number(JsonNumber),
    String(String),
    Array(Vec<JsonValue>),
    Object(Vec<(String, JsonValue)>),
}

/// The value stored under `key` among object members (the first match).
pub open spec fn spec_lookup(fields: Seq<(String, JsonValue)>, key: Seq<char>) -> Option<JsonValue>
    decreases fields.len(),
{
    if fields.len() == 0 {
        None
    } else if fields[0].0@ == key {
        Some(fields[0].1)
    } else {
        spec_lookup(fields.drop_first(), key)
    }
}

/// `value.get(key)`: the member `key` of an object; nothing for other values.
pub open spec fn spec_get(v: JsonValue, key: Seq<char>) -> Option<JsonValue> {
    match v {
        JsonValue::Object(fields) => spec_lookup(fields@, key),
        _ => None,
    }
}

/// The string a value holds, if it is a string.
pub open spec fn spec_as_str(v: Option<JsonValue>) -> Option<Seq<char>> {
    match v {
        Some(JsonValue::String(s)) => Some(s@),
        _ => None,
    }
}

/// The boolean a value holds, if it is a boolean.
pub open spec fn spec_as_bool(v: Option<JsonValue>) -> Option<bool> {
    match v {
        Some(JsonValue::Bool(b)) => Some(b),
        _ => None,
    }
}

/// The elements of a value, if it is an array.
pub open spec fn spec_as_array(v: Option<JsonValue>) -> Option<Seq<JsonValue>> {
    match v {
        Some(JsonValue::Array(a)) => Some(a@),
        _ => None,
    }
}

/// The string member `key` of `v`, if it is present and is a string.
pub open spec fn spec_get_str(v: JsonValue, key: Seq<char>) -> Option<Seq<char>> {
    spec_as_str(spec_get(v, key))
}

/// True when two strings are equal.
pub fn str_eq(a: &str, b: &str) -> (r: bool)
    ensures
        r == (a@ == b@),
{
    let ca = str_chars(a);
    let cb = str_chars(b);
    if ca.len() != cb.len() {
        return false;
    }
    let mut i: usize = 0;
    while i < ca.len()
        invariant
            ca@.len() == cb@.len(),
            i <= ca@.len(),
            ca@ == a@,
            cb@ == b@,
            forall|j: int| 0 <= j < i ==> ca@[j] == cb@[j],
        decreases ca.len() - i,
    {
        if ca[i] != cb[i] {
            return false;
        }
        i = i + 1;
    }
    assert(ca@ =~= cb@);
    true
}

impl JsonValue {
    /// The member `key` of an object; `None` for other values or a missing key.
    pub fn get(&self, key: &str) -> (r: Option<&JsonValue>)
        ensures
            match r {
                Some(x) => spec_get(*self, key@) == Some(*x),
                None => spec_get(*self, key@) is None,
            },
    {
        match self {
            JsonValue::Object(fields) => {
                let mut i: usize = 0;
                assert(fields@.skip(0) =~= fields@);
                while i < fields.len()
                    invariant
                        i <= fields@.len(),
                        spec_get(*self, key@) == spec_lookup(fields@, key@),
                        spec_lookup(fields@, key@) == spec_lookup(fields@.skip(i as int), key@),
                    decreases fields.len() - i,
                {
                    assert(fields@.skip(i as int).drop_first() =~= fields@.skip(i + 1));
                    assert(fields@.skip(i as int)[0] == fields@[i as int]);
                    if str_eq(fields[i].0.as_str(), key) {
                        let x = &fields[i].1;
                        assert(fields@.skip(i as int)[0].0@ == key@);
                        assert(spec_lookup(fields@.skip(i as int), key@) == Some(fields@[i as int].1));
                        return Some(x);
                    }
                    i = i + 1;
                }
                None
            },
            _ => None,
        }
    }

    /// The string this value holds, if it is a string.
    pub fn as_str(&self) -> (r: Option<&str>)
        ensures
            match r {
                Some(s) => spec_as_str(Some(*self)) == Some(s@),
                None => spec_as_str(Some(*self)) is None,
            },
    {
        match self {
            JsonValue::String(s) => Some(s.as_str()),
            _ => None,
        }
    }

    /// The boolean this value holds, if it is a boolean.
    pub fn as_bool(&self) -> (r: Option<bool>)
        ensures
            r == spec_as_bool(Some(*self)),
    {
        match self {
            JsonValue::Bool(b) => Some(*b),
            _ => None,
        }
    }

    /// The elements of this value, if it is an array.
    pub fn as_array(&self) -> (r: Option<&Vec<JsonValue>>)
        ensures
            match r {
                Some(a) => spec_as_array(Some(*self)) == Some(a@),
                None => spec_as_array(Some(*self)) is None,
            },
    {
        match self {
            JsonValue::Array(a) => Some(a),
            _ => None,
        }
    }
}

/// The string member `key` of `v`, if present and a string.
pub fn get_str<'a>(v: &'a JsonValue, key: &str) -> (r: Option<&'a str>)
    ensures
        match r {
            Some(s) => spec_get_str(*v, key@) == Some(s@),
            None => spec_get_str(*v, key@) is None,
        },
{
    match v.get(key) {
        Some(x) => x.as_str(),
        None => None,
    }
}

/// The boolean member `key` of `v`, if present and a boolean.
pub fn get_bool(v: &JsonValue, key: &str) -> (r: Option<bool>)
    ensures
        r == spec_as_bool(spec_get(*v, key@)),
{
    match v.get(key) {
        Some(x) => x.as_bool(),
        None => None,
    }
}

/// A binary64 bit pattern other than positive or negative zero.
pub open spec fn spec_float_nonzero(bits: u64) -> bool {
    bits & 0x7fff_ffff_ffff_ffffu64 != 0
}

/// Truthiness of a value in conditions: `null`, `false`, zero and the empty
/// string are false; everything else, arrays and objects included (even
/// empty ones), is true.
pub open spec fn spec_is_truthy(v: JsonValue) -> bool {
    match v {
        JsonValue::Null => false,
        JsonValue::Bool(b) => b,
        JsonValue::Number(JsonNumber::PosInt(n)) => n != 0,
        JsonValue::Number(JsonNumber::NegInt(n)) => n != 0,
        JsonValue::Number(JsonNumber::Float(bits, _)) => spec_float_nonzero(bits),
        JsonValue::String(s) => s@.len() > 0,
        JsonValue::Array(_) => true,
        JsonValue::Object(_) => true,
    }
}

/// Whether a value counts as true in a condition.
pub fn is_truthy(v: &JsonValue) -> (r: bool)
    ensures
        r == spec_is_truthy(*v),
{
    match v {
        JsonValue::Null => false,
        JsonValue::Bool(b) => *b,
        JsonValue::Number(JsonNumber::PosInt(n)) => *n != 0,
        JsonValue::Number(JsonNumber::NegInt(n)) => *n != 0,
        JsonValue::Number(JsonNumber::Float(bits, _)) => *bits & 0x7fff_ffff_ffff_ffffu64 != 0,
        JsonValue::String(s) => s.as_str().unicode_len() > 0,
        JsonValue::Array(_) => true,
        JsonValue::Object(_) => true,
    }
}

/// The text a number is written as: decimal digits for an integer (with a
/// minus sign when negative), the kept text for a floating-point value.
pub open spec fn spec_number_text(n: JsonNumber) -> Seq<char> {
    match n {
        JsonNumber::PosInt(u) => spec_decimal(u as nat),
        JsonNumber::NegInt(i) => if i < 0 {
            seq!['-'] + spec_decimal((-i) as nat)
        } else {
            spec_decimal(i as nat)
        },
        JsonNumber::Float(_, t) => t@,
    }
}

/// The text of a number (`Number::to_string`).
pub fn number_text(n: &JsonNumber) -> (r: String)
    ensures
        r@ == spec_number_text(*n),
{
    match n {
        JsonNumber::PosInt(u) => u64_to_decimal(*u),
        JsonNumber::NegInt(i) => {
            if *i < 0 {
                let m: u64 = if *i == i64::MIN {
                    9223372036854775808u64
                } else {
                    (-*i) as u64
                };
                let d = u64_to_decimal(m);
                proof {
                    reveal_strlit("-");
                    reveal_strlit("");
                }
                concat3("-", d.as_str(), "")
            } else {
                u64_to_decimal(*i as u64)
            }
        },
        JsonNumber::Float(_, t) => t.clone(),
    }
}

/// The text of a scalar: a string as it is, a number as it is written,
/// `true` or `false`; nothing for null, arrays and objects.
pub open spec fn spec_scalar_text(v: JsonValue) -> Option<Seq<char>> {
    match v {
        JsonValue::String(s) => Some(s@),
        JsonValue::Number(n) => Some(spec_number_text(n)),
        JsonValue::Bool(b) => Some(if b { "true"@ } else { "false"@ }),
        _ => None,
    }
}

/// The text of a scalar value, if it is one.
pub fn scalar_text(v: &JsonValue) -> (r: Option<String>)
    ensures
        opt_view(r) == spec_scalar_text(*v),
{
    match v {
        JsonValue::String(s) => Some(s.clone()),
        JsonValue::Number(n) => Some(number_text(n)),
        JsonValue::Bool(b) => Some(if *b { "true".to_owned() } else { "false".to_owned() }),
        _ => None,
    }
}

} // verus!
