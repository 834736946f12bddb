//! A YAML document as plain values: the configuration file's edits work on
//! it. Numbers keep their text, since nothing here computes with them.

use vstd::prelude::*;
use crate::json::str_eq;

verus! {

/// A YAML value.
#[derive(Debug)]
pub enum YamlValue {
    Null,
    Bool(bool),
    /// A number, as its text.
    Number(String),
    String(String),
    Sequence(Vec<YamlValue>),
    /// The entries of a mapping, in order.
    Mapping(Vec<(YamlValue, YamlValue)>),
    /// A value with a `!tag`.
    Tagged(String, Box<YamlValue>),
}

/// The value with its tags removed (serde_yaml's `untag`).
pub open spec fn spec_untag(v: YamlValue) -> YamlValue
    decreases v,
{
    match v {
        YamlValue::Tagged(_, inner) => spec_untag(*inner),
        _ => v,
    }
}

/// `v` with the tags `tags` put around it, the first outermost.
pub open spec fn spec_retag(tags: Seq<String>, v: YamlValue) -> YamlValue
    decreases tags.len(),
{
    if tags.len() == 0 {
        v
    } else {
        YamlValue::Tagged(tags[0], Box::new(spec_retag(tags.drop_first(), v)))
    }
}

/// Splits a value into its tags (outermost first) and the untagged value.
pub fn untag(v: YamlValue) -> (r: (Vec<String>, YamlValue))
    ensures
        r.1 == spec_untag(v),
        !(r.1 is Tagged),
        spec_retag(r.0@, r.1) == v,
    decreases v,
{
    match v {
        YamlValue::Tagged(t, inner) => {
            let (rest, core) = untag(*inner);
            let mut tags: Vec<String> = Vec::new();
            tags.push(t);
            let ghost rest_tags = rest@;
            let mut rest = rest;
            tags.append(&mut rest);
            assert(tags@.drop_first() =~= rest_tags);
            (tags, core)
        },
        other => (Vec::new(), other),
    }
}

/// Puts the tags back around a value.
pub fn retag(tags: Vec<String>, v: YamlValue) -> (r: YamlValue)
    ensures
        r == spec_retag(tags@, v),
        !(v is Tagged) ==> spec_untag(r) == v,
    decreases tags@.len(),
{
    if tags.len() == 0 {
        v
    } else {
        let mut tags = tags;
        let first = tags.remove(0);
        let ghost rest = tags@;
        let inner = retag(tags, v);
        YamlValue::Tagged(first, Box::new(inner))
    }
}

/// The key is the string `name`.
pub open spec fn spec_key_is(k: YamlValue, name: Seq<char>) -> bool {
    k matches YamlValue::String(s) && s@ == name
}

/// The position of the first entry whose key is the string `name`.
#[verifier::opaque]
pub open spec fn spec_find_key(m: Seq<(YamlValue, YamlValue)>, name: Seq<char>) -> Option<int> {
    if exists|i: int| 0 <= i < m.len() && spec_key_is(#[trigger] m[i].0, name) {
        Some(
            choose|i: int|
                0 <= i < m.len() && spec_key_is(m[i].0, name) && forall|j: int|
                    0 <= j < i ==> !spec_key_is(#[trigger] m[j].0, name),
        )
    } else {
        None
    }
}

proof fn lemma_find_key_first(m: Seq<(YamlValue, YamlValue)>, name: Seq<char>, i: int)
    requires
        0 <= i < m.len(),
        spec_key_is(m[i].0, name),
        forall|j: int| 0 <= j < i ==> !spec_key_is(#[trigger] m[j].0, name),
    ensures
        spec_find_key(m, name) == Some(i),
{
    reveal(spec_find_key);
    let k = choose|k: int|
        0 <= k < m.len() && spec_key_is(m[k].0, name) && forall|j: int| 0 <= j < k ==> !spec_key_is(#[trigger] m[j].0, name);
    assert(0 <= k < m.len() && spec_key_is(m[k].0, name));
    if k < i {
        assert(!spec_key_is(m[k].0, name));
    }
    if i < k {
        assert(!spec_key_is(m[i].0, name));
    }
}

/// Finds the first entry whose key is the string `name`.
pub fn find_key(m: &Vec<(YamlValue, YamlValue)>, name: &str) -> (r: Option<usize>)
    ensures
        match r {
            Some(i) => i < m@.len() && spec_find_key(m@, name@) == Some(i as int),
            None => spec_find_key(m@, name@) is None,
        },
{
    let mut i: usize = 0;
    while i < m.len()
        invariant
            i <= m@.len(),
            forall|j: int| 0 <= j < i ==> !spec_key_is(#[trigger] m@[j].0, name@),
        decreases m.len() - i,
    {
        let hit = match &m[i].0 {
            YamlValue::String(s) => str_eq(s.as_str(), name),
            _ => false,
        };
        if hit {
            proof {
                lemma_find_key_first(m@, name@, i as int);
            }
            return Some(i);
        }
        i = i + 1;
    }
    proof {
        reveal(spec_find_key);
    }
    None
}

/// The value stored under the string key `name` (serde_yaml's `get` with a
/// string index): a mapping, once untagged, looked up by that key.
pub open spec fn spec_get(v: YamlValue, name: Seq<char>) -> Option<YamlValue> {
    match spec_untag(v) {
        YamlValue::Mapping(m) => match spec_find_key(m@, name) {
            Some(i) => Some(m@[i].1),
            None => None,
        },
        _ => None,
    }
}

/// The text of a string value, once untagged (serde_yaml's `as_str`).
pub open spec fn spec_as_str(v: YamlValue) -> Option<Seq<char>> {
    match spec_untag(v) {
        YamlValue::String(s) => Some(s@),
        _ => None,
    }
}

pub fn untag_ref(v: &YamlValue) -> (r: &YamlValue)
    ensures
        *r == spec_untag(*v),
    decreases *v,
{
    match v {
        YamlValue::Tagged(_, inner) => untag_ref(inner),
        _ => v,
    }
}

/// The value stored under the string key `name`.
pub fn get<'a>(v: &'a YamlValue, name: &str) -> (r: Option<&'a YamlValue>)
    ensures
        match r {
            Some(x) => spec_get(*v, name@) == Some(*x),
            None => spec_get(*v, name@) is None,
        },
{
    match untag_ref(v) {
        YamlValue::Mapping(m) => match find_key(m, name) {
            Some(i) => Some(&m[i].1),
            None => None,
        },
        _ => None,
    }
}

/// The text of a string value.
pub fn as_str(v: &YamlValue) -> (r: Option<&str>)
    ensures
        match r {
            Some(s) => spec_as_str(*v) == Some(s@),
            None => spec_as_str(*v) is None,
        },
{
    match untag_ref(v) {
        YamlValue::String(s) => Some(s.as_str()),
        _ => None,
    }
}

} // verus!
