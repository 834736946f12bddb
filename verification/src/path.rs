//! Dot paths such as `.cost`, `.nested.field` or `.bars[0].label`, as
//! display templates use them to pick a value out of the watch data.

use vstd::prelude::*;
use crate::json::{spec_get, JsonValue};
use crate::scheduler::{parse_u64, spec_parse_u64};
use crate::text::str_chars;

verus! {

/// The position of the first `c` in `s`, if any.
pub open spec fn spec_find(s: Seq<char>, c: char) -> Option<int> {
    if exists|i: int| 0 <= i < s.len() && s[i] == c {
        Some(choose|i: int| 0 <= i < s.len() && s[i] == c && forall|j: int| 0 <= j < i ==> s[j] != c)
    } else {
        None
    }
}

/// What [`spec_find`] gives: the first position holding `c`, or none when
/// `c` does not occur.
pub proof fn lemma_find(s: Seq<char>, c: char)
    ensures
        match spec_find(s, c) {
            Some(k) => 0 <= k < s.len() && s[k] == c && forall|j: int| 0 <= j < k ==> s[j] != c,
            None => forall|j: int| 0 <= j < s.len() ==> s[j] != c,
        },
{
    if exists|i: int| 0 <= i < s.len() && s[i] == c {
        let i = choose|i: int| 0 <= i < s.len() && s[i] == c;
        lemma_first_exists(s, c, i);
    }
}

proof fn lemma_first_exists(s: Seq<char>, c: char, i: int)
    requires
        0 <= i < s.len(),
        s[i] == c,
    ensures
        exists|k: int| 0 <= k < s.len() && s[k] == c && forall|j: int| 0 <= j < k ==> s[j] != c,
    decreases i,
{
    if exists|j: int| 0 <= j < i && s[j] == c {
        let j = choose|j: int| 0 <= j < i && s[j] == c;
        lemma_first_exists(s, c, j);
    } else {
        assert(forall|j: int| 0 <= j < i ==> s[j] != c);
    }
}

/// `usize::from_str`.
pub open spec fn spec_parse_usize(s: Seq<char>) -> Option<usize> {
    match spec_parse_u64(s) {
        Some(n) => if n <= usize::MAX {
            Some(n as usize)
        } else {
            None
        },
        None => None,
    }
}

/// The element at `i` of an array; nothing for other values.
pub open spec fn spec_index(v: JsonValue, i: usize) -> Option<JsonValue> {
    match v {
        JsonValue::Array(a) => if i < a@.len() {
            Some(a@[i as int])
        } else {
            None
        },
        _ => None,
    }
}

/// How walking a path ends: at a value, at a missing step, or at a bracket
/// pair written `]` before `[`, where the text cannot be sliced.
pub enum PathWalk {
    Found(JsonValue),
    NotFound,
    Malformed,
}

/// Applies the `[N]` steps in `rest` to `cur`.
pub open spec fn spec_brackets(rest: Seq<char>, cur: JsonValue) -> PathWalk
    decreases rest.len(),
{
    proof {
        lemma_find(rest, ']');
    }
    match spec_find(rest, '[') {
        None => PathWalk::Found(cur),
        Some(st) => match spec_find(rest, ']') {
            None => PathWalk::NotFound,
            Some(en) => if en < st {
                PathWalk::Malformed
            } else {
                match spec_parse_usize(rest.subrange(st + 1, en)) {
                    None => PathWalk::NotFound,
                    Some(i) => match spec_index(cur, i) {
                        None => PathWalk::NotFound,
                        Some(v) => spec_brackets(rest.subrange(en + 1, rest.len() as int), v),
                    },
                }
            },
        },
    }
}

/// Applies one dot-separated segment (`key`, `key[0]`, `[0][1]`) to `cur`.
pub open spec fn spec_segment(seg: Seq<char>, cur: JsonValue) -> PathWalk {
    if seg.len() == 0 {
        PathWalk::Found(cur)
    } else {
        match spec_find(seg, '[') {
            None => match spec_get(cur, seg) {
                Some(v) => PathWalk::Found(v),
                None => PathWalk::NotFound,
            },
            Some(bp) => {
                let key = seg.take(bp);
                let start = if key.len() > 0 {
                    spec_get(cur, key)
                } else {
                    Some(cur)
                };
                match start {
                    None => PathWalk::NotFound,
                    Some(v) => spec_brackets(seg.skip(bp), v),
                }
            },
        }
    }
}

/// Applies the dot-separated segments of `s` in turn, skipping empty ones.
pub open spec fn spec_walk(s: Seq<char>, cur: JsonValue) -> PathWalk
    decreases s.len(),
{
    if s.len() == 0 {
        PathWalk::Found(cur)
    } else {
        proof {
            lemma_find(s, '.');
        }
        match spec_find(s, '.') {
            None => spec_segment(s, cur),
            Some(k) => match spec_segment(s.take(k), cur) {
                PathWalk::Found(v) => spec_walk(s.skip(k + 1), v),
                other => other,
            },
        }
    }
}

/// Walks `path` (with or without its leading dot) inside `data`.
pub open spec fn spec_value_at_path(path: Seq<char>, data: JsonValue) -> PathWalk {
    let stripped = if path.len() > 0 && path[0] == '.' {
        path.drop_first()
    } else {
        path
    };
    spec_walk(stripped, data)
}

proof fn lemma_find_is_first(s: Seq<char>, c: char, i: int)
    requires
        0 <= i < s.len(),
        s[i] == c,
        forall|j: int| 0 <= j < i ==> s[j] != c,
    ensures
        spec_find(s, c) == Some(i),
{
    let k = choose|k: int| 0 <= k < s.len() && s[k] == c && forall|j: int| 0 <= j < k ==> s[j] != c;
    assert(0 <= k < s.len() && s[k] == c && forall|j: int| 0 <= j < k ==> s[j] != c);
    if k < i {
        assert(s[k] != c);
    }
    if i < k {
        assert(s[i] != c);
    }
}

fn find_char(cs: &Vec<char>, c: char) -> (r: Option<usize>)
    ensures
        match r {
            Some(i) => i < cs@.len() && spec_find(cs@, c) == Some(i as int),
            None => spec_find(cs@, c) is None,
        },
{
    let mut i: usize = 0;
    while i < cs.len()
        invariant
            i <= cs@.len(),
            forall|j: int| 0 <= j < i ==> cs@[j] != c,
        decreases cs.len() - i,
    {
        if cs[i] == c {
            proof {
                lemma_find_is_first(cs@, c, i as int);
            }
            return Some(i);
        }
        i = i + 1;
    }
    None
}

fn slice_chars(cs: &Vec<char>, start: usize, end: usize) -> (r: Vec<char>)
    requires
        start <= end <= cs@.len(),
    ensures
        r@ == cs@.subrange(start as int, end as int),
{
    let mut out: Vec<char> = Vec::new();
    let mut k: usize = start;
    while k < end
        invariant
            start <= k <= end <= cs@.len(),
            out@ == cs@.subrange(start as int, k as int),
        decreases end - k,
    {
        out.push(cs[k]);
        assert(cs@.subrange(start as int, k + 1) =~= cs@.subrange(start as int, k as int).push(cs@[k as int]));
        k = k + 1;
    }
    out
}

fn index_of_value(v: &JsonValue, i: usize) -> (r: Option<&JsonValue>)
    ensures
        match r {
            Some(x) => spec_index(*v, i) == Some(*x),
            None => spec_index(*v, i) is None,
        },
{
    match v {
        JsonValue::Array(a) => if i < a.len() {
            Some(&a[i])
        } else {
            None
        },
        _ => None,
    }
}

fn collect_key(cs: &Vec<char>) -> (r: String)
    ensures
        r@ == cs@,
{
    crate::text::collect_chars(cs.as_slice())
}

fn brackets<'a>(rest: Vec<char>, cur: &'a JsonValue) -> (r: Option<&'a JsonValue>)
    requires
        !(spec_brackets(rest@, *cur) is Malformed),
    ensures
        match r {
            Some(v) => spec_brackets(rest@, *cur) == PathWalk::Found(*v),
            None => spec_brackets(rest@, *cur) is NotFound,
        },
    decreases rest@.len(),
{
    match find_char(&rest, '[') {
        None => Some(cur),
        Some(st) => match find_char(&rest, ']') {
            None => None,
            Some(en) => {
                proof {
                    lemma_find(rest@, '[');
                    lemma_find(rest@, ']');
                }
                assert(st < en < rest@.len());
                assert(en < rest.len());
                let after: usize = en + 1;
                let digits = slice_chars(&rest, st + 1, en);
                match parse_u64(&digits) {
                    None => None,
                    Some(n) => {
                        if n > usize::MAX as u64 {
                            return None;
                        }
                        match index_of_value(cur, n as usize) {
                            None => None,
                            Some(v) => {
                                let tail = slice_chars(&rest, after, rest.len());
                                brackets(tail, v)
                            },
                        }
                    },
                }
            },
        },
    }
}

fn segment<'a>(seg: Vec<char>, cur: &'a JsonValue) -> (r: Option<&'a JsonValue>)
    requires
        !(spec_segment(seg@, *cur) is Malformed),
    ensures
        match r {
            Some(v) => spec_segment(seg@, *cur) == PathWalk::Found(*v),
            None => spec_segment(seg@, *cur) is NotFound,
        },
{
    if seg.len() == 0 {
        return Some(cur);
    }
    match find_char(&seg, '[') {
        None => {
            let key = collect_key(&seg);
            cur.get(key.as_str())
        },
        Some(bp) => {
            let key_chars = slice_chars(&seg, 0, bp);
            assert(key_chars@ =~= seg@.take(bp as int));
            let start: Option<&'a JsonValue> = if key_chars.len() > 0 {
                let key = collect_key(&key_chars);
                cur.get(key.as_str())
            } else {
                Some(cur)
            };
            match start {
                None => None,
                Some(v) => {
                    let rest = slice_chars(&seg, bp, seg.len());
                    assert(rest@ =~= seg@.skip(bp as int));
                    brackets(rest, v)
                },
            }
        },
    }
}

fn walk<'a>(s: Vec<char>, cur: &'a JsonValue) -> (r: Option<&'a JsonValue>)
    requires
        !(spec_walk(s@, *cur) is Malformed),
    ensures
        match r {
            Some(v) => spec_walk(s@, *cur) == PathWalk::Found(*v),
            None => spec_walk(s@, *cur) is NotFound,
        },
    decreases s@.len(),
{
    if s.len() == 0 {
        return Some(cur);
    }
    match find_char(&s, '.') {
        None => segment(s, cur),
        Some(k) => {
            let seg = slice_chars(&s, 0, k);
            assert(seg@ =~= s@.take(k as int));
            match segment(seg, cur) {
                None => None,
                Some(v) => {
                    let rest = slice_chars(&s, k + 1, s.len());
                    assert(rest@ =~= s@.skip(k + 1));
                    walk(rest, v)
                },
            }
        },
    }
}

/// The path is well formed for `data`: walking it never meets a `]` written
/// before its `[` (a text the walk cannot slice).
pub open spec fn spec_path_well_formed(path: Seq<char>, data: JsonValue) -> bool {
    !(spec_value_at_path(path, data) is Malformed)
}

/// Walks a dot-separated path like `.cost`, `.nested.field`, or
/// `.bars[0].label` inside `data` and returns the value at that path, or
/// `None` if any segment is missing. Array elements are picked with `[N]`.
pub fn json_value_at_path<'a>(path: &str, data: &'a JsonValue) -> (r: Option<&'a JsonValue>)
    requires
        spec_path_well_formed(path@, *data),
    ensures
        match r {
            Some(v) => spec_value_at_path(path@, *data) == PathWalk::Found(*v),
            None => spec_value_at_path(path@, *data) is NotFound,
        },
{
    let cs = str_chars(path);
    let stripped = if cs.len() > 0 && cs[0] == '.' {
        let t = slice_chars(&cs, 1, cs.len());
        assert(t@ =~= cs@.drop_first());
        t
    } else {
        cs
    };
    if stripped.len() == 0 {
        return Some(data);
    }
    walk(stripped, data)
}

/// Whether walking `path` in `data` meets a `]` written before its `[`.
pub fn path_is_malformed(path: &str, data: &JsonValue) -> (r: bool)
    ensures
        r == !spec_path_well_formed(path@, *data),
{
    let cs = str_chars(path);
    let stripped = if cs.len() > 0 && cs[0] == '.' {
        let t = slice_chars(&cs, 1, cs.len());
        assert(t@ =~= cs@.drop_first());
        t
    } else {
        cs
    };
    walk_malformed(stripped, data)
}

fn brackets_malformed(rest: Vec<char>, cur: &JsonValue) -> (r: bool)
    ensures
        r == (spec_brackets(rest@, *cur) is Malformed),
    decreases rest@.len(),
{
    match find_char(&rest, '[') {
        None => false,
        Some(st) => match find_char(&rest, ']') {
            None => false,
            Some(en) => {
                proof {
                    lemma_find(rest@, '[');
                    lemma_find(rest@, ']');
                }
                if en < st {
                    return true;
                }
                assert(st < en < rest@.len());
                assert(en < rest.len());
                let after: usize = en + 1;
                let digits = slice_chars(&rest, st + 1, en);
                match parse_u64(&digits) {
                    None => false,
                    Some(n) => {
                        if n > usize::MAX as u64 {
                            return false;
                        }
                        match index_of_value(cur, n as usize) {
                            None => false,
                            Some(v) => {
                                let tail = slice_chars(&rest, after, rest.len());
                                brackets_malformed(tail, v)
                            },
                        }
                    },
                }
            },
        },
    }
}

fn segment_malformed(seg: Vec<char>, cur: &JsonValue) -> (r: bool)
    ensures
        r == (spec_segment(seg@, *cur) is Malformed),
{
    if seg.len() == 0 {
        return false;
    }
    match find_char(&seg, '[') {
        None => false,
        Some(bp) => {
            let key_chars = slice_chars(&seg, 0, bp);
            assert(key_chars@ =~= seg@.take(bp as int));
            let start: Option<&JsonValue> = if key_chars.len() > 0 {
                let key = collect_key(&key_chars);
                cur.get(key.as_str())
            } else {
                Some(cur)
            };
            match start {
                None => false,
                Some(v) => {
                    let rest = slice_chars(&seg, bp, seg.len());
                    assert(rest@ =~= seg@.skip(bp as int));
                    brackets_malformed(rest, v)
                },
            }
        },
    }
}

fn walk_malformed(s: Vec<char>, cur: &JsonValue) -> (r: bool)
    ensures
        r == (spec_walk(s@, *cur) is Malformed),
    decreases s@.len(),
{
    if s.len() == 0 {
        return false;
    }
    match find_char(&s, '.') {
        None => segment_malformed(s, cur),
        Some(k) => {
            let seg = slice_chars(&s, 0, k);
            assert(seg@ =~= s@.take(k as int));
            if segment_malformed(seg, cur) {
                return true;
            }
            let seg2 = slice_chars(&s, 0, k);
            match segment(seg2, cur) {
                None => false,
                Some(v) => {
                    let rest = slice_chars(&s, k + 1, s.len());
                    assert(rest@ =~= s@.skip(k + 1));
                    walk_malformed(rest, v)
                },
            }
        },
    }
}

} // verus!
