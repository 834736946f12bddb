//! Polling intervals: the `30s` / `5m` / `1h` notation of the configuration.

use vstd::prelude::*;
use crate::text::{
    spec_decimal, spec_digit_char, spec_is_ascii_digit, spec_is_whitespace, spec_trim, spec_trim_end, spec_trim_start,
    str_chars, trim_chars,
};

verus! {

/// The numeric value of a string of decimal digits.
pub open spec fn spec_digits_value(d: Seq<char>) -> nat
    decreases d.len(),
{
    if d.len() == 0 {
        0
    } else {
        spec_digits_value(d.drop_last()) * 10 + (d.last() as nat - '0' as nat) as nat
    }
}

/// A number's text without its optional leading `+`.
pub open spec fn spec_unsigned_body(s: Seq<char>) -> Seq<char> {
    if s.len() > 0 && s[0] == '+' {
        s.drop_first()
    } else {
        s
    }
}

/// Every character of `d` is a decimal digit.
pub open spec fn spec_all_digits(d: Seq<char>) -> bool {
    forall|i: int| 0 <= i < d.len() ==> spec_is_ascii_digit(#[trigger] d[i])
}

/// `u64::from_str`: an optional `+`, then one or more decimal digits whose
/// value fits in 64 bits.
pub open spec fn spec_parse_u64(s: Seq<char>) -> Option<u64> {
    let body = spec_unsigned_body(s);
    if body.len() > 0 && spec_all_digits(body) && spec_digits_value(body) <= u64::MAX {
        Some(spec_digits_value(body) as u64)
    } else {
        None
    }
}

/// The seconds a unit suffix stands for: `s`, `m` or `h`.
pub open spec fn spec_unit_secs(c: char) -> Option<u64> {
    if c == 's' {
        Some(1u64)
    } else if c == 'm' {
        Some(60u64)
    } else if c == 'h' {
        Some(3600u64)
    } else {
        None
    }
}

/// The number and the unit an interval string is made of: after trimming,
/// a unit suffix, and before it a number (itself trimmed).
pub open spec fn spec_interval_parts(s: Seq<char>) -> Option<(u64, u64)> {
    let t = spec_trim(s);
    if t.len() == 0 {
        None
    } else {
        match spec_unit_secs(t.last()) {
            None => None,
            Some(unit) => match spec_parse_u64(spec_trim(t.drop_last())) {
                None => None,
                Some(n) => Some((n, unit)),
            },
        }
    }
}

/// The interval an interval string denotes, in seconds.
pub open spec fn spec_interval_secs(s: Seq<char>) -> Option<nat> {
    match spec_interval_parts(s) {
        None => None,
        Some((n, unit)) => Some((n * unit) as nat),
    }
}

/// The number of an interval string times its unit exceeds 64 bits.
pub open spec fn spec_interval_overflows(s: Seq<char>) -> bool {
    match spec_interval_secs(s) {
        Some(secs) => secs > u64::MAX,
        None => false,
    }
}

/// `std::time::Duration::from_secs`.
pub uninterp spec fn spec_duration_from_secs(secs: u64) -> std::time::Duration;

/// Calls `Duration::from_secs`; the result is the duration of `secs`
/// seconds, named by [`spec_duration_from_secs`].
#[verifier::external_body]
fn duration_from_secs(secs: u64) -> (d: std::time::Duration)
    ensures
        d == spec_duration_from_secs(secs),
{
    std::time::Duration::from_secs(secs)
}

proof fn lemma_digits_value_grows(d: Seq<char>, i: int, j: int)
    requires
        0 <= i <= j <= d.len(),
    ensures
        spec_digits_value(d.take(i)) <= spec_digits_value(d.take(j)),
    decreases j - i,
{
    if i < j {
        lemma_digits_value_grows(d, i, j - 1);
        assert(d.take(j).drop_last() =~= d.take(j - 1));
    }
}

/// Parses a decimal number as `u64::from_str` does.
pub fn parse_u64(cs: &Vec<char>) -> (r: Option<u64>)
    ensures
        r == spec_parse_u64(cs@),
{
    let start: usize = if cs.len() > 0 && cs[0] == '+' {
        1
    } else {
        0
    };
    let ghost body = spec_unsigned_body(cs@);
    assert(body =~= cs@.subrange(start as int, cs@.len() as int));
    if start == cs.len() {
        return None;
    }
    let mut v: u64 = 0;
    let mut i: usize = start;
    while i < cs.len()
        invariant
            start <= i <= cs@.len(),
            body == spec_unsigned_body(cs@),
            body =~= cs@.subrange(start as int, cs@.len() as int),
            forall|k: int| 0 <= k < i - start ==> spec_is_ascii_digit(#[trigger] body[k]),
            v == spec_digits_value(body.take(i - start)),
        decreases cs.len() - i,
    {
        let c = cs[i];
        if !('0' <= c && c <= '9') {
            assert(!spec_is_ascii_digit(body[i - start]));
            return None;
        }
        let d: u64 = (c as u32 - '0' as u32) as u64;
        assert(body.take(i - start + 1).drop_last() =~= body.take(i - start));
        if v > (u64::MAX - d) / 10 {
            proof {
                lemma_digits_value_grows(body, i - start + 1, body.len() as int);
                assert(body.take(body.len() as int) =~= body);
            }
            return None;
        }
        v = v * 10 + d;
        i = i + 1;
    }
    assert(body.take(body.len() as int) =~= body);
    Some(v)
}

/// The number and unit of an interval string, if it is well-formed.
pub fn interval_parts(s: &str) -> (r: Option<(u64, u64)>)
    ensures
        r == spec_interval_parts(s@),
{
    let cs = str_chars(s);
    let t = trim_chars(&cs);
    if t.len() == 0 {
        return None;
    }
    let last = t[t.len() - 1];
    let unit: u64 = if last == 's' {
        1
    } else if last == 'm' {
        60
    } else if last == 'h' {
        3600
    } else {
        return None;
    };
    let mut digits = t;
    digits.pop();
    assert(digits@ =~= spec_trim(s@).drop_last());
    let digits = trim_chars(&digits);
    match parse_u64(&digits) {
        None => None,
        Some(n) => Some((n, unit)),
    }
}

/// True when the number of an interval string times its unit does not fit
/// in 64 bits.
pub fn interval_overflows(s: &str) -> (r: bool)
    ensures
        r == spec_interval_overflows(s@),
{
    match interval_parts(s) {
        None => false,
        Some((n, unit)) => {
            assert(unit > 0);
            assert(n > u64::MAX / unit <==> n * unit > u64::MAX) by (nonlinear_arith)
                requires
                    unit > 0,
            ;
            n > u64::MAX / unit
        },
    }
}

/// The interval a string denotes, in seconds: `30s`, `5m`, `1h`; surrounding
/// whitespace is ignored. `None` for any other form.
pub fn parse_interval_secs(s: &str) -> (r: Option<u64>)
    requires
        !spec_interval_overflows(s@),
    ensures
        match r {
            Some(secs) => spec_interval_secs(s@) == Some(secs as nat),
            None => spec_interval_secs(s@) is None,
        },
{
    match interval_parts(s) {
        None => None,
        Some((n, unit)) => {
            assert(n * unit <= u64::MAX);
            Some(n * unit)
        },
    }
}

/// Parses a human-readable interval string into a duration.
///
/// Supported suffixes:
/// - `s` — seconds (e.g. `"30s"`)
/// - `m` — minutes (e.g. `"5m"`)
/// - `h` — hours (e.g. `"1h"`)
///
/// Returns `None` for unrecognized formats.
pub fn parse_interval(s: &str) -> (r: Option<std::time::Duration>)
    requires
        !spec_interval_overflows(s@),
    ensures
        match r {
            Some(d) => exists|secs: u64|
                spec_interval_secs(s@) == Some(secs as nat) && d == #[trigger] spec_duration_from_secs(secs),
            None => spec_interval_secs(s@) is None,
        },
{
    match parse_interval_secs(s) {
        Some(secs) => Some(duration_from_secs(secs)),
        None => None,
    }
}

proof fn lemma_decimal_digits(n: nat)
    ensures
        spec_decimal(n).len() > 0,
        spec_all_digits(spec_decimal(n)),
        spec_digits_value(spec_decimal(n)) == n,
    decreases n,
{
    let d = spec_decimal(n);
    let k = n % 10;
    assert(spec_digit_char(k) as nat - '0' as nat == k);
    if n < 10 {
        assert(d.drop_last() =~= Seq::<char>::empty());
        assert(k == n);
        assert(d == seq![spec_digit_char(n)]);
        assert(d.last() == spec_digit_char(k));
        assert(spec_digits_value(d.drop_last()) == 0);
        assert(spec_digits_value(d) == spec_digits_value(d.drop_last()) * 10 + (d.last() as nat - '0' as nat) as nat);
    } else {
        lemma_decimal_digits(n / 10);
        assert(d.drop_last() =~= spec_decimal(n / 10));
        assert(forall|i: int| 0 <= i < d.len() - 1 ==> d[i] == spec_decimal(n / 10)[i]);
        assert(d.last() == spec_digit_char(k));
        assert((n / 10) * 10 + n % 10 == n) by (nonlinear_arith);
        assert(spec_digits_value(d) == spec_digits_value(d.drop_last()) * 10 + (d.last() as nat - '0' as nat) as nat);
    }
}

proof fn lemma_trim_start_whitespace(w: Seq<char>, x: Seq<char>)
    requires
        forall|i: int| 0 <= i < w.len() ==> spec_is_whitespace(#[trigger] w[i]),
        x.len() > 0,
        !spec_is_whitespace(x[0]),
    ensures
        spec_trim_start(w + x) == x,
    decreases w.len(),
{
    if w.len() == 0 {
        assert(w + x =~= x);
    } else {
        assert((w + x).drop_first() =~= w.drop_first() + x);
        lemma_trim_start_whitespace(w.drop_first(), x);
    }
}

proof fn lemma_trim_end_whitespace(x: Seq<char>, w: Seq<char>)
    requires
        forall|i: int| 0 <= i < w.len() ==> spec_is_whitespace(#[trigger] w[i]),
        x.len() > 0,
        !spec_is_whitespace(x.last()),
    ensures
        spec_trim_end(x + w) == x,
    decreases w.len(),
{
    if w.len() == 0 {
        assert(x + w =~= x);
    } else {
        assert((x + w).drop_last() =~= x + w.drop_last());
        lemma_trim_end_whitespace(x, w.drop_last());
    }
}

/// An interval written as the decimal text of `n` followed by a unit
/// suffix (`s`, `m` or `h`), with any whitespace around it, denotes `n`
/// times the unit's seconds: `n`, `60 n` or `3600 n`.
pub proof fn law_interval_of_decimal(n: u64, unit: char, before: Seq<char>, after: Seq<char>)
    requires
        spec_unit_secs(unit) is Some,
        forall|i: int| 0 <= i < before.len() ==> spec_is_whitespace(#[trigger] before[i]),
        forall|i: int| 0 <= i < after.len() ==> spec_is_whitespace(#[trigger] after[i]),
    ensures
        spec_interval_secs(before + spec_decimal(n as nat).push(unit) + after) == Some(
            (n * spec_unit_secs(unit)->0) as nat,
        ),
        unit == 's' ==> spec_interval_secs(before + spec_decimal(n as nat).push(unit) + after) == Some(n as nat),
        unit == 'm' ==> spec_interval_secs(before + spec_decimal(n as nat).push(unit) + after) == Some(
            (60 * n) as nat,
        ),
        unit == 'h' ==> spec_interval_secs(before + spec_decimal(n as nat).push(unit) + after) == Some(
            (3600 * n) as nat,
        ),
{
    let d = spec_decimal(n as nat);
    lemma_decimal_digits(n as nat);
    let x = d.push(unit);
    let s = before + x + after;
    assert(spec_is_ascii_digit(d[0]));
    assert(spec_is_ascii_digit(d.last()));
    assert(x[0] == d[0]);
    assert(s =~= before + (x + after));
    assert((x + after)[0] == x[0]);
    lemma_trim_start_whitespace(before, x + after);
    lemma_trim_end_whitespace(x, after);
    assert(spec_trim(s) == x);
    assert(x.drop_last() =~= d);
    lemma_trim_start_whitespace(Seq::empty(), d);
    assert(Seq::<char>::empty() + d =~= d);
    lemma_trim_end_whitespace(d, Seq::empty());
    assert(d + Seq::<char>::empty() =~= d);
    assert(spec_trim(d) == d);
    assert(spec_unsigned_body(d) == d);
    assert(spec_parse_u64(d) == Some(n));
    assert(spec_interval_parts(s) == Some((n, spec_unit_secs(unit)->0)));
    assert(n * 1 == n);
}

/// The interval used when the configured poll interval does not parse.
pub const DEFAULT_POLL_SECS: u64 = 60;

/// The seconds between two polls: the configured interval, or a minute when
/// it does not parse.
pub fn poll_interval_secs(poll_interval: &str) -> (r: u64)
    requires
        !spec_interval_overflows(poll_interval@),
    ensures
        r == match spec_interval_secs(poll_interval@) {
            Some(secs) => secs,
            None => 60,
        },
{
    match parse_interval_secs(poll_interval) {
        Some(secs) => secs,
        None => DEFAULT_POLL_SECS,
    }
}

/// The position of the first name equal to `x`, or `names.len()` when none
/// is (after every position, as "not found" sorts last).
pub open spec fn spec_position(names: Seq<Seq<char>>, x: Seq<char>) -> int {
    if exists|i: int| 0 <= i < names.len() && names[i] == x {
        choose|i: int| 0 <= i < names.len() && names[i] == x && forall|j: int| 0 <= j < i ==> names[j] != x
    } else {
        names.len() as int
    }
}

/// The indices, in increasing order, whose key is `k`.
pub open spec fn spec_bucket(keys: Seq<int>, k: int) -> Seq<int>
    decreases keys.len(),
{
    if keys.len() == 0 {
        Seq::empty()
    } else if keys.last() == k {
        spec_bucket(keys.drop_last(), k).push(keys.len() - 1)
    } else {
        spec_bucket(keys.drop_last(), k)
    }
}

/// The indices with keys `0..upto`, key by key, each key's indices in
/// increasing order.
pub open spec fn spec_buckets(keys: Seq<int>, upto: nat) -> Seq<int>
    decreases upto,
{
    if upto == 0 {
        Seq::empty()
    } else {
        spec_buckets(keys, (upto - 1) as nat) + spec_bucket(keys, upto - 1)
    }
}

/// The order in which evaluated watches are shown: by the position of
/// their name among the configured watches' names, those with an unknown
/// name last, keeping the evaluation order among equals (a stable sort).
pub open spec fn spec_state_order(names: Seq<Seq<char>>, state_names: Seq<Seq<char>>) -> Seq<int> {
    spec_buckets(state_names.map_values(|s: Seq<char>| spec_position(names, s)), names.len() + 1)
}

proof fn lemma_position_first(names: Seq<Seq<char>>, x: Seq<char>, i: int)
    requires
        0 <= i < names.len(),
        names[i] == x,
        forall|j: int| 0 <= j < i ==> names[j] != x,
    ensures
        spec_position(names, x) == i,
{
    let k = choose|k: int| 0 <= k < names.len() && names[k] == x && forall|j: int| 0 <= j < k ==> names[j] != x;
    assert(0 <= k < names.len() && names[k] == x && forall|j: int| 0 <= j < k ==> names[j] != x);
    if k < i {
        assert(names[k] != x);
    }
    if i < k {
        assert(names[i] != x);
    }
}

fn position(names: &Vec<String>, x: &str) -> (r: usize)
    ensures
        r == spec_position(names@.map_values(|s: String| s@), x@),
{
    let ghost ns = names@.map_values(|s: String| s@);
    let mut i: usize = 0;
    while i < names.len()
        invariant
            i <= names@.len(),
            ns == names@.map_values(|s: String| s@),
            forall|j: int| 0 <= j < i ==> ns[j] != x@,
        decreases names.len() - i,
    {
        if crate::json::str_eq(names[i].as_str(), x) {
            proof {
                lemma_position_first(ns, x@, i as int);
            }
            return i;
        }
        i = i + 1;
    }
    i
}

fn append_bucket(out: &mut Vec<usize>, key: &Vec<usize>, k: usize)
    ensures
        final(out)@.map_values(|x: usize| x as int) == old(out)@.map_values(|x: usize| x as int) + spec_bucket(
            key@.map_values(|x: usize| x as int),
            k as int,
        ),
{
    let ghost keys = key@.map_values(|x: usize| x as int);
    let ghost start = out@.map_values(|x: usize| x as int);
    let mut j: usize = 0;
    assert(keys.take(0) =~= Seq::<int>::empty());
    while j < key.len()
        invariant
            j <= key@.len(),
            keys == key@.map_values(|x: usize| x as int),
            out@.map_values(|x: usize| x as int) == start + spec_bucket(keys.take(j as int), k as int),
        decreases key.len() - j,
    {
        assert(keys.take(j + 1).drop_last() =~= keys.take(j as int));
        assert(keys.take(j + 1).last() == key@[j as int] as int);
        let ghost before = out@;
        if key[j] == k {
            out.push(j);
            assert(out@.map_values(|x: usize| x as int) =~= before.map_values(|x: usize| x as int).push(j as int));
        }
        j = j + 1;
    }
    assert(keys.take(key@.len() as int) =~= keys);
}

/// The order in which evaluated watches are shown, as indices into the
/// evaluated states: sorted by the position of each state's name among the
/// configured watches' names (unknown names last), stable among equals.
pub fn state_order(names: &Vec<String>, state_names: &Vec<String>) -> (r: Vec<usize>)
    ensures
        r@.map_values(|i: usize| i as int) == spec_state_order(
            names@.map_values(|s: String| s@),
            state_names@.map_values(|s: String| s@),
        ),
{
    let ghost ns = names@.map_values(|s: String| s@);
    let ghost keys = state_names@.map_values(|s: String| s@).map_values(|s: Seq<char>| spec_position(ns, s));
    let mut key: Vec<usize> = Vec::new();
    let mut i: usize = 0;
    while i < state_names.len()
        invariant
            i <= state_names@.len(),
            key@.len() == i,
            ns == names@.map_values(|s: String| s@),
            keys == state_names@.map_values(|s: String| s@).map_values(|s: Seq<char>| spec_position(ns, s)),
            forall|j: int| 0 <= j < i ==> key@[j] as int == keys[j],
        decreases state_names.len() - i,
    {
        key.push(position(names, state_names[i].as_str()));
        i = i + 1;
    }
    assert(key@.map_values(|k: usize| k as int) =~= keys);
    let mut out: Vec<usize> = Vec::new();
    let n = names.len();
    let mut k: usize = 0;
    while k < n
        invariant
            k <= n,
            n == names@.len(),
            keys == key@.map_values(|x: usize| x as int),
            out@.map_values(|x: usize| x as int) == spec_buckets(keys, k as nat),
        decreases n - k,
    {
        append_bucket(&mut out, &key, k);
        k = k + 1;
    }
    append_bucket(&mut out, &key, n);
    out
}

proof fn lemma_position_range(names: Seq<Seq<char>>, x: Seq<char>)
    ensures
        0 <= spec_position(names, x) <= names.len(),
{
    if exists|i: int| 0 <= i < names.len() && names[i] == x {
        let i = choose|i: int| 0 <= i < names.len() && names[i] == x;
        lemma_first_name(names, x, i);
    }
}

proof fn lemma_first_name(names: Seq<Seq<char>>, x: Seq<char>, i: int)
    requires
        0 <= i < names.len(),
        names[i] == x,
    ensures
        exists|k: int| 0 <= k < names.len() && names[k] == x && forall|j: int| 0 <= j < k ==> names[j] != x,
    decreases i,
{
    if exists|j: int| 0 <= j < i && names[j] == x {
        let j = choose|j: int| 0 <= j < i && names[j] == x;
        lemma_first_name(names, x, j);
    }
}

proof fn lemma_bucket(keys: Seq<int>, k: int)
    ensures
        spec_bucket(keys, k).no_duplicates(),
        forall|x: int| #[trigger] spec_bucket(keys, k).contains(x) <==> (0 <= x < keys.len() && keys[x] == k),
    decreases keys.len(),
{
    if keys.len() > 0 {
        lemma_bucket(keys.drop_last(), k);
        let b = spec_bucket(keys.drop_last(), k);
        if keys.last() == k {
            let bp = b.push(keys.len() - 1);
            let last = keys.len() - 1;
            assert forall|x: int| bp.contains(x) implies (0 <= x < keys.len() && keys[x] == k) by {
                let i = choose|i: int| 0 <= i < bp.len() && #[trigger] bp[i] == x;
                if i < b.len() {
                    assert(bp[i] == b[i]);
                    assert(b.contains(b[i]));
                    assert(keys.drop_last()[x] == keys[x]);
                } else {
                    assert(x == last);
                }
            }
            assert forall|x: int| (0 <= x < keys.len() && keys[x] == k) implies bp.contains(x) by {
                if x == last {
                    assert(bp[b.len() as int] == x);
                } else {
                    assert(keys.drop_last()[x] == k);
                    assert(b.contains(x));
                    let i = choose|i: int| 0 <= i < b.len() && #[trigger] b[i] == x;
                    assert(bp[i] == x);
                }
            }
            let single = seq![last];
            assert forall|i: int, j: int| 0 <= i < b.len() && 0 <= j < single.len() implies b[i] != single[j] by {
                assert(b.contains(b[i]));
                assert(0 <= b[i] < keys.drop_last().len());
                assert(single[j] == last);
            }
            vstd::seq_lib::lemma_no_dup_in_concat(b, single);
            assert(bp =~= b + single);
        } else {
            let last = keys.len() - 1;
            assert forall|x: int| b.contains(x) implies (0 <= x < keys.len() && keys[x] == k) by {
                assert(keys.drop_last()[x] == keys[x]);
            }
            assert forall|x: int| (0 <= x < keys.len() && keys[x] == k) implies b.contains(x) by {
                if x == last {
                    assert(keys[x] == keys.last());
                } else {
                    assert(keys.drop_last()[x] == keys[x]);
                }
            }
        }
    }
}

proof fn lemma_buckets(keys: Seq<int>, upto: nat)
    ensures
        spec_buckets(keys, upto).no_duplicates(),
        forall|x: int| #[trigger] spec_buckets(keys, upto).contains(x) <==> (0 <= x < keys.len() && 0 <= keys[x] < upto),
    decreases upto,
{
    if upto > 0 {
        let u = (upto - 1) as nat;
        lemma_buckets(keys, u);
        lemma_bucket(keys, u as int);
        let a = spec_buckets(keys, u);
        let b = spec_bucket(keys, u as int);
        assert forall|i: int, j: int| 0 <= i < a.len() && 0 <= j < b.len() implies a[i] != b[j] by {
            assert(a.contains(a[i]));
            assert(b.contains(b[j]));
        }
        vstd::seq_lib::lemma_no_dup_in_concat(a, b);
        assert forall|x: int| (a + b).contains(x) <==> (0 <= x < keys.len() && 0 <= keys[x] < upto) by {
            if (a + b).contains(x) {
                let i = choose|i: int| 0 <= i < (a + b).len() && #[trigger] (a + b)[i] == x;
                if i < a.len() {
                    assert(a.contains(a[i]));
                } else {
                    assert(b[i - a.len()] == x);
                    assert(b.contains(b[i - a.len()]));
                }
            }
            if 0 <= x < keys.len() && 0 <= keys[x] < upto {
                if keys[x] < u {
                    assert(a.contains(x));
                    let i = choose|i: int| 0 <= i < a.len() && #[trigger] a[i] == x;
                    assert((a + b)[i] == x);
                } else {
                    assert(b.contains(x));
                    let i = choose|i: int| 0 <= i < b.len() && #[trigger] b[i] == x;
                    assert((a + b)[a.len() + i] == x);
                }
            }
        }
    }
}

/// Ordering the evaluated watches only moves them: every state is shown
/// exactly once.
pub proof fn law_state_order_is_permutation(names: Seq<Seq<char>>, state_names: Seq<Seq<char>>)
    ensures
        crate::config_file::spec_is_permutation(spec_state_order(names, state_names), state_names.len()),
{
    let keys = state_names.map_values(|s: Seq<char>| spec_position(names, s));
    let n = state_names.len();
    lemma_buckets(keys, names.len() + 1);
    let s = spec_buckets(keys, names.len() + 1);
    assert forall|x: int| 0 <= x < keys.len() implies 0 <= #[trigger] keys[x] < names.len() + 1 by {
        lemma_position_range(names, state_names[x]);
    }
    assert(s.to_set() =~= vstd::set_lib::set_int_range(0, n as int)) by {
        assert forall|x: int| s.to_set().contains(x) <==> vstd::set_lib::set_int_range(0, n as int).contains(x) by {
            if 0 <= x < n {
                assert(0 <= keys[x] < names.len() + 1);
            }
        }
    }
    s.unique_seq_to_set();
    vstd::set_lib::lemma_int_range(0, n as int);
    assert forall|i: int| 0 <= i < s.len() implies 0 <= #[trigger] s[i] < n by {
        assert(s.contains(s[i]));
    }
}

} // verus!
