//! Character-level helpers shared by the tokenizer, the interval parser and
//! the path walker.

use vstd::prelude::*;

verus! {

/// `char::is_alphabetic`: the Unicode `Alphabetic` property.
pub uninterp spec fn spec_is_alphabetic(c: char) -> bool;

/// `char::is_alphanumeric`: `Alphabetic` or `Numeric` in Unicode.
pub uninterp spec fn spec_is_alphanumeric(c: char) -> bool;

/// True for the ASCII letters `a`..=`z` and `A`..=`Z`.
pub open spec fn spec_is_ascii_letter(c: char) -> bool {
    ('a' <= c && c <= 'z') || ('A' <= c && c <= 'Z')
}

/// `char::is_alphabetic` with its ASCII answers written out: an ASCII
/// character is alphabetic when it is a letter.
pub open spec fn spec_alphabetic(c: char) -> bool {
    if c <= '\u{7f}' {
        spec_is_ascii_letter(c)
    } else {
        spec_is_alphabetic(c)
    }
}

/// `char::is_alphanumeric` with its ASCII answers written out: an ASCII
/// character is alphanumeric when it is a letter or a decimal digit.
pub open spec fn spec_alphanumeric(c: char) -> bool {
    if c <= '\u{7f}' {
        spec_is_ascii_letter(c) || spec_is_ascii_digit(c)
    } else {
        spec_is_alphanumeric(c)
    }
}

/// True for the ASCII decimal digits `0`..=`9`.
pub open spec fn spec_is_ascii_digit(c: char) -> bool {
    '0' <= c && c <= '9'
}

/// `char::is_whitespace`: the Unicode `White_Space` property.
pub open spec fn spec_is_whitespace(c: char) -> bool {
    ||| ('\u{9}' <= c && c <= '\u{d}')
    ||| c == ' '
    ||| c == '\u{85}'
    ||| c == '\u{a0}'
    ||| c == '\u{1680}'
    ||| ('\u{2000}' <= c && c <= '\u{200a}')
    ||| c == '\u{2028}'
    ||| c == '\u{2029}'
    ||| c == '\u{202f}'
    ||| c == '\u{205f}'
    ||| c == '\u{3000}'
}

/// Calls `char::is_alphabetic`. Claims that the answer is the Unicode
/// `Alphabetic` property, that an alphabetic character is also
/// alphanumeric (as `char::is_alphanumeric` documents), and that among the
/// ASCII characters exactly the letters are alphabetic (the ASCII branch
/// of std's implementation).
#[verifier::external_body]
pub fn is_alphabetic(c: char) -> (b: bool)
    ensures
        b == spec_is_alphabetic(c),
        b ==> spec_is_alphanumeric(c),
        c <= '\u{7f}' ==> (b <==> spec_is_ascii_letter(c)),
{
    c.is_alphabetic()
}

/// Calls `char::is_alphanumeric`; the answer is the Unicode property, and
/// among the ASCII characters exactly the letters and the decimal digits
/// are alphanumeric (the ASCII branches of std's `is_alphabetic` and
/// `is_numeric`).
#[verifier::external_body]
pub fn is_alphanumeric(c: char) -> (b: bool)
    ensures
        b == spec_is_alphanumeric(c),
        c <= '\u{7f}' ==> (b <==> (spec_is_ascii_letter(c) || spec_is_ascii_digit(c))),
{
    c.is_alphanumeric()
}

/// True for the ASCII decimal digits.
pub fn is_ascii_digit(c: char) -> (b: bool)
    ensures
        b == spec_is_ascii_digit(c),
{
    '0' <= c && c <= '9'
}

/// Unicode whitespace, as `char::is_whitespace` defines it.
pub fn is_whitespace(c: char) -> (b: bool)
    ensures
        b == spec_is_whitespace(c),
{
    ('\u{9}' <= c && c <= '\u{d}') || c == ' ' || c == '\u{85}' || c == '\u{a0}' || c
        == '\u{1680}' || ('\u{2000}' <= c && c <= '\u{200a}') || c == '\u{2028}' || c
        == '\u{2029}' || c == '\u{202f}' || c == '\u{205f}' || c == '\u{3000}'
}

/// Calls `str::chars` and collects the characters: they are the string's view.
#[verifier::external_body]
pub fn str_chars(s: &str) -> (v: Vec<char>)
    ensures
        v@ == s@,
{
    s.chars().collect()
}

/// Collects characters into a `String` (`FromIterator<char>`): its view is
/// the characters in order.
#[verifier::external_body]
pub fn collect_chars(v: &[char]) -> (s: String)
    ensures
        s@ == v@,
{
    v.iter().collect()
}

/// A `String` holding the characters `cs[start..end]`.
pub fn substring(cs: &Vec<char>, start: usize, end: usize) -> (s: String)
    requires
        start <= end <= cs@.len(),
    ensures
        s@ == cs@.subrange(start as int, end as int),
{
    collect_chars(vstd::slice::slice_subrange(cs.as_slice(), start, end))
}

/// True when `cs[start..end]` spells exactly `w`.
pub fn chars_equal(cs: &Vec<char>, start: usize, end: usize, w: &[char]) -> (b: bool)
    requires
        start <= end <= cs@.len(),
    ensures
        b == (cs@.subrange(start as int, end as int) == w@),
{
    if end - start != w.len() {
        return false;
    }
    let mut i: usize = 0;
    while i < w.len()
        invariant
            end - start == w@.len(),
            start <= end <= cs@.len(),
            i <= w@.len(),
            forall|j: int| 0 <= j < i ==> cs@[start + j] == w@[j],
        decreases w.len() - i,
    {
        if cs[start + i] != w[i] {
            assert(cs@.subrange(start as int, end as int)[i as int] != w@[i as int]);
            return false;
        }
        i = i + 1;
    }
    assert(cs@.subrange(start as int, end as int) =~= w@);
    true
}

} // verus!

verus! {

/// `s` begins with `p`.
pub open spec fn spec_starts_with(s: Seq<char>, p: Seq<char>) -> bool {
    p.len() <= s.len() && s.take(p.len() as int) == p
}

/// `s` with every `_` replaced by a space.
pub open spec fn spec_underscores_to_spaces(s: Seq<char>) -> Seq<char> {
    s.map_values(|c: char| if c == '_' { ' ' } else { c })
}

/// True when `s` begins with `p` (`str::starts_with`).
pub fn starts_with(s: &str, p: &str) -> (b: bool)
    ensures
        b == spec_starts_with(s@, p@),
{
    let cs = str_chars(s);
    let cp = str_chars(p);
    if cp.len() > cs.len() {
        return false;
    }
    let mut i: usize = 0;
    while i < cp.len()
        invariant
            cp@.len() <= cs@.len(),
            i <= cp@.len(),
            cs@ == s@,
            cp@ == p@,
            forall|j: int| 0 <= j < i ==> cs@[j] == cp@[j],
        decreases cp.len() - i,
    {
        if cs[i] != cp[i] {
            assert(s@.take(p@.len() as int)[i as int] != p@[i as int]);
            return false;
        }
        i = i + 1;
    }
    assert(s@.take(p@.len() as int) =~= p@);
    true
}

/// `s.replace('_', " ")`.
pub fn underscores_to_spaces(s: &str) -> (r: String)
    ensures
        r@ == spec_underscores_to_spaces(s@),
{
    let cs = str_chars(s);
    let mut out: Vec<char> = Vec::new();
    let mut i: usize = 0;
    while i < cs.len()
        invariant
            i <= cs@.len(),
            cs@ == s@,
            out@ == spec_underscores_to_spaces(cs@.take(i as int)),
        decreases cs.len() - i,
    {
        let c = cs[i];
        out.push(if c == '_' { ' ' } else { c });
        assert(spec_underscores_to_spaces(cs@.take(i + 1)) =~= spec_underscores_to_spaces(
            cs@.take(i as int),
        ).push(if c == '_' { ' ' } else { c }));
        i = i + 1;
    }
    assert(cs@.take(cs@.len() as int) =~= cs@);
    collect_chars(out.as_slice())
}

/// The concatenation of `a`, `b` and `c`.
pub fn concat3(a: &str, b: &str, c: &str) -> (r: String)
    ensures
        r@ == a@ + b@ + c@,
{
    let mut v = str_chars(a);
    let mut vb = str_chars(b);
    let mut vc = str_chars(c);
    v.append(&mut vb);
    v.append(&mut vc);
    collect_chars(v.as_slice())
}

} // verus!

verus! {

/// The ASCII digit for `d < 10`.
pub open spec fn spec_digit_char(d: nat) -> char {
    if d == 0 { '0' } else if d == 1 { '1' } else if d == 2 { '2' } else if d == 3 { '3' } else if d == 4 { '4' }
    else if d == 5 { '5' } else if d == 6 { '6' } else if d == 7 { '7' } else if d == 8 { '8' } else { '9' }
}

/// Decimal digits of `n`, most significant first, without leading zeros.
pub open spec fn spec_decimal(n: nat) -> Seq<char>
    decreases n,
{
    if n < 10 {
        seq![spec_digit_char(n)]
    } else {
        spec_decimal(n / 10).push(spec_digit_char(n % 10))
    }
}

fn digit_char(d: u64) -> (c: char)
    requires
        d < 10,
    ensures
        c == spec_digit_char(d as nat),
{
    if d == 0 { '0' } else if d == 1 { '1' } else if d == 2 { '2' } else if d == 3 { '3' } else if d == 4 { '4' }
    else if d == 5 { '5' } else if d == 6 { '6' } else if d == 7 { '7' } else if d == 8 { '8' } else { '9' }
}

/// Decimal text of an unsigned integer (as `u64::to_string` writes it).
pub fn u64_to_decimal(n: u64) -> (r: String)
    ensures
        r@ == spec_decimal(n as nat),
{
    let mut digits: Vec<char> = Vec::new();
    let mut m = n;
    while m >= 10
        invariant
            spec_decimal(n as nat) == spec_decimal(m as nat) + digits@.reverse(),
        decreases m,
    {
        let d = m % 10;
        let q = m / 10;
        assert(spec_decimal(m as nat) == spec_decimal(q as nat).push(spec_digit_char(d as nat)));
        let ghost before = digits@;
        digits.push(digit_char(d));
        assert(digits@.reverse() =~= seq![spec_digit_char(d as nat)] + before.reverse());
        assert(spec_decimal(q as nat).push(spec_digit_char(d as nat)) + before.reverse()
            =~= spec_decimal(q as nat) + (seq![spec_digit_char(d as nat)] + before.reverse()));
        m = q;
    }
    let ghost before = digits@;
    digits.push(digit_char(m));
    assert(digits@.reverse() =~= seq![spec_digit_char(m as nat)] + before.reverse());
    assert(spec_decimal(m as nat) == seq![spec_digit_char(m as nat)]);
    let mut out: Vec<char> = Vec::new();
    let mut i: usize = digits.len();
    while i > 0
        invariant
            i <= digits@.len(),
            out@ == digits@.reverse().take((digits@.len() - i) as int),
        decreases i,
    {
        i = i - 1;
        out.push(digits[i]);
        assert(digits@.reverse().take((digits@.len() - i) as int) =~= digits@.reverse().take(
            (digits@.len() - i - 1) as int,
        ).push(digits@[i as int]));
    }
    assert(digits@.reverse().take(digits@.len() as int) =~= digits@.reverse());
    assert(spec_decimal(n as nat) =~= out@);
    collect_chars(out.as_slice())
}

} // verus!

verus! {

/// The view of an optional string.
pub open spec fn opt_view(o: Option<String>) -> Option<Seq<char>> {
    match o {
        Some(s) => Some(s@),
        None => None,
    }
}

} // verus!

verus! {

/// `p` occurs in `s` at position `i`.
pub open spec fn spec_occurs_at(s: Seq<char>, p: Seq<char>, i: int) -> bool {
    0 <= i && i + p.len() <= s.len() && s.subrange(i, i + p.len()) == p
}

/// `p` occurs somewhere in `s` (`str::contains`).
pub open spec fn spec_contains(s: Seq<char>, p: Seq<char>) -> bool {
    exists|i: int| spec_occurs_at(s, p, i)
}

fn occurs_at(cs: &Vec<char>, cp: &Vec<char>, i: usize) -> (b: bool)
    requires
        i + cp.len() <= cs.len(),
    ensures
        b == spec_occurs_at(cs@, cp@, i as int),
{
    let mut j: usize = 0;
    while j < cp.len()
        invariant
            i + cp.len() <= cs.len(),
            j <= cp@.len(),
            forall|k: int| 0 <= k < j ==> cs@[i + k] == cp@[k],
        decreases cp.len() - j,
    {
        if cs[i + j] != cp[j] {
            assert(cs@.subrange(i as int, i + cp@.len())[j as int] != cp@[j as int]);
            return false;
        }
        j = j + 1;
    }
    assert(cs@.subrange(i as int, i + cp@.len()) =~= cp@);
    true
}

/// True when `p` occurs in `s`.
pub fn contains(s: &str, p: &str) -> (b: bool)
    ensures
        b == spec_contains(s@, p@),
{
    let cs = str_chars(s);
    let cp = str_chars(p);
    if cp.len() > cs.len() {
        return false;
    }
    let last = cs.len() - cp.len();
    let mut i: usize = 0;
    loop
        invariant
            cs@ == s@,
            cp@ == p@,
            last == cs.len() - cp.len(),
            i <= last,
            forall|k: int| 0 <= k < i ==> !spec_occurs_at(s@, p@, k),
        decreases last - i,
    {
        if occurs_at(&cs, &cp, i) {
            return true;
        }
        if i == last {
            assert forall|k: int| !spec_occurs_at(s@, p@, k) by {
                if k > i {
                    assert(!(k + p@.len() <= s@.len()));
                }
            }
            return false;
        }
        i = i + 1;
    }
}

} // verus!

verus! {

/// `s` without its leading whitespace.
pub open spec fn spec_trim_start(s: Seq<char>) -> Seq<char>
    decreases s.len(),
{
    if s.len() > 0 && spec_is_whitespace(s[0]) {
        spec_trim_start(s.drop_first())
    } else {
        s
    }
}

/// `s` without its trailing whitespace.
pub open spec fn spec_trim_end(s: Seq<char>) -> Seq<char>
    decreases s.len(),
{
    if s.len() > 0 && spec_is_whitespace(s.last()) {
        spec_trim_end(s.drop_last())
    } else {
        s
    }
}

/// `s` without leading and trailing whitespace (`str::trim`).
pub open spec fn spec_trim(s: Seq<char>) -> Seq<char> {
    spec_trim_end(spec_trim_start(s))
}

/// The characters of `s` with leading and trailing whitespace removed.
pub fn trim_chars(cs: &Vec<char>) -> (r: Vec<char>)
    ensures
        r@ == spec_trim(cs@),
{
    let n = cs.len();
    let mut i: usize = 0;
    assert(cs@.subrange(0, n as int) =~= cs@);
    while i < n && is_whitespace(cs[i])
        invariant
            n == cs@.len(),
            i <= n,
            spec_trim_start(cs@) == spec_trim_start(cs@.subrange(i as int, n as int)),
        decreases n - i,
    {
        assert(cs@.subrange(i as int, n as int).drop_first() =~= cs@.subrange(i + 1, n as int));
        i = i + 1;
    }
    assert(spec_trim_start(cs@) == cs@.subrange(i as int, n as int));
    let mut j: usize = n;
    while j > i && is_whitespace(cs[j - 1])
        invariant
            n == cs@.len(),
            i <= j <= n,
            spec_trim(cs@) == spec_trim_end(cs@.subrange(i as int, j as int)),
        decreases j,
    {
        assert(cs@.subrange(i as int, j as int).drop_last() =~= cs@.subrange(i as int, j - 1));
        j = j - 1;
    }
    assert(spec_trim(cs@) == cs@.subrange(i as int, j as int));
    let mut out: Vec<char> = Vec::new();
    let mut k: usize = i;
    while k < j
        invariant
            i <= k <= j <= n,
            n == cs@.len(),
            out@ == cs@.subrange(i as int, k as int),
        decreases j - k,
    {
        out.push(cs[k]);
        assert(cs@.subrange(i as int, k + 1) =~= cs@.subrange(i as int, k as int).push(cs@[k as int]));
        k = k + 1;
    }
    out
}

/// `s.trim()` as an owned string.
pub fn trim(s: &str) -> (r: String)
    ensures
        r@ == spec_trim(s@),
{
    let cs = str_chars(s);
    let t = trim_chars(&cs);
    collect_chars(t.as_slice())
}

} // verus!

verus! {

/// `s` without its trailing `/` characters (`trim_end_matches('/')`).
pub open spec fn spec_trim_end_slashes(s: Seq<char>) -> Seq<char>
    decreases s.len(),
{
    if s.len() > 0 && s.last() == '/' {
        spec_trim_end_slashes(s.drop_last())
    } else {
        s
    }
}

/// `base` without trailing slashes, followed by `suffix`.
pub fn join_url(base: &str, suffix: &str) -> (r: String)
    ensures
        r@ == spec_trim_end_slashes(base@) + suffix@,
{
    let cs = str_chars(base);
    let mut j: usize = cs.len();
    assert(cs@.subrange(0, j as int) =~= cs@);
    while j > 0 && cs[j - 1] == '/'
        invariant
            j <= cs@.len(),
            spec_trim_end_slashes(cs@) == spec_trim_end_slashes(cs@.subrange(0, j as int)),
        decreases j,
    {
        assert(cs@.subrange(0, j as int).drop_last() =~= cs@.subrange(0, j - 1));
        j = j - 1;
    }
    let head = substring(&cs, 0, j);
    proof {
        reveal_strlit("");
    }
    concat3(head.as_str(), suffix, "")
}

} // verus!
