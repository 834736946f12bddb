//! Replacing the matches of a regular expression: the text between the
//! matches and the first capture group of each match come from the `regex`
//! crate; putting the pieces back together with replacement texts is done
//! and proved here.

use vstd::prelude::*;
use crate::adapter::html::spec_regex_error;
use crate::config::view_strings;
use crate::text::{collect_chars, opt_view, str_chars};

verus! {

/// The pieces of `text` between the successive matches of a valid
/// `pattern` (`Regex::split`), the text before the first match first and
/// the text after the last match last.
pub uninterp spec fn spec_regex_split(pattern: Seq<char>, text: Seq<char>) -> Seq<Seq<char>>;

/// The first capture group of each successive match of a valid `pattern`
/// in `text` (`Regex::captures_iter`), where the group took part.
pub uninterp spec fn spec_regex_groups(pattern: Seq<char>, text: Seq<char>) -> Seq<Option<Seq<char>>>;

/// Compiles `pattern` with `regex::Regex::new` and splits `text` at its
/// matches with `Regex::split`. Claims that a compile error depends on the
/// pattern alone and that the pieces are those named by
/// [`spec_regex_split`].
#[verifier::external_body]
pub(crate) fn regex_split(pattern: &str, text: &str) -> (r: Result<Vec<String>, String>)
    ensures
        match spec_regex_error(pattern@) {
            Some(m) => r matches Err(e) && e@ == m,
            None => r matches Ok(v) && view_strings(v@) == spec_regex_split(pattern@, text@),
        },
{
    let re = regex::Regex::new(pattern).map_err(|e| e.to_string())?;
    Ok(re.split(text).map(|p| p.to_owned()).collect())
}

/// Compiles `pattern` with `regex::Regex::new` and lists, for each match
/// that `Regex::captures_iter` finds in `text`, its first capture group.
/// Claims that a compile error depends on the pattern alone and that the
/// groups are those named by [`spec_regex_groups`].
#[verifier::external_body]
pub(crate) fn regex_groups(pattern: &str, text: &str) -> (r: Result<Vec<Option<String>>, String>)
    ensures
        match spec_regex_error(pattern@) {
            Some(m) => r matches Err(e) && e@ == m,
            None => r matches Ok(v) && v@.map_values(|g: Option<String>| opt_view(g)) == spec_regex_groups(
                pattern@,
                text@,
            ),
        },
{
    let re = regex::Regex::new(pattern).map_err(|e| e.to_string())?;
    Ok(re.captures_iter(text).map(|c| c.get(1).map(|m| m.as_str().to_owned())).collect())
}

/// The pieces with the fills put between them: `pieces[0] + fills[0] +
/// pieces[1] + fills[1] + ...`; a piece without a fill of its index is
/// followed by nothing.
pub open spec fn spec_interleave(pieces: Seq<Seq<char>>, fills: Seq<Seq<char>>) -> Seq<char>
    decreases pieces.len(),
{
    if pieces.len() == 0 {
        Seq::empty()
    } else {
        let k = pieces.len() - 1;
        spec_interleave(pieces.drop_last(), fills) + pieces[k] + if k < fills.len() {
            fills[k]
        } else {
            Seq::empty()
        }
    }
}

/// Puts the fills between the pieces.
pub fn interleave(pieces: &Vec<String>, fills: &Vec<String>) -> (r: String)
    ensures
        r@ == spec_interleave(view_strings(pieces@), view_strings(fills@)),
{
    let ghost ps = view_strings(pieces@);
    let ghost fs = view_strings(fills@);
    let mut out: Vec<char> = Vec::new();
    let mut i: usize = 0;
    assert(ps.take(0) =~= Seq::<Seq<char>>::empty());
    while i < pieces.len()
        invariant
            i <= pieces@.len(),
            ps == view_strings(pieces@),
            fs == view_strings(fills@),
            out@ == spec_interleave(ps.take(i as int), fs),
        decreases pieces.len() - i,
    {
        assert(ps.take(i + 1).drop_last() =~= ps.take(i as int));
        assert(ps.take(i + 1)[i as int] == pieces@[i as int]@);
        let mut p = str_chars(pieces[i].as_str());
        out.append(&mut p);
        if i < fills.len() {
            assert(fs[i as int] == fills@[i as int]@);
            let mut f = str_chars(fills[i].as_str());
            out.append(&mut f);
        } else {
            assert(out@ =~= out@ + Seq::<char>::empty());
        }
        i = i + 1;
    }
    assert(ps.take(pieces@.len() as int) =~= ps);
    collect_chars(out.as_slice())
}

} // verus!
