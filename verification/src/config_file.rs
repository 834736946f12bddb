//! Edits of the configuration file's `watch` list: adding a preset,
//! removing one, and putting the entries in a given order. They work on the
//! document as a [`YamlValue`]; the application reads the file into one and
//! writes the edited one back.

use vstd::prelude::*;
use crate::config::ConfigError;
use crate::json::str_eq;
use crate::text::{spec_trim, str_chars, trim_chars};
use crate::yaml::{
    as_str, find_key, get, retag, spec_as_str, spec_find_key, spec_get, spec_key_is, spec_untag, untag, YamlValue,
};

verus! {

/// A file whose text is blank counts as an empty document.
pub fn is_blank(content: &str) -> (r: bool)
    ensures
        r == (spec_trim(content@).len() == 0),
{
    let cs = str_chars(content);
    trim_chars(&cs).len() == 0
}

/// The error for a document whose root is not a mapping.
pub open spec fn spec_not_mapping(r: ConfigError) -> bool {
    r matches ConfigError::Parse(m) && m@ == "config root is not a mapping"@
}

/// `str::to_lowercase`: the Unicode lower-case mapping of a text.
pub uninterp spec fn spec_to_lowercase(s: Seq<char>) -> Seq<char>;

/// Calls `str::to_lowercase`; the result is the text named by
/// [`spec_to_lowercase`].
#[verifier::external_body]
fn to_lowercase(s: &str) -> (r: String)
    ensures
        r@ == spec_to_lowercase(s@),
{
    s.to_lowercase()
}

/// An entry key answers to a name in the requested order: equal when both
/// are lower-cased, or equal as written.
pub open spec fn spec_key_matches(key: Seq<char>, name: Seq<char>) -> bool {
    spec_to_lowercase(key) == spec_to_lowercase(name) || key == name
}

/// The position in `rem` of the first entry whose key answers to `name`.
pub open spec fn spec_first_answering(keys: Seq<Seq<char>>, rem: Seq<int>, name: Seq<char>) -> Option<int> {
    if exists|p: int| 0 <= p < rem.len() && spec_key_matches(keys[rem[p]], name) {
        Some(
            choose|p: int|
                0 <= p < rem.len() && spec_key_matches(keys[rem[p]], name) && forall|q: int|
                    0 <= q < p ==> !spec_key_matches(keys[rem[q]], name),
        )
    } else {
        None
    }
}

/// The entries placed by the names of `order`, and those left, starting
/// from the entries `rem` and taking the names in turn: each name moves the
/// first remaining entry that answers to it to the end of the placed ones.
pub open spec fn spec_place(keys: Seq<Seq<char>>, order: Seq<Seq<char>>, rem: Seq<int>) -> (Seq<int>, Seq<int>)
    decreases order.len(),
{
    if order.len() == 0 {
        (Seq::empty(), rem)
    } else {
        let (placed, left) = spec_place(keys, order.drop_last(), rem);
        match spec_first_answering(keys, left, order.last()) {
            Some(p) => (placed.push(left[p]), left.remove(p)),
            None => (placed, left),
        }
    }
}

/// The positions of the entries in their new order: those the names of
/// `order` place, then the others in their old order.
pub open spec fn spec_reorder(keys: Seq<Seq<char>>, order: Seq<Seq<char>>) -> Seq<int> {
    let (placed, left) = spec_place(keys, order, Seq::new(keys.len(), |i: int| i));
    placed + left
}

/// `s` lists each of `0..n` exactly once.
pub open spec fn spec_is_permutation(s: Seq<int>, n: nat) -> bool {
    &&& s.len() == n
    &&& s.no_duplicates()
    &&& forall|i: int| 0 <= i < s.len() ==> 0 <= #[trigger] s[i] < n
}

proof fn lemma_first_answering(keys: Seq<Seq<char>>, rem: Seq<int>, name: Seq<char>)
    ensures
        match spec_first_answering(keys, rem, name) {
            Some(p) => 0 <= p < rem.len() && spec_key_matches(keys[rem[p]], name) && forall|q: int|
                0 <= q < p ==> !spec_key_matches(keys[rem[q]], name),
            None => forall|q: int| 0 <= q < rem.len() ==> !spec_key_matches(keys[rem[q]], name),
        },
{
    if exists|p: int| 0 <= p < rem.len() && spec_key_matches(keys[rem[p]], name) {
        let p = choose|p: int| 0 <= p < rem.len() && spec_key_matches(keys[rem[p]], name);
        lemma_first_answering_exists(keys, rem, name, p);
    }
}

proof fn lemma_first_answering_exists(keys: Seq<Seq<char>>, rem: Seq<int>, name: Seq<char>, p: int)
    requires
        0 <= p < rem.len(),
        spec_key_matches(keys[rem[p]], name),
    ensures
        exists|k: int|
            0 <= k < rem.len() && spec_key_matches(keys[rem[k]], name) && forall|q: int|
                0 <= q < k ==> !spec_key_matches(keys[rem[q]], name),
    decreases p,
{
    if exists|q: int| 0 <= q < p && spec_key_matches(keys[rem[q]], name) {
        let q = choose|q: int| 0 <= q < p && spec_key_matches(keys[rem[q]], name);
        lemma_first_answering_exists(keys, rem, name, q);
    }
}

proof fn lemma_first_answering_unique(keys: Seq<Seq<char>>, rem: Seq<int>, name: Seq<char>, p: int)
    requires
        0 <= p < rem.len(),
        spec_key_matches(keys[rem[p]], name),
        forall|q: int| 0 <= q < p ==> !spec_key_matches(keys[rem[q]], name),
    ensures
        spec_first_answering(keys, rem, name) == Some(p),
{
    lemma_first_answering(keys, rem, name);
    let k = spec_first_answering(keys, rem, name)->0;
    if k < p {
        assert(!spec_key_matches(keys[rem[k]], name));
    }
    if p < k {
        assert(!spec_key_matches(keys[rem[p]], name));
    }
}

/// What placing keeps true: the placed and the left entries together list
/// each of `0..n` exactly once.
proof fn lemma_place_permutes(keys: Seq<Seq<char>>, order: Seq<Seq<char>>)
    ensures
        ({
            let (placed, left) = spec_place(keys, order, Seq::new(keys.len(), |i: int| i));
            spec_is_permutation(placed + left, keys.len())
        }),
    decreases order.len(),
{
    let n = keys.len();
    let id = Seq::new(n, |i: int| i);
    if order.len() == 0 {
        assert(spec_place(keys, order, id) == (Seq::<int>::empty(), id));
        assert(Seq::<int>::empty() + id =~= id);
        assert(id.no_duplicates());
    } else {
        lemma_place_permutes(keys, order.drop_last());
        let (placed, left) = spec_place(keys, order.drop_last(), id);
        lemma_first_answering(keys, left, order.last());
        match spec_first_answering(keys, left, order.last()) {
            Some(p) => {
                let placed2 = placed.push(left[p]);
                let left2 = left.remove(p);
                let before = placed + left;
                let after = placed2 + left2;
                assert(after.len() == before.len());
                assert forall|i: int| 0 <= i < after.len() implies 0 <= #[trigger] after[i] < n by {
                    if i < placed.len() {
                        assert(after[i] == before[i]);
                    } else if i == placed.len() {
                        assert(after[i] == before[placed.len() + p]);
                    } else if i < placed.len() + 1 + p {
                        assert(after[i] == before[i - 1]);
                    } else {
                        assert(after[i] == before[i]);
                    }
                }
                // Each position of `after` holds the element of one position of `before`.
                assert forall|i: int, j: int| 0 <= i < after.len() && 0 <= j < after.len() && i != j implies after[i]
                    != after[j] by {
                    let bi = if i < placed.len() {
                        i
                    } else if i == placed.len() {
                        placed.len() + p
                    } else if i < placed.len() + 1 + p {
                        i - 1
                    } else {
                        i
                    };
                    let bj = if j < placed.len() {
                        j
                    } else if j == placed.len() {
                        placed.len() + p
                    } else if j < placed.len() + 1 + p {
                        j - 1
                    } else {
                        j
                    };
                    assert(after[i] == before[bi]);
                    assert(after[j] == before[bj]);
                    assert(bi != bj);
                }
            },
            None => {},
        }
    }
}

/// Reordering only moves entries: the new order lists each entry exactly
/// once, whatever the requested order.
pub proof fn law_reorder_is_permutation(keys: Seq<Seq<char>>, order: Seq<Seq<char>>)
    ensures
        spec_is_permutation(spec_reorder(keys, order), keys.len()),
{
    lemma_place_permutes(keys, order);
}

/// The views of a list of strings.
pub open spec fn spec_texts(v: Seq<String>) -> Seq<Seq<char>> {
    v.map_values(|s: String| s@)
}

fn first_answering(rem_keys: &Vec<String>, name: &str, lower: &str) -> (r: Option<usize>)
    requires
        lower@ == spec_to_lowercase(name@),
    ensures
        match r {
            Some(p) => p < rem_keys@.len() && spec_key_matches(rem_keys@[p as int]@, name@) && forall|q: int|
                0 <= q < p ==> !spec_key_matches(rem_keys@[q]@, name@),
            None => forall|q: int| 0 <= q < rem_keys@.len() ==> !spec_key_matches(rem_keys@[q]@, name@),
        },
{
    let mut i: usize = 0;
    while i < rem_keys.len()
        invariant
            i <= rem_keys@.len(),
            lower@ == spec_to_lowercase(name@),
            forall|q: int| 0 <= q < i ==> !spec_key_matches(rem_keys@[q]@, name@),
        decreases rem_keys.len() - i,
    {
        let k = to_lowercase(rem_keys[i].as_str());
        if str_eq(k.as_str(), lower) || str_eq(rem_keys[i].as_str(), name) {
            return Some(i);
        }
        i = i + 1;
    }
    None
}

/// Puts the entries of the `watch` list in the requested order: each name
/// of `order` in turn moves the first not yet placed entry whose key
/// (`keys`, one per entry) answers to it; the entries no name placed follow
/// in their old order.
pub fn reorder_entries<T>(entries: Vec<T>, keys: &Vec<String>, order: &[String]) -> (r: Vec<T>)
    requires
        keys@.len() == entries@.len(),
    ensures
        r@ == spec_reorder(spec_texts(keys@), spec_texts(order@)).map_values(|i: int| entries@[i]),
{
    let ghost ks = spec_texts(keys@);
    let ghost os = spec_texts(order@);
    let ghost n = keys@.len();
    let ghost id = Seq::new(n, |i: int| i);
    let ghost original = entries@;
    let mut remaining = entries;
    let mut rem_keys: Vec<String> = Vec::new();
    let mut i: usize = 0;
    while i < keys.len()
        invariant
            i <= keys@.len(),
            rem_keys@ == keys@.take(i as int),
        decreases keys.len() - i,
    {
        rem_keys.push(keys[i].clone());
        assert(keys@.take(i + 1) =~= keys@.take(i as int).push(keys@[i as int]));
        i = i + 1;
    }
    assert(keys@.take(keys@.len() as int) =~= keys@);
    let mut sorted: Vec<T> = Vec::new();
    let ghost mut placed: Seq<int> = Seq::empty();
    let ghost mut rem: Seq<int> = id;
    assert(remaining@ =~= rem.map_values(|j: int| original[j]));
    assert(spec_texts(rem_keys@) =~= rem.map_values(|j: int| ks[j]));
    assert(os.take(0) =~= Seq::<Seq<char>>::empty());
    let mut k: usize = 0;
    while k < order.len()
        invariant
            k <= order@.len(),
            os == spec_texts(order@),
            ks == spec_texts(keys@),
            n == keys@.len(),
            id == Seq::new(n, |i: int| i),
            (placed, rem) == spec_place(ks, os.take(k as int), id),
            remaining@ == rem.map_values(|j: int| original[j]),
            spec_texts(rem_keys@) == rem.map_values(|j: int| ks[j]),
            sorted@ == placed.map_values(|j: int| original[j]),
            rem_keys@.len() == rem.len(),
            remaining@.len() == rem.len(),
            forall|j: int| 0 <= j < rem.len() ==> 0 <= #[trigger] rem[j] < n,
        decreases order.len() - k,
    {
        let name = order[k].as_str();
        let lower = to_lowercase(name);
        let found = first_answering(&rem_keys, name, lower.as_str());
        assert(os.take(k + 1).drop_last() =~= os.take(k as int));
        assert(os.take(k + 1).last() == name@);
        proof {
            assert forall|q: int| 0 <= q < rem.len() implies spec_key_matches(#[trigger] ks[rem[q]], name@)
                == spec_key_matches(rem_keys@[q]@, name@) by {
                assert(spec_texts(rem_keys@)[q] == ks[rem[q]]);
            }
        }
        match found {
            Some(p) => {
                proof {
                    lemma_first_answering_unique(ks, rem, name@, p as int);
                }
                let ghost old_rk = rem_keys@;
                let item = remaining.remove(p);
                rem_keys.remove(p);
                sorted.push(item);
                proof {
                    let old_rem = rem;
                    placed = placed.push(old_rem[p as int]);
                    rem = old_rem.remove(p as int);
                    assert(remaining@ =~= rem.map_values(|j: int| original[j]));
                    assert forall|j: int| 0 <= j < rem.len() implies spec_texts(rem_keys@)[j] == ks[rem[j]] by {
                        if j < p {
                            assert(rem_keys@[j] == old_rk[j]);
                            assert(spec_texts(old_rk)[j] == ks[old_rem[j]]);
                        } else {
                            assert(rem_keys@[j] == old_rk[j + 1]);
                            assert(spec_texts(old_rk)[j + 1] == ks[old_rem[j + 1]]);
                        }
                    }
                    assert(spec_texts(rem_keys@) =~= rem.map_values(|j: int| ks[j]));
                    assert(sorted@ =~= placed.map_values(|j: int| original[j]));
                    assert forall|j: int| 0 <= j < rem.len() implies 0 <= #[trigger] rem[j] < n by {
                        if j < p {
                            assert(rem[j] == old_rem[j]);
                        } else {
                            assert(rem[j] == old_rem[j + 1]);
                        }
                    }
                }
            },
            None => {
                proof {
                    lemma_first_answering(ks, rem, name@);
                    assert(spec_first_answering(ks, rem, name@) is None);
                }
            },
        }
        k = k + 1;
    }
    assert(os.take(order@.len() as int) =~= os);
    let ghost before = sorted@;
    sorted.append(&mut remaining);
    assert(sorted@ =~= (placed + rem).map_values(|j: int| original[j]));
    sorted
}

/// The shape of a configuration document as far as its `general` section
/// is concerned.
#[derive(Debug, Clone, Copy, PartialEq, Eq)]
pub enum GeneralShape {
    /// The document root is not a mapping.
    NotMapping,
    /// The root mapping has no `general` key.
    Missing,
    /// `general` is a mapping.
    Mapping,
    /// `general` holds something other than a mapping.
    Other,
}

/// How the document changes when `general.debug` is set.
#[derive(Debug, Clone, Copy, PartialEq, Eq)]
pub enum DebugEdit {
    /// The document is written back as it was.
    Unchanged,
    /// A `general` mapping holding only `debug` is added to the root.
    AddGeneral,
    /// `debug` is set inside the existing `general` mapping.
    SetInGeneral,
}

/// Setting `general.debug`: a missing `general` section is created, an
/// existing mapping gets the key; a root or a `general` that is not a
/// mapping is left alone.
pub fn debug_flag_edit(shape: GeneralShape) -> (r: DebugEdit)
    ensures
        r == (match shape {
            GeneralShape::NotMapping | GeneralShape::Other => DebugEdit::Unchanged,
            GeneralShape::Missing => DebugEdit::AddGeneral,
            GeneralShape::Mapping => DebugEdit::SetInGeneral,
        }),
{
    match shape {
        GeneralShape::NotMapping => DebugEdit::Unchanged,
        GeneralShape::Missing => DebugEdit::AddGeneral,
        GeneralShape::Mapping => DebugEdit::SetInGeneral,
        GeneralShape::Other => DebugEdit::Unchanged,
    }
}

/// The entries of the document's root mapping, once untagged.
pub open spec fn spec_root(doc: YamlValue) -> Option<Seq<(YamlValue, YamlValue)>> {
    match spec_untag(doc) {
        YamlValue::Mapping(m) => Some(m@),
        _ => None,
    }
}

/// The items of a sequence, once untagged.
pub open spec fn spec_sequence(v: YamlValue) -> Option<Seq<YamlValue>> {
    match spec_untag(v) {
        YamlValue::Sequence(s) => Some(s@),
        _ => None,
    }
}

/// The entry uses the preset `name`: its `preset` is the string `name`.
pub open spec fn spec_entry_uses(e: YamlValue, name: Seq<char>) -> bool {
    spec_get(e, "preset"@) matches Some(v) && spec_key_is(v, name)
}

/// `x` is the entry `{preset: name}`.
pub open spec fn spec_preset_entry(x: YamlValue, name: Seq<char>) -> bool {
    x matches YamlValue::Mapping(m) && m@.len() == 1 && spec_key_is(m@[0].0, "preset"@) && spec_key_is(
        m@[0].1,
        name,
    )
}

/// The root mapping `m2` is `m` with the value at `i` replaced by a
/// sequence whose items are `items`, the key and every other entry kept.
pub open spec fn spec_replaced_list(
    m: Seq<(YamlValue, YamlValue)>,
    i: int,
    m2: Seq<(YamlValue, YamlValue)>,
    items: Seq<YamlValue>,
) -> bool {
    &&& m2.len() == m.len()
    &&& forall|j: int| 0 <= j < m.len() && j != i ==> #[trigger] m2[j] == m[j]
    &&& m2[i].0 == m[i].0
    &&& spec_sequence(m2[i].1) == Some(items)
}

fn preset_entry(name: &str) -> (r: YamlValue)
    ensures
        spec_preset_entry(r, name@),
{
    let mut m: Vec<(YamlValue, YamlValue)> = Vec::new();
    m.push((YamlValue::String("preset".to_owned()), YamlValue::String(name.to_owned())));
    YamlValue::Mapping(m)
}

fn entry_uses(e: &YamlValue, name: &str) -> (b: bool)
    ensures
        b == spec_entry_uses(*e, name@),
{
    match get(e, "preset") {
        Some(YamlValue::String(s)) => str_eq(s.as_str(), name),
        _ => false,
    }
}

fn any_uses(es: &Vec<YamlValue>, name: &str) -> (b: bool)
    ensures
        b == exists|j: int| 0 <= j < es@.len() && spec_entry_uses(#[trigger] es@[j], name@),
{
    let mut j: usize = 0;
    while j < es.len()
        invariant
            j <= es@.len(),
            forall|q: int| 0 <= q < j ==> !spec_entry_uses(#[trigger] es@[q], name@),
        decreases es.len() - j,
    {
        if entry_uses(&es[j], name) {
            return true;
        }
        j = j + 1;
    }
    false
}

/// `r` is what adding the preset `name` to the document `doc` gives.
pub open spec fn spec_preset_added(doc: YamlValue, name: Seq<char>, r: Result<Option<YamlValue>, ConfigError>) -> bool {
        match spec_root(doc) {
            None => r matches Err(e) && spec_not_mapping(e),
            Some(m) => match spec_find_key(m, "watch"@) {
                None => r matches Ok(Some(d)) && (spec_root(d) matches Some(m2) && m2.len() == m.len() + 1
                    && m2.take(m.len() as int) == m && spec_key_is(m2.last().0, "watch"@) && (spec_sequence(
                    m2.last().1,
                ) matches Some(items) && items.len() == 1 && spec_preset_entry(items[0], name))),
                Some(i) => match spec_sequence(m[i].1) {
                    None => r matches Err(ConfigError::Parse(x)) && x@ == "watch is not a sequence"@,
                    Some(es) => if exists|j: int| 0 <= j < es.len() && spec_entry_uses(#[trigger] es[j], name) {
                        r matches Ok(None)
                    } else {
                        r matches Ok(Some(d)) && (spec_root(d) matches Some(m2) && (exists|x: YamlValue|
                            spec_preset_entry(x, name) && #[trigger] spec_replaced_list(m, i, m2, es.push(x))))
                    },
                },
            },
        }
}

/// Appends the watch entry `{preset: name}` to the document's `watch`
/// list, creating the list when the root has none; nothing (`None`) when an
/// entry already uses that preset. A root that is not a mapping, or a
/// `watch` that is not a sequence, cannot be edited. Every other entry of
/// the root mapping is kept as it was.
pub fn add_preset_to_doc(doc: YamlValue, name: &str) -> (r: Result<Option<YamlValue>, ConfigError>)
    ensures
        spec_preset_added(doc, name@, r),
{
    let ghost d0 = doc;
    let (tags, root) = untag(doc);
    let mut m = match root {
        YamlValue::Mapping(m) => m,
        _ => return Err(ConfigError::Parse("config root is not a mapping".to_owned())),
    };
    let ghost m0 = m@;
    let entry = preset_entry(name);
    let ghost x_entry = entry;
    match find_key(&m, "watch") {
        None => {
            let mut items: Vec<YamlValue> = Vec::new();
            items.push(entry);
            m.push((YamlValue::String("watch".to_owned()), YamlValue::Sequence(items)));
            assert(m@.take(m0.len() as int) =~= m0);
            let r: Result<Option<YamlValue>, ConfigError> = Ok(Some(retag(tags, YamlValue::Mapping(m))));
            assert(match spec_root(d0) { Some(mm) => mm == m0, None => false });
            assert(spec_find_key(m0, "watch"@) is None);
            assert(spec_sequence(m@.last().1) == Some(seq![x_entry]));
            assert(spec_preset_added(d0, name@, r));
            r
        },
        Some(i) => {
            let (k, v) = m.remove(i);
            let (vtags, inner) = untag(v);
            let mut es = match inner {
                YamlValue::Sequence(es) => es,
                _ => return Err(ConfigError::Parse("watch is not a sequence".to_owned())),
            };
            let ghost es0 = es@;
            assert(spec_root(doc) == Some(m0));
            assert(spec_find_key(m0, "watch"@) == Some(i as int));
            assert(v == m0[i as int].1);
            assert(spec_sequence(m0[i as int].1) == Some(es0));
            if any_uses(&es, name) {
                let r: Result<Option<YamlValue>, ConfigError> = Ok(None);
                assert(exists|j: int| 0 <= j < es0.len() && spec_entry_uses(#[trigger] es0[j], name@));
                assert(r matches Ok(None));
                assert(match spec_root(d0) { Some(mm) => mm == m0, None => false });
                assert(match spec_find_key(m0, "watch"@) { Some(ii) => ii == i, None => false });
                assert(match spec_sequence(m0[i as int].1) { Some(ee) => ee == es0, None => false });
                assert(spec_preset_added(d0, name@, r));
                return r;
            }
            let ghost x = entry;
            es.push(entry);
            m.insert(i, (k, retag(vtags, YamlValue::Sequence(es))));
            assert(spec_replaced_list(m0, i as int, m@, es0.push(x)));
            let r: Result<Option<YamlValue>, ConfigError> = Ok(Some(retag(tags, YamlValue::Mapping(m))));
            assert(!(exists|j: int| 0 <= j < es0.len() && spec_entry_uses(#[trigger] es0[j], name@)));
            assert(match spec_root(d0) { Some(mm) => mm == m0, None => false });
            assert(match spec_find_key(m0, "watch"@) { Some(ii) => ii == i, None => false });
            assert(match spec_sequence(m0[i as int].1) { Some(ee) => ee == es0, None => false });
            assert(spec_preset_added(d0, name@, r));
            r
        },
    }
}

/// The entries that do not use the preset `name`, in their order.
pub open spec fn spec_kept(es: Seq<YamlValue>, name: Seq<char>) -> Seq<YamlValue>
    decreases es.len(),
{
    if es.len() == 0 {
        Seq::empty()
    } else {
        let k = spec_kept(es.drop_last(), name);
        if spec_entry_uses(es.last(), name) {
            k
        } else {
            k.push(es.last())
        }
    }
}

fn is_sequence(v: &YamlValue) -> (b: bool)
    ensures
        b == (spec_sequence(*v) is Some),
{
    match crate::yaml::untag_ref(v) {
        YamlValue::Sequence(_) => true,
        _ => false,
    }
}

fn kept_entries(es: Vec<YamlValue>, name: &str) -> (r: Vec<YamlValue>)
    ensures
        r@ == spec_kept(es@, name@),
{
    let ghost es0 = es@;
    let mut rest = es;
    let mut kept: Vec<YamlValue> = Vec::new();
    let ghost mut n: int = 0;
    assert(es0.skip(0) =~= es0);
    assert(es0.take(0) =~= Seq::<YamlValue>::empty());
    while rest.len() > 0
        invariant
            0 <= n <= es0.len(),
            rest@ == es0.skip(n),
            kept@ == spec_kept(es0.take(n), name@),
        decreases rest@.len(),
    {
        let e = rest.remove(0);
        proof {
            assert(es0.take(n + 1).drop_last() =~= es0.take(n));
            assert(es0.take(n + 1).last() == e);
            assert(rest@ =~= es0.skip(n + 1));
            n = n + 1;
        }
        if !entry_uses(&e, name) {
            kept.push(e);
        }
    }
    assert(es0.take(n) =~= es0);
    kept
}

/// `r` is what removing the preset `name` from the document `doc` gives.
pub open spec fn spec_preset_removed(doc: YamlValue, name: Seq<char>, r: Result<YamlValue, ConfigError>) -> bool {
        match spec_root(doc) {
            None => r matches Err(e) && spec_not_mapping(e),
            Some(m) => match spec_find_key(m, "watch"@) {
                Some(i) => match spec_sequence(m[i].1) {
                    Some(es) => r matches Ok(d) && (spec_root(d) matches Some(m2) && spec_replaced_list(
                        m,
                        i,
                        m2,
                        spec_kept(es, name),
                    )),
                    None => r == Ok::<YamlValue, ConfigError>(doc),
                },
                None => r == Ok::<YamlValue, ConfigError>(doc),
            },
        }
}

/// Removes from the document's `watch` list every entry that uses the
/// preset `name`; without a `watch` sequence the document stays as it is.
/// A root that is not a mapping cannot be edited. Every other entry of the
/// root mapping is kept as it was.
pub fn remove_preset_from_doc(doc: YamlValue, name: &str) -> (r: Result<YamlValue, ConfigError>)
    ensures
        spec_preset_removed(doc, name@, r),
{
    let ghost d0 = doc;
    let (tags, root) = untag(doc);
    let mut m = match root {
        YamlValue::Mapping(m) => m,
        _ => return Err(ConfigError::Parse("config root is not a mapping".to_owned())),
    };
    let ghost m0 = m@;
    assert(match spec_root(d0) { Some(mm) => mm == m0, None => false });
    match find_key(&m, "watch") {
        None => {
            let r: Result<YamlValue, ConfigError> = Ok(retag(tags, YamlValue::Mapping(m)));
            assert(spec_find_key(m0, "watch"@) is None);
            assert(spec_preset_removed(d0, name@, r));
            r
        },
        Some(i) => {
            if !is_sequence(&m[i].1) {
                let r: Result<YamlValue, ConfigError> = Ok(retag(tags, YamlValue::Mapping(m)));
                assert(match spec_find_key(m0, "watch"@) { Some(ii) => ii == i, None => false });
                assert(spec_sequence(m0[i as int].1) is None);
                assert(spec_preset_removed(d0, name@, r));
                return r;
            }
            let (k, v) = m.remove(i);
            let (vtags, inner) = untag(v);
            match inner {
                YamlValue::Sequence(es) => {
                    let ghost es0 = es@;
                    let kept = kept_entries(es, name);
                    m.insert(i, (k, retag(vtags, YamlValue::Sequence(kept))));
                    assert(spec_replaced_list(m0, i as int, m@, spec_kept(es0, name@)));
                    let r: Result<YamlValue, ConfigError> = Ok(retag(tags, YamlValue::Mapping(m)));
                    assert(match spec_find_key(m0, "watch"@) { Some(ii) => ii == i, None => false });
                    assert(v == m0[i as int].1);
                    assert(match spec_sequence(m0[i as int].1) { Some(ee) => ee == es0, None => false });
                    assert(spec_preset_removed(d0, name@, r));
                    r
                },
                _ => {
                    assert(false);
                    Err(ConfigError::Parse("watch is not a sequence".to_owned()))
                },
            }
        },
    }
}

/// The text of an optional string value.
pub open spec fn spec_opt_str(o: Option<YamlValue>) -> Option<Seq<char>> {
    match o {
        Some(v) => spec_as_str(v),
        None => None,
    }
}

/// The key a watch entry is ordered by: its `name`, else its `preset`
/// (each when it is a string), else the empty text.
pub open spec fn spec_yaml_entry_key(e: YamlValue) -> Seq<char> {
    match spec_opt_str(spec_get(e, "name"@)) {
        Some(n) => n,
        None => match spec_opt_str(spec_get(e, "preset"@)) {
            Some(p) => p,
            None => Seq::empty(),
        },
    }
}

fn opt_str<'a>(o: Option<&'a YamlValue>) -> (r: Option<&'a str>)
    ensures
        match r {
            Some(s) => spec_opt_str(match o {
                Some(v) => Some(*v),
                None => None,
            }) == Some(s@),
            None => spec_opt_str(match o {
                Some(v) => Some(*v),
                None => None,
            }) is None,
        },
{
    match o {
        Some(v) => as_str(v),
        None => None,
    }
}

/// The key a watch entry is ordered by.
pub fn yaml_entry_key(e: &YamlValue) -> (r: String)
    ensures
        r@ == spec_yaml_entry_key(*e),
{
    match opt_str(get(e, "name")) {
        Some(n) => n.to_owned(),
        None => match opt_str(get(e, "preset")) {
            Some(p) => p.to_owned(),
            None => String::new(),
        },
    }
}

/// `r` is what putting the watch entries of `doc` in the order `order`
/// gives.
pub open spec fn spec_reordered(doc: YamlValue, order: Seq<Seq<char>>, r: Result<YamlValue, ConfigError>) -> bool {
    match spec_root(doc) {
        None => r matches Err(e) && spec_not_mapping(e),
        Some(m) => match spec_find_key(m, "watch"@) {
            Some(i) => match spec_sequence(m[i].1) {
                Some(es) => r matches Ok(d) && (spec_root(d) matches Some(m2) && spec_replaced_list(
                    m,
                    i,
                    m2,
                    spec_reorder(es.map_values(|e: YamlValue| spec_yaml_entry_key(e)), order).map_values(
                        |j: int| es[j],
                    ),
                )),
                None => r == Ok::<YamlValue, ConfigError>(doc),
            },
            None => r == Ok::<YamlValue, ConfigError>(doc),
        },
    }
}

/// Puts the document's watch entries in the order `order` names them (see
/// [`reorder_entries`]); without a `watch` sequence the document stays as
/// it is. A root that is not a mapping cannot be edited. Every other entry
/// of the root mapping is kept as it was.
pub fn reorder_doc(doc: YamlValue, order: &[String]) -> (r: Result<YamlValue, ConfigError>)
    ensures
        spec_reordered(doc, spec_texts(order@), r),
{
    let ghost d0 = doc;
    let (tags, root) = untag(doc);
    let mut m = match root {
        YamlValue::Mapping(m) => m,
        _ => return Err(ConfigError::Parse("config root is not a mapping".to_owned())),
    };
    let ghost m0 = m@;
    assert(match spec_root(d0) { Some(mm) => mm == m0, None => false });
    match find_key(&m, "watch") {
        None => {
            let r: Result<YamlValue, ConfigError> = Ok(retag(tags, YamlValue::Mapping(m)));
            assert(spec_reordered(d0, spec_texts(order@), r));
            r
        },
        Some(i) => {
            if !is_sequence(&m[i].1) {
                let r: Result<YamlValue, ConfigError> = Ok(retag(tags, YamlValue::Mapping(m)));
                assert(match spec_find_key(m0, "watch"@) { Some(ii) => ii == i, None => false });
                assert(spec_sequence(m0[i as int].1) is None);
                assert(spec_reordered(d0, spec_texts(order@), r));
                return r;
            }
            let (k, v) = m.remove(i);
            let (vtags, inner) = untag(v);
            match inner {
                YamlValue::Sequence(es) => {
                    let ghost es0 = es@;
                    let mut keys: Vec<String> = Vec::new();
                    let mut j: usize = 0;
                    while j < es.len()
                        invariant
                            j <= es@.len(),
                            keys@.len() == j,
                            forall|q: int| 0 <= q < j ==> #[trigger] keys@[q]@ == spec_yaml_entry_key(es@[q]),
                        decreases es.len() - j,
                    {
                        keys.push(yaml_entry_key(&es[j]));
                        j = j + 1;
                    }
                    assert(spec_texts(keys@) =~= es0.map_values(|e: YamlValue| spec_yaml_entry_key(e)));
                    let sorted = reorder_entries(es, &keys, order);
                    m.insert(i, (k, retag(vtags, YamlValue::Sequence(sorted))));
                    let r: Result<YamlValue, ConfigError> = Ok(retag(tags, YamlValue::Mapping(m)));
                    assert(match spec_find_key(m0, "watch"@) { Some(ii) => ii == i, None => false });
                    assert(v == m0[i as int].1);
                    assert(match spec_sequence(m0[i as int].1) { Some(ee) => ee == es0, None => false });
                    assert(spec_replaced_list(
                        m0,
                        i as int,
                        m@,
                        spec_reorder(es0.map_values(|e: YamlValue| spec_yaml_entry_key(e)), spec_texts(order@)).map_values(
                            |q: int| es0[q],
                        ),
                    ));
                    assert(spec_reordered(d0, spec_texts(order@), r));
                    r
                },
                _ => {
                    assert(false);
                    Err(ConfigError::Parse("watch is not a sequence".to_owned()))
                },
            }
        },
    }
}

} // verus!
