//! HTML adapter: reads a status string out of a web page and maps it to a
//! status through `status_map`, where a key matches when the extracted string
//! contains it.

use vstd::prelude::*;
use crate::adapter::{AdapterError, AdapterResult};
use crate::adapter::json_api::{spec_config_str, spec_config_str_or};
use crate::config::{ConfigValue, Watch};
use crate::expr::ExprError;
use crate::json::{number_text, spec_get, spec_number_text, str_eq, JsonValue};
use crate::state::WatchStatus;
use crate::strmap::{keys_distinct, map_of, StrMap};
use crate::text::{concat3, contains, opt_view, spec_contains, spec_starts_with, spec_trim, starts_with, str_chars};

verus! {

/// Reads a string value from an adapter configuration.
///
/// Returns `None` when the key is absent or the value is not a string.
pub fn get_config_str(config: &StrMap<ConfigValue>, key: &str) -> (r: Option<String>)
    ensures
        match r {
            Some(s) => crate::adapter::json_api::spec_config_str(config@, key@) == Some(s@),
            None => crate::adapter::json_api::spec_config_str(config@, key@) is None,
        },
{
    crate::adapter::json_api::get_config_str(config, key)
}

/// The string pairs of a configuration mapping; a later pair wins.
pub open spec fn spec_string_map_of(pairs: Seq<(Option<String>, Option<String>)>) -> Map<
    Seq<char>,
    String,
>
    decreases pairs.len(),
{
    if pairs.len() == 0 {
        Map::empty()
    } else {
        let m = spec_string_map_of(pairs.drop_last());
        match pairs.last() {
            (Some(k), Some(v)) => m.insert(k@, v),
            _ => m,
        }
    }
}

/// The string map stored under `key` in an adapter configuration.
pub open spec fn spec_config_string_map(config: Map<Seq<char>, ConfigValue>, key: Seq<char>) -> Map<
    Seq<char>,
    String,
> {
    if config.contains_key(key) {
        match config[key] {
            ConfigValue::Mapping(pairs) => spec_string_map_of(pairs@),
            _ => Map::empty(),
        }
    } else {
        Map::empty()
    }
}

/// Reads a string map from a configuration key whose value is a mapping.
///
/// Returns an empty map when the key is absent or the value is not a mapping.
pub fn get_config_map(config: &StrMap<ConfigValue>, key: &str) -> (r: StrMap<String>)
    ensures
        r@ == spec_config_string_map(config@, key@),
{
    let mut result: StrMap<String> = StrMap::new();
    match config.get(key) {
        Some(ConfigValue::Mapping(pairs)) => {
            let mut i: usize = 0;
            assert(pairs@.take(0) =~= Seq::<(Option<String>, Option<String>)>::empty());
            while i < pairs.len()
                invariant
                    i <= pairs@.len(),
                    result@ == spec_string_map_of(pairs@.take(i as int)),
                decreases pairs.len() - i,
            {
                assert(pairs@.take(i + 1).drop_last() =~= pairs@.take(i as int));
                match &pairs[i] {
                    (Some(k), Some(v)) => {
                        result.insert(k.clone(), v.clone());
                    },
                    _ => {},
                }
                i = i + 1;
            }
            assert(pairs@.take(pairs@.len() as int) =~= pairs@);
        },
        _ => {},
    }
    result
}

/// The status a configuration word names; anything else is unknown.
pub open spec fn spec_parse_status(s: Seq<char>) -> WatchStatus {
    if s == "success"@ {
        WatchStatus::Success
    } else if s == "warning"@ {
        WatchStatus::Warning
    } else if s == "error"@ {
        WatchStatus::Error
    } else if s == "maintenance"@ {
        WatchStatus::Maintenance
    } else {
        WatchStatus::Unknown
    }
}

/// Converts a status string from the config to a [`WatchStatus`] variant.
pub fn parse_status(s: &str) -> (r: WatchStatus)
    ensures
        r == spec_parse_status(s@),
{
    if str_eq(s, "success") {
        WatchStatus::Success
    } else if str_eq(s, "warning") {
        WatchStatus::Warning
    } else if str_eq(s, "error") {
        WatchStatus::Error
    } else if str_eq(s, "maintenance") {
        WatchStatus::Maintenance
    } else {
        WatchStatus::Unknown
    }
}

/// The first entry whose pattern occurs in `extracted`, in entry order.
pub open spec fn spec_first_match(entries: Seq<(String, String)>, extracted: Seq<char>) -> Option<
    (String, String),
>
    decreases entries.len(),
{
    if entries.len() == 0 {
        None
    } else if spec_contains(extracted, entries[0].0@) {
        Some(entries[0])
    } else {
        spec_first_match(entries.drop_first(), extracted)
    }
}

/// Maps an extracted string to a [`WatchStatus`] by checking whether the
/// string *contains* a key of `status_map`: the status that key names, or
/// [`WatchStatus::Unknown`] when no key matches. When several keys match,
/// the one the map lists first decides.
pub fn map_status(extracted: &str, status_map: &StrMap<String>) -> (r: WatchStatus)
    ensures
        r == match spec_first_match(status_map.spec_entries(), extracted@) {
            Some(e) => spec_parse_status(e.1@),
            None => WatchStatus::Unknown,
        },
        (forall|k: Seq<char>| status_map@.contains_key(k) ==> !spec_contains(extracted@, k)) ==> r
            == WatchStatus::Unknown,
        r != WatchStatus::Unknown ==> exists|k: Seq<char>|
            status_map@.contains_key(k) && spec_contains(extracted@, k) && r == spec_parse_status(
                status_map@[k]@,
            ),
        (exists|k: Seq<char>| status_map@.contains_key(k) && spec_contains(extracted@, k)) ==> exists|
            k: Seq<char>,
        |
            status_map@.contains_key(k) && spec_contains(extracted@, k) && r == spec_parse_status(
                status_map@[k]@,
            ),
{
    let entries = status_map.entries();
    let ghost es = entries@;
    let mut i: usize = 0;
    assert(es.skip(0) =~= es);
    while i < entries.len()
        invariant
            i <= es.len(),
            es == entries@,
            es == status_map.spec_entries(),
            keys_distinct(es),
            map_of(es) == status_map@,
            spec_first_match(es, extracted@) == spec_first_match(es.skip(i as int), extracted@),
            forall|j: int| 0 <= j < i ==> !spec_contains(extracted@, #[trigger] es[j].0@),
        decreases entries.len() - i,
    {
        assert(es.skip(i as int).drop_first() =~= es.skip(i + 1));
        assert(es.skip(i as int)[0] == es[i as int]);
        if contains(extracted, entries[i].0.as_str()) {
            proof {
                crate::strmap::lemma_map_of_value(es, i as int);
                assert(spec_first_match(es.skip(i as int), extracted@) == Some(es[i as int]));
            }
            let r = parse_status(entries[i].1.as_str());
            assert(r == spec_parse_status(es[i as int].1@));
            proof {
                let k = es[i as int].0@;
                assert(status_map@.contains_key(k) && spec_contains(extracted@, k) && r == spec_parse_status(
                    status_map@[k]@,
                ));
            }
            return r;
        }
        i = i + 1;
    }
    proof {
        assert forall|k: Seq<char>| status_map@.contains_key(k) implies !spec_contains(
            extracted@,
            k,
        ) by {
            crate::strmap::lemma_map_of_domain(es, k);
        }
    }
    WatchStatus::Unknown
}

/// The status `map_status` gives for `extracted`: `Unknown` when no key of
/// the map occurs in it; otherwise the status an occurring key names (the
/// map's first such key in entry order; the original's map is unordered, so
/// which of several occurring keys decides is left open here).
pub open spec fn spec_html_status(extracted: Seq<char>, m: Map<Seq<char>, String>, r: WatchStatus) -> bool {
    if exists|k: Seq<char>| m.contains_key(k) && spec_contains(extracted, k) {
        exists|k: Seq<char>| m.contains_key(k) && spec_contains(extracted, k) && r == spec_parse_status(m[k]@)
    } else {
        r == WatchStatus::Unknown
    }
}

/// An element picked out of a page: its text (the text of all its
/// descendants, in document order) and its attributes.
pub type PageElement = (String, Vec<(String, String)>);

/// The plain value of a picked element.
pub open spec fn view_element(e: PageElement) -> (Seq<char>, Seq<(Seq<char>, Seq<char>)>) {
    (e.0@, e.1@.map_values(|a: (String, String)| (a.0@, a.1@)))
}

/// The plain value of a selection result.
pub open spec fn view_selection(r: Result<Vec<PageElement>, String>) -> Result<
    Seq<(Seq<char>, Seq<(Seq<char>, Seq<char>)>)>,
    Seq<char>,
> {
    match r {
        Ok(v) => Ok(v@.map_values(|e: PageElement| view_element(e))),
        Err(m) => Err(m@),
    }
}

/// `scraper::Selector::parse`: the description of the error for a selector
/// text that does not parse (its `Debug` text), or none when it parses.
pub uninterp spec fn spec_selector_error(selector: Seq<char>) -> Option<Seq<char>>;

/// The elements `scraper` selects in the document `html` with a valid
/// selector, in document order, each as its text and attributes.
pub uninterp spec fn spec_select(html: Seq<char>, selector: Seq<char>) -> Seq<(Seq<char>, Seq<(Seq<char>, Seq<char>)>)>;

/// Parses `selector` with `scraper::Selector::parse`, parses `html` with
/// `scraper::Html::parse_document` and lists the selected elements with
/// their text (`ElementRef::text`, joined) and attributes. Claims only that
/// a selector error depends on the selector alone and that the elements
/// are those named by [`spec_select`].
#[verifier::external_body]
fn select(html: &str, selector: &str) -> (r: Result<Vec<PageElement>, String>)
    ensures
        match spec_selector_error(selector@) {
            Some(m) => view_selection(r) == Err::<Seq<(Seq<char>, Seq<(Seq<char>, Seq<char>)>)>, Seq<char>>(m),
            None => view_selection(r) == Ok::<Seq<(Seq<char>, Seq<(Seq<char>, Seq<char>)>)>, Seq<char>>(
                spec_select(html@, selector@),
            ),
        },
{
    let sel = scraper::Selector::parse(selector).map_err(|e| format!("{e:?}"))?;
    let doc = scraper::Html::parse_document(html);
    Ok(doc.select(&sel).map(|el| {
        let attrs = el.value().attrs().map(|(k, v)| (k.to_owned(), v.to_owned())).collect();
        (el.text().collect::<String>(), attrs)
    }).collect())
}

/// `regex::Regex::new`: the error message for a pattern that does not
/// compile, or none when it compiles.
pub uninterp spec fn spec_regex_error(pattern: Seq<char>) -> Option<Seq<char>>;

/// The text of the first capture group of the leftmost match of a valid
/// pattern in `text`, if it matches and the group took part.
pub uninterp spec fn spec_first_capture(pattern: Seq<char>, text: Seq<char>) -> Option<Seq<char>>;

/// Compiles `pattern` with `regex::Regex::new` and returns the first
/// capture group of its first match in `text`. Claims only that a compile
/// error depends on the pattern alone and that the capture is the one
/// named by [`spec_first_capture`].
#[verifier::external_body]
fn first_capture(pattern: &str, text: &str) -> (r: Result<Option<String>, String>)
    ensures
        match spec_regex_error(pattern@) {
            Some(m) => r matches Err(e) && e@ == m,
            None => r matches Ok(c) && opt_view(c) == spec_first_capture(pattern@, text@),
        },
{
    let re = regex::Regex::new(pattern).map_err(|e| e.to_string())?;
    Ok(re.captures(text).and_then(|c| c.get(1)).map(|m| m.as_str().to_owned()))
}

/// The value of attribute `name` among `attrs`, if present.
pub open spec fn spec_attr(attrs: Seq<(Seq<char>, Seq<char>)>, name: Seq<char>) -> Option<Seq<char>>
    decreases attrs.len(),
{
    if attrs.len() == 0 {
        None
    } else if attrs[0].0 == name {
        Some(attrs[0].1)
    } else {
        spec_attr(attrs.drop_first(), name)
    }
}

/// What the extract mode `mode` takes from an element: its trimmed text
/// (`text`), its `class` attribute (`class`) or the attribute named after
/// `attr:`, a missing attribute giving the empty text; any other mode names
/// an attribute, and takes its value when the element has it. Otherwise
/// the mode is unknown and takes nothing.
pub open spec fn spec_extract(el: (Seq<char>, Seq<(Seq<char>, Seq<char>)>), mode: Seq<char>) -> Option<Seq<char>> {
    if mode == "text"@ {
        Some(spec_trim(el.0))
    } else if mode == "class"@ || spec_starts_with(mode, "attr:"@) {
        let name = if mode == "class"@ {
            "class"@
        } else {
            mode.skip(5)
        };
        Some(
            match spec_attr(el.1, name) {
                Some(v) => v,
                None => Seq::empty(),
            },
        )
    } else {
        spec_attr(el.1, mode)
    }
}

fn find_attr(attrs: &Vec<(String, String)>, name: &str) -> (r: Option<String>)
    ensures
        opt_view(r) == spec_attr(attrs@.map_values(|a: (String, String)| (a.0@, a.1@)), name@),
{
    let ghost va = attrs@.map_values(|a: (String, String)| (a.0@, a.1@));
    let mut i: usize = 0;
    assert(va.skip(0) =~= va);
    while i < attrs.len()
        invariant
            i <= attrs@.len(),
            va == attrs@.map_values(|a: (String, String)| (a.0@, a.1@)),
            spec_attr(va, name@) == spec_attr(va.skip(i as int), name@),
        decreases attrs.len() - i,
    {
        assert(va.skip(i as int).drop_first() =~= va.skip(i + 1));
        if str_eq(attrs[i].0.as_str(), name) {
            return Some(attrs[i].1.clone());
        }
        i = i + 1;
    }
    None
}

fn attr_value(attrs: &Vec<(String, String)>, name: &str) -> (r: String)
    ensures
        r@ == match spec_attr(attrs@.map_values(|a: (String, String)| (a.0@, a.1@)), name@) {
            Some(v) => v,
            None => Seq::empty(),
        },
{
    let ghost va = attrs@.map_values(|a: (String, String)| (a.0@, a.1@));
    let mut i: usize = 0;
    assert(va.skip(0) =~= va);
    while i < attrs.len()
        invariant
            i <= attrs@.len(),
            va == attrs@.map_values(|a: (String, String)| (a.0@, a.1@)),
            spec_attr(va, name@) == spec_attr(va.skip(i as int), name@),
        decreases attrs.len() - i,
    {
        assert(va.skip(i as int).drop_first() =~= va.skip(i + 1));
        if str_eq(attrs[i].0.as_str(), name) {
            return attrs[i].1.clone();
        }
        i = i + 1;
    }
    proof {
        reveal_strlit("");
    }
    "".to_owned()
}

fn extract_from(el: &PageElement, mode: &str) -> (r: Option<String>)
    ensures
        opt_view(r) == spec_extract(view_element(*el), mode@),
{
    if str_eq(mode, "text") {
        Some(crate::text::trim(el.0.as_str()))
    } else if str_eq(mode, "class") {
        Some(attr_value(&el.1, "class"))
    } else if starts_with(mode, "attr:") {
        proof {
            reveal_strlit("attr:");
        }
        let cs = str_chars(mode);
        let name = crate::text::substring(&cs, 5, cs.len());
        assert(name@ =~= mode@.skip(5));
        Some(attr_value(&el.1, name.as_str()))
    } else {
        find_attr(&el.1, mode)
    }
}

/// A JSON object with the single member `key`.
pub open spec fn spec_single_member(v: JsonValue, key: Seq<char>, value: Seq<char>) -> bool {
    v matches JsonValue::Object(fields) && fields@.len() == 1 && fields@[0].0@ == key
        && crate::watcher::spec_string_value_is(Some(fields@[0].1), value)
}

/// A parse error with the message `m`.
pub open spec fn spec_parse_error(r: Result<AdapterResult, AdapterError>, m: Seq<char>) -> bool {
    r matches Err(AdapterError::ParseError(x)) && x@ == m
}

/// `r` is what the `css` mode gives for the page `html`.
pub open spec fn spec_css_result(html: Seq<char>, config: Map<Seq<char>, ConfigValue>, r: Result<AdapterResult, AdapterError>) -> bool {
    match spec_config_str(config, "selector"@) {
        None => spec_parse_error(r, "html css mode: missing 'selector'"@),
        Some(sel) => match spec_selector_error(sel) {
            Some(m) => spec_parse_error(r, "invalid CSS selector: "@ + m),
            None => {
                let els = spec_select(html, sel);
                let extract = spec_config_str_or(config, "extract"@, "text"@);
                if els.len() == 0 {
                    r matches Ok(res) && res.status == WatchStatus::Unknown && res.description@
                        == "no element matched selector: "@ + sel && res.data == JsonValue::Null
                        && res.components@.len() == 0
                } else {
                    match spec_extract(els[0], extract) {
                        None => spec_parse_error(r, "unknown extract mode: "@ + extract),
                        Some(x) => r matches Ok(res) && spec_html_status(
                            x,
                            spec_config_string_map(config, "status_map"@),
                            res.status,
                        ) && res.description@ == x && spec_single_member(res.data, "extracted"@, x)
                            && res.components@.len() == 0,
                    }
                }
            },
        },
    }
}

/// Runs the `css` extraction mode: selects the first element matching the
/// `selector` key, extracts its text, its class or one of its attributes
/// (the `extract` key: `text` by default, `class`, `attr:NAME`, or an
/// attribute name the element has) and maps
/// the result through `status_map`.
pub fn run_css_mode(html: &str, config: &StrMap<ConfigValue>) -> (r: Result<AdapterResult, AdapterError>)
    ensures
        spec_css_result(html@, config@, r),
{
    proof {
        reveal_strlit("");
    }
    let selector = match get_config_str(config, "selector") {
        Some(s) => s,
        None => return Err(AdapterError::ParseError("html css mode: missing 'selector'".to_owned())),
    };
    let els = match select(html, selector.as_str()) {
        Ok(v) => v,
        Err(m) => return Err(AdapterError::ParseError(concat3("invalid CSS selector: ", m.as_str(), ""))),
    };
    let status_map = get_config_map(config, "status_map");
    let extract = crate::adapter::json_api::get_config_str(config, "extract");
    let extract: String = match extract {
        Some(e) => e,
        None => "text".to_owned(),
    };
    assert(els@.len() == spec_select(html@, selector@).len());
    if els.len() == 0 {
        return Ok(
            AdapterResult {
                status: WatchStatus::Unknown,
                description: concat3("no element matched selector: ", selector.as_str(), ""),
                data: JsonValue::Null,
                components: Vec::new(),
            },
        );
    }
    assert(view_element(els@[0]) == spec_select(html@, selector@)[0]);
    let extracted = match extract_from(&els[0], extract.as_str()) {
        Some(x) => x,
        None => return Err(AdapterError::ParseError(concat3("unknown extract mode: ", extract.as_str(), ""))),
    };
    let status = map_status(extracted.as_str(), &status_map);
    let mut fields: Vec<(String, JsonValue)> = Vec::new();
    fields.push(("extracted".to_owned(), JsonValue::String(extracted.clone())));
    Ok(AdapterResult { status, description: extracted, data: JsonValue::Object(fields), components: Vec::new() })
}

/// The text of the first element whose text contains `m`.
pub open spec fn spec_first_containing(els: Seq<(Seq<char>, Seq<(Seq<char>, Seq<char>)>)>, m: Seq<char>) -> Option<
    Seq<char>,
>
    decreases els.len(),
{
    if els.len() == 0 {
        None
    } else if spec_contains(els[0].0, m) {
        Some(els[0].0)
    } else {
        spec_first_containing(els.drop_first(), m)
    }
}

/// The text of a scalar status value: a string as it is, a number as it is
/// written, `true`, `false` or `null`.
pub open spec fn spec_scalar_value_text(v: JsonValue) -> Seq<char> {
    match v {
        JsonValue::String(s) => s@,
        JsonValue::Number(n) => spec_number_text(n),
        JsonValue::Bool(b) => if b {
            "true"@
        } else {
            "false"@
        },
        _ => "null"@,
    }
}

/// `t` is the text a status value is extracted as: a scalar's text, or for
/// an array or object what `show` writes it as (its JSON text).
pub open spec fn spec_value_text<S>(show: S, v: JsonValue, t: Seq<char>) -> bool where S: Fn(&JsonValue) -> String {
    match v {
        JsonValue::Array(_) | JsonValue::Object(_) => exists|shown: String|
            #[trigger] show.ensures((&v,), shown) && shown@ == t,
        _ => t == spec_scalar_value_text(v),
    }
}

/// The outcome once the embedded JSON text `j` has been found: parsed by
/// `parse_json`, the status expression evaluated by `eval`, the result's
/// text mapped through the status map.
pub open spec fn spec_script_outcome<J, E, S>(
    parse_json: J,
    eval: E,
    show: S,
    j: Seq<char>,
    status_field: Seq<char>,
    m: Map<Seq<char>, String>,
    r: Result<AdapterResult, AdapterError>,
) -> bool where
    J: Fn(&str) -> Result<JsonValue, String>,
    E: Fn(&str, &JsonValue) -> Result<JsonValue, ExprError>,
    S: Fn(&JsonValue) -> String,
 {
    exists|x: &str, p: Result<JsonValue, String>|
        x@ == j && #[trigger] parse_json.ensures((x,), p) && match p {
            Err(e) => spec_parse_error(r, "failed to parse extracted JSON: "@ + e@),
            Ok(doc) => exists|res: Result<JsonValue, ExprError>|
                #[trigger] crate::watcher::spec_evaluates(eval, status_field, doc, res) && match res {
                    Err(e) => spec_parse_error(
                        r,
                        "failed to evaluate status_field expression: "@ + crate::expr::error::spec_expr_error_message(e),
                    ),
                    Ok(v) => r matches Ok(out) && spec_value_text(show, v, out.description@) && spec_html_status(
                        out.description@,
                        m,
                        out.status,
                    ) && out.data == doc && out.components@.len() == 0,
                },
        }
}

fn value_text<S>(v: &JsonValue, show: &S) -> (r: String) where S: Fn(&JsonValue) -> String
    requires
        forall|x: &JsonValue| show.requires((x,)),
    ensures
        spec_value_text(*show, *v, r@),
{
    match v {
        JsonValue::String(s) => s.clone(),
        JsonValue::Number(n) => number_text(n),
        JsonValue::Bool(b) => if *b {
            "true".to_owned()
        } else {
            "false".to_owned()
        },
        JsonValue::Null => "null".to_owned(),
        _ => {
            let r = show(v);
            assert(show.ensures((v,), r));
            r
        },
    }
}

fn first_containing<'a>(els: &'a Vec<PageElement>, m: &str) -> (r: Option<&'a String>)
    ensures
        match r {
            Some(t) => spec_first_containing(els@.map_values(|e: PageElement| view_element(e)), m@) == Some(t@),
            None => spec_first_containing(els@.map_values(|e: PageElement| view_element(e)), m@) is None,
        },
{
    let ghost ve = els@.map_values(|e: PageElement| view_element(e));
    let mut i: usize = 0;
    assert(ve.skip(0) =~= ve);
    while i < els.len()
        invariant
            i <= els@.len(),
            ve == els@.map_values(|e: PageElement| view_element(e)),
            spec_first_containing(ve, m@) == spec_first_containing(ve.skip(i as int), m@),
        decreases els.len() - i,
    {
        assert(ve.skip(i as int).drop_first() =~= ve.skip(i + 1));
        assert(ve.skip(i as int)[0] == view_element(els@[i as int]));
        if contains(els[i].0.as_str(), m) {
            return Some(&els[i].0);
        }
        i = i + 1;
    }
    None
}

/// `r` is what the `script_json` mode gives for the page `html`.
pub open spec fn spec_script_result<J, E, S>(
    parse_json: J,
    eval: E,
    show: S,
    html: Seq<char>,
    config: Map<Seq<char>, ConfigValue>,
    r: Result<AdapterResult, AdapterError>,
) -> bool where
    J: Fn(&str) -> Result<JsonValue, String>,
    E: Fn(&str, &JsonValue) -> Result<JsonValue, ExprError>,
    S: Fn(&JsonValue) -> String,
 {
    ({
        let ss = spec_config_str_or(config, "script_selector"@, "script"@);
        let m = spec_config_string_map(config, "status_map"@);
        match spec_config_str(config, "script_match"@) {
            None => spec_parse_error(r, "html script_json mode: missing 'script_match'"@),
            Some(sm) => match spec_config_str(config, "json_regex"@) {
                None => spec_parse_error(r, "html script_json mode: missing 'json_regex'"@),
                Some(jr) => match spec_config_str(config, "status_field"@) {
                    None => spec_parse_error(r, "html script_json mode: missing 'status_field'"@),
                    Some(sf) => match spec_selector_error(ss) {
                        Some(e) => spec_parse_error(r, "invalid script CSS selector: "@ + e),
                        None => match spec_regex_error(jr) {
                            Some(e) => spec_parse_error(r, "invalid json_regex: "@ + e),
                            None => match spec_first_containing(spec_select(html, ss), sm) {
                                None => spec_parse_error(
                                    r,
                                    "no script tag found containing '"@ + sm + "'"@,
                                ),
                                Some(content) => match spec_first_capture(jr, content) {
                                    None => spec_parse_error(r, "json_regex did not match script content"@),
                                    Some(j) => spec_script_outcome(parse_json, eval, show, j, sf, m, r),
                                },
                            },
                        },
                    },
                },
            },
        }
    })
}

/// Runs the `script_json` extraction mode: finds the first element matched
/// by `script_selector` (default `script`) whose text contains
/// `script_match`, takes the first capture group of `json_regex` in it,
/// parses that as JSON (`parse_json`), evaluates `status_field` on it
/// (`eval`) and maps the result's text (`show` writes arrays and objects as
/// JSON) through `status_map`.
pub fn run_script_json_mode<J, E, S>(
    html: &str,
    config: &StrMap<ConfigValue>,
    parse_json: J,
    eval: &E,
    show: &S,
) -> (r: Result<AdapterResult, AdapterError>) where
    J: Fn(&str) -> Result<JsonValue, String>,
    E: Fn(&str, &JsonValue) -> Result<JsonValue, ExprError>,
    S: Fn(&JsonValue) -> String,

    requires
        forall|x: &str| parse_json.requires((x,)),
        forall|x: &str, d: &JsonValue| eval.requires((x, d)),
        forall|x: &JsonValue| show.requires((x,)),
    ensures
        spec_script_result(parse_json, *eval, *show, html@, config@, r),
{
    proof {
        reveal_strlit("");
    }
    let ss = match crate::adapter::json_api::get_config_str(config, "script_selector") {
        Some(x) => x,
        None => "script".to_owned(),
    };
    let script_match = match get_config_str(config, "script_match") {
        Some(x) => x,
        None => return Err(
            AdapterError::ParseError("html script_json mode: missing 'script_match'".to_owned()),
        ),
    };
    let json_regex = match get_config_str(config, "json_regex") {
        Some(x) => x,
        None => return Err(AdapterError::ParseError("html script_json mode: missing 'json_regex'".to_owned())),
    };
    let status_field = match get_config_str(config, "status_field") {
        Some(x) => x,
        None => return Err(
            AdapterError::ParseError("html script_json mode: missing 'status_field'".to_owned()),
        ),
    };
    let status_map = get_config_map(config, "status_map");
    let els = match select(html, ss.as_str()) {
        Ok(v) => v,
        Err(e) => return Err(AdapterError::ParseError(concat3("invalid script CSS selector: ", e.as_str(), ""))),
    };
    match first_capture(json_regex.as_str(), "") {
        Err(e) => return Err(AdapterError::ParseError(concat3("invalid json_regex: ", e.as_str(), ""))),
        Ok(_) => {},
    }
    let content = match first_containing(&els, script_match.as_str()) {
        Some(c) => c,
        None => return Err(
            AdapterError::ParseError(concat3("no script tag found containing '", script_match.as_str(), "'")),
        ),
    };
    let json_str = match first_capture(json_regex.as_str(), content.as_str()) {
        Ok(Some(j)) => j,
        _ => return Err(AdapterError::ParseError("json_regex did not match script content".to_owned())),
    };
    let js: &str = json_str.as_str();
    let p = parse_json(js);
    assert(parse_json.ensures((js,), p));
    let doc = match p {
        Ok(d) => d,
        Err(e) => {
            let r = Err(AdapterError::ParseError(concat3("failed to parse extracted JSON: ", e.as_str(), "")));
            return r;
        },
    };
    let sf: &str = status_field.as_str();
    let res = eval(sf, &doc);
    assert(crate::watcher::spec_evaluates(*eval, sf@, doc, res));
    let v = match res {
        Ok(v) => v,
        Err(e) => {
            let msg = e.message();
            return Err(
                AdapterError::ParseError(concat3("failed to evaluate status_field expression: ", msg.as_str(), "")),
            );
        },
    };
    let extracted = value_text(&v, show);
    let status = map_status(extracted.as_str(), &status_map);
    Ok(AdapterResult { status, description: extracted, data: doc, components: Vec::new() })
}

/// The mode an HTML watch runs in (`css` unless configured) applied to the
/// fetched page; an unknown mode is a parse error.
pub fn run_mode<J, E, S>(
    html: &str,
    config: &StrMap<ConfigValue>,
    parse_json: J,
    eval: &E,
    show: &S,
) -> (r: Result<AdapterResult, AdapterError>) where
    J: Fn(&str) -> Result<JsonValue, String>,
    E: Fn(&str, &JsonValue) -> Result<JsonValue, ExprError>,
    S: Fn(&JsonValue) -> String,

    requires
        forall|x: &str| parse_json.requires((x,)),
        forall|x: &str, d: &JsonValue| eval.requires((x, d)),
        forall|x: &JsonValue| show.requires((x,)),
    ensures
        ({
            let mode = spec_config_str_or(config@, "mode"@, "css"@);
            if mode == "css"@ {
                spec_css_result(html@, config@, r)
            } else if mode == "script_json"@ {
                spec_script_result(parse_json, *eval, *show, html@, config@, r)
            } else {
                spec_parse_error(r, "unknown html mode: "@ + mode)
            }
        }),
{
    proof {
        reveal_strlit("");
    }
    let mode = match crate::adapter::json_api::get_config_str(config, "mode") {
        Some(m) => m,
        None => "css".to_owned(),
    };
    if str_eq(mode.as_str(), "css") {
        run_css_mode(html, config)
    } else if str_eq(mode.as_str(), "script_json") {
        run_script_json_mode(html, config, parse_json, eval, show)
    } else {
        Err(AdapterError::ParseError(concat3("unknown html mode: ", mode.as_str(), "")))
    }
}

/// What an HTML watch needs before its page is fetched: the URL and the
/// adapter configuration.
pub fn requirements(watch: &Watch) -> (r: Result<(&str, &StrMap<ConfigValue>), AdapterError>)
    ensures
        match watch.url {
            None => r matches Err(AdapterError::ParseError(m)) && m@ == "html adapter: missing 'url'"@,
            Some(u) => match watch.adapter_config {
                None => r matches Err(AdapterError::ParseError(m)) && m@ == "html adapter: missing 'adapter_config'"@,
                Some(c) => r matches Ok((x, cfg)) && x@ == u@ && *cfg == c,
            },
        },
{
    let url = match &watch.url {
        Some(u) => u.as_str(),
        None => return Err(AdapterError::ParseError("html adapter: missing 'url'".to_owned())),
    };
    match &watch.adapter_config {
        Some(c) => Ok((url, c)),
        None => Err(AdapterError::ParseError("html adapter: missing 'adapter_config'".to_owned())),
    }
}

} // verus!
