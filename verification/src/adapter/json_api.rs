//! Configuration helpers of the JSON API adapter, shared by the others.
//!
//! The adapter evaluates jq-like expressions (`status_field`,
//! `description_field`, `components_field`, ...) against a JSON payload and
//! maps the raw values through `status_map`.

use vstd::prelude::*;
use crate::adapter::{AdapterError, AdapterResult, ComponentStatus, SpecComponent};
use crate::config::{ConfigValue, Watch};
use crate::expr::ExprError;
use crate::json::{scalar_text, spec_scalar_text, str_eq, JsonValue};
use crate::state::WatchStatus;
use crate::strmap::StrMap;

verus! {

/// The string stored under `key` in an adapter configuration.
pub open spec fn spec_config_str(config: Map<Seq<char>, ConfigValue>, key: Seq<char>) -> Option<
    Seq<char>,
> {
    if config.contains_key(key) {
        match config[key] {
            ConfigValue::Str(s) => Some(s@),
            _ => None,
        }
    } else {
        None
    }
}

/// Returns the string value for `key` in `config`, or `None` if absent or
/// not a string.
pub fn get_config_str(config: &StrMap<ConfigValue>, key: &str) -> (r: Option<String>)
    ensures
        match r {
            Some(s) => spec_config_str(config@, key@) == Some(s@),
            None => spec_config_str(config@, key@) is None,
        },
{
    match config.get(key) {
        Some(ConfigValue::Str(s)) => Some(s.clone()),
        _ => None,
    }
}

/// The status a configuration word names: `success`, `warning`, `error`,
/// `maintenance` or `unknown`.
pub open spec fn spec_parse_watch_status(s: Seq<char>) -> Option<WatchStatus> {
    if s == "success"@ {
        Some(WatchStatus::Success)
    } else if s == "warning"@ {
        Some(WatchStatus::Warning)
    } else if s == "error"@ {
        Some(WatchStatus::Error)
    } else if s == "maintenance"@ {
        Some(WatchStatus::Maintenance)
    } else if s == "unknown"@ {
        Some(WatchStatus::Unknown)
    } else {
        None
    }
}

/// Parses a status word from the configuration.
pub fn parse_watch_status(s: &str) -> (r: Option<WatchStatus>)
    ensures
        r == spec_parse_watch_status(s@),
{
    if str_eq(s, "success") {
        Some(WatchStatus::Success)
    } else if str_eq(s, "warning") {
        Some(WatchStatus::Warning)
    } else if str_eq(s, "error") {
        Some(WatchStatus::Error)
    } else if str_eq(s, "maintenance") {
        Some(WatchStatus::Maintenance)
    } else if str_eq(s, "unknown") {
        Some(WatchStatus::Unknown)
    } else {
        None
    }
}

/// The status map a configuration mapping describes: each string key whose
/// string value names a status; a later entry wins over an earlier one.
pub open spec fn spec_status_map_of(pairs: Seq<(Option<String>, Option<String>)>) -> Map<
    Seq<char>,
    WatchStatus,
>
    decreases pairs.len(),
{
    if pairs.len() == 0 {
        Map::empty()
    } else {
        let m = spec_status_map_of(pairs.drop_last());
        match pairs.last() {
            (Some(k), Some(v)) => match spec_parse_watch_status(v@) {
                Some(st) => m.insert(k@, st),
                None => m,
            },
            _ => m,
        }
    }
}

/// The status map stored under `key` in an adapter configuration.
pub open spec fn spec_config_status_map(config: Map<Seq<char>, ConfigValue>, key: Seq<char>) -> Map<
    Seq<char>,
    WatchStatus,
> {
    if config.contains_key(key) {
        match config[key] {
            ConfigValue::Mapping(pairs) => spec_status_map_of(pairs@),
            _ => Map::empty(),
        }
    } else {
        Map::empty()
    }
}

/// Returns the map from raw strings to statuses nested under `key`. Entries
/// whose value is not a recognised status word are skipped.
pub fn get_config_map(config: &StrMap<ConfigValue>, key: &str) -> (r: StrMap<WatchStatus>)
    ensures
        r@ == spec_config_status_map(config@, key@),
{
    let mut result: StrMap<WatchStatus> = StrMap::new();
    match config.get(key) {
        Some(ConfigValue::Mapping(pairs)) => {
            let mut i: usize = 0;
            assert(pairs@.take(0) =~= Seq::<(Option<String>, Option<String>)>::empty());
            while i < pairs.len()
                invariant
                    i <= pairs@.len(),
                    result@ == spec_status_map_of(pairs@.take(i as int)),
                decreases pairs.len() - i,
            {
                assert(pairs@.take(i + 1).drop_last() =~= pairs@.take(i as int));
                match &pairs[i] {
                    (Some(k), Some(v)) => match parse_watch_status(v.as_str()) {
                        Some(st) => {
                            result.insert(k.clone(), st);
                        },
                        None => {},
                    },
                    _ => {},
                }
                i = i + 1;
            }
            assert(pairs@.take(pairs@.len() as int) =~= pairs@);
        },
        _ => {},
    }
    result
}

/// Looks up `value` in `map` and returns the mapped status, or
/// [`WatchStatus::Unknown`] when not found.
pub fn map_status(value: &str, map: &StrMap<WatchStatus>) -> (r: WatchStatus)
    ensures
        r == (if map@.contains_key(value@) {
            map@[value@]
        } else {
            WatchStatus::Unknown
        }),
{
    match map.get(value) {
        Some(s) => *s,
        None => WatchStatus::Unknown,
    }
}

/// The status `value` maps to, or `Unknown` when it is not in `map`.
pub open spec fn spec_map_status(value: Seq<char>, map: Map<Seq<char>, WatchStatus>) -> WatchStatus {
    if map.contains_key(value) {
        map[value]
    } else {
        WatchStatus::Unknown
    }
}

/// A configured string, or `default` when it is absent.
pub open spec fn spec_config_str_or(config: Map<Seq<char>, ConfigValue>, key: Seq<char>, default: Seq<char>) -> Seq<
    char,
> {
    match spec_config_str(config, key) {
        Some(s) => s,
        None => default,
    }
}

/// The text an evaluation gives for a status: a scalar's text, or the empty
/// text when evaluation failed or gave no scalar.
pub open spec fn spec_eval_text(res: Result<JsonValue, ExprError>) -> Seq<char> {
    match res {
        Ok(v) => match spec_scalar_text(v) {
            Some(t) => t,
            None => Seq::empty(),
        },
        Err(_) => Seq::empty(),
    }
}

/// The string an evaluation gives, if it gives a string.
pub open spec fn spec_eval_str(res: Result<JsonValue, ExprError>) -> Option<Seq<char>> {
    match res {
        Ok(JsonValue::String(s)) => Some(s@),
        _ => None,
    }
}

/// The component built from the evaluated name and status of one item.
pub open spec fn spec_component(
    name: Result<JsonValue, ExprError>,
    status: Result<JsonValue, ExprError>,
    map: Map<Seq<char>, WatchStatus>,
) -> SpecComponent {
    SpecComponent {
        name: match spec_eval_str(name) {
            Some(n) => n,
            None => Seq::empty(),
        },
        status: spec_map_status(spec_eval_text(status), map),
        description: spec_eval_text(status),
    }
}

/// `c` is the component of `item`: built from what `eval` gives for the
/// name and status expressions on it.
pub open spec fn spec_item_component<E>(
    eval: E,
    item: JsonValue,
    name_field: Seq<char>,
    status_field: Seq<char>,
    map: Map<Seq<char>, WatchStatus>,
    c: ComponentStatus,
) -> bool where E: Fn(&str, &JsonValue) -> Result<JsonValue, ExprError> {
    exists|nf: &str, sf: &str, nv: Result<JsonValue, ExprError>, sv: Result<JsonValue, ExprError>|
        nf@ == name_field && sf@ == status_field && #[trigger] eval.ensures((nf, &item), nv)
            && #[trigger] eval.ensures((sf, &item), sv) && c@ == spec_component(nv, sv, map)
}

/// `comps` is the component list of `items`, one component per item.
pub open spec fn spec_components_of<E>(
    eval: E,
    items: Seq<JsonValue>,
    name_field: Seq<char>,
    status_field: Seq<char>,
    map: Map<Seq<char>, WatchStatus>,
    comps: Seq<ComponentStatus>,
) -> bool where E: Fn(&str, &JsonValue) -> Result<JsonValue, ExprError> {
    comps.len() == items.len() && forall|i: int|
        0 <= i < items.len() ==> #[trigger] spec_item_component(eval, items[i], name_field, status_field, map, comps[i])
}

/// `comps` is what the components configuration of `config` extracts from
/// `data`: nothing without a `components_field`; otherwise, when that
/// expression gives an array, one component per element, named by
/// `component_name` (default `.name`) and with the status text of
/// `component_status` (default `.status`) mapped through `map`.
pub open spec fn spec_extracted<E>(
    eval: E,
    config: Map<Seq<char>, ConfigValue>,
    data: JsonValue,
    map: Map<Seq<char>, WatchStatus>,
    comps: Seq<ComponentStatus>,
) -> bool where E: Fn(&str, &JsonValue) -> Result<JsonValue, ExprError> {
    match spec_config_str(config, "components_field"@) {
        None => comps.len() == 0,
        Some(cf) => exists|f: &str, av: Result<JsonValue, ExprError>|
            f@ == cf && #[trigger] eval.ensures((f, &data), av) && match av {
                Ok(JsonValue::Array(items)) => spec_components_of(
                    eval,
                    items@,
                    spec_config_str_or(config, "component_name"@, ".name"@),
                    spec_config_str_or(config, "component_status"@, ".status"@),
                    map,
                    comps,
                ),
                _ => comps.len() == 0,
            },
    }
}

fn config_str_or(config: &StrMap<ConfigValue>, key: &str, default: &str) -> (r: String)
    ensures
        r@ == spec_config_str_or(config@, key@, default@),
{
    match get_config_str(config, key) {
        Some(s) => s,
        None => default.to_owned(),
    }
}

fn eval_text(res: &Result<JsonValue, ExprError>) -> (r: String)
    ensures
        r@ == spec_eval_text(*res),
{
    proof {
        reveal_strlit("");
    }
    match res {
        Ok(v) => match scalar_text(v) {
            Some(t) => t,
            None => "".to_owned(),
        },
        Err(_) => "".to_owned(),
    }
}

/// Extracts the component list from `data` as the `components_field`,
/// `component_name` and `component_status` keys of `config` describe, with
/// `eval` evaluating the expressions. Empty when those keys are absent or
/// the path does not give an array.
pub fn extract_components<E>(
    config: &StrMap<ConfigValue>,
    data: &JsonValue,
    status_map: &StrMap<WatchStatus>,
    eval: &E,
) -> (r: Vec<ComponentStatus>) where E: Fn(&str, &JsonValue) -> Result<JsonValue, ExprError>
    requires
        forall|e: &str, d: &JsonValue| eval.requires((e, d)),
    ensures
        spec_extracted(*eval, config@, *data, status_map@, r@),
{
    let components_field = match get_config_str(config, "components_field") {
        Some(f) => f,
        None => return Vec::new(),
    };
    let cf: &str = components_field.as_str();
    let av = eval(cf, data);
    assert(eval.ensures((cf, data), av));
    let items = match &av {
        Ok(JsonValue::Array(items)) => items,
        _ => return Vec::new(),
    };
    let name_string = config_str_or(config, "component_name", ".name");
    let status_string = config_str_or(config, "component_status", ".status");
    let name_field: &str = name_string.as_str();
    let status_field: &str = status_string.as_str();
    let mut out: Vec<ComponentStatus> = Vec::new();
    let mut i: usize = 0;
    while i < items.len()
        invariant
            i <= items@.len(),
            out@.len() == i,
            forall|e: &str, d: &JsonValue| eval.requires((e, d)),
            forall|j: int|
                0 <= j < i ==> #[trigger] spec_item_component(
                    *eval,
                    items@[j],
                    name_field@,
                    status_field@,
                    status_map@,
                    out@[j],
                ),
        decreases items.len() - i,
    {
        proof {
            reveal_strlit("");
        }
        let item = &items[i];
        let nv = eval(name_field, item);
        let sv = eval(status_field, item);
        let name = match &nv {
            Ok(JsonValue::String(s)) => s.clone(),
            _ => "".to_owned(),
        };
        proof {
            reveal_strlit("");
        }
        let raw = eval_text(&sv);
        let status = map_status(raw.as_str(), status_map);
        assert(Some(name@) == spec_eval_str(nv) || (spec_eval_str(nv) is None && name@ == Seq::<char>::empty()));
        assert(raw@ == spec_eval_text(sv));
        assert(status == spec_map_status(raw@, status_map@));
        let c = ComponentStatus { name, status, description: raw };
        assert(c@ == spec_component(nv, sv, status_map@));
        let ghost before = out@;
        out.push(c);
        proof {
            assert(eval.ensures((name_field, item), nv) && eval.ensures((status_field, item), sv)
                && out@[i as int]@ == spec_component(nv, sv, status_map@));
            assert(spec_item_component(*eval, items@[i as int], name_field@, status_field@, status_map@, out@[i as int]));
            assert forall|j: int| 0 <= j < i + 1 implies #[trigger] spec_item_component(
                *eval,
                items@[j],
                name_field@,
                status_field@,
                status_map@,
                out@[j],
            ) by {
                if j < i {
                    assert(out@[j] == before[j]);
                }
            }
        }
        i = i + 1;
    }
    out
}

/// The status field expression of a JSON adapter configuration.
pub open spec fn spec_status_field(config: Map<Seq<char>, ConfigValue>) -> Seq<char> {
    spec_config_str_or(config, "status_field"@, ".status"@)
}

/// The status used when the status expression gives no text: the
/// configured `default_status`, or `Unknown`.
pub open spec fn spec_default_status(config: Map<Seq<char>, ConfigValue>) -> WatchStatus {
    match spec_config_str(config, "default_status"@) {
        Some(s) => match spec_parse_watch_status(s) {
            Some(st) => st,
            None => WatchStatus::Unknown,
        },
        None => WatchStatus::Unknown,
    }
}

/// The overall status for the raw status text.
pub open spec fn spec_overall_status(raw: Seq<char>, config: Map<Seq<char>, ConfigValue>) -> WatchStatus {
    if raw.len() == 0 {
        spec_default_status(config)
    } else {
        spec_map_status(raw, spec_config_status_map(config, "status_map"@))
    }
}

/// Builds an [`AdapterResult`] from a parsed JSON payload and the adapter
/// configuration, with `eval` evaluating the configured expressions: the
/// status text of `status_field` mapped through `status_map` (the
/// configured default when it gives no text), the description from
/// `description_field` (falling back to the raw status text), the
/// component list, and the payload itself.
pub fn build_result<E>(config: &StrMap<ConfigValue>, data: JsonValue, eval: &E) -> (r: AdapterResult) where
    E: Fn(&str, &JsonValue) -> Result<JsonValue, ExprError>,
    requires
        forall|e: &str, d: &JsonValue| eval.requires((e, d)),
    ensures
        r.data == data,
        spec_extracted(*eval, config@, data, spec_config_status_map(config@, "status_map"@), r.components@),
        exists|f: &str, sv: Result<JsonValue, ExprError>|
            f@ == spec_status_field(config@) && #[trigger] eval.ensures((f, &data), sv) && r.status
                == spec_overall_status(spec_eval_text(sv), config@) && match spec_config_str(
                config@,
                "description_field"@,
            ) {
                None => r.description@ == spec_eval_text(sv),
                Some(df) => exists|g: &str, dv: Result<JsonValue, ExprError>|
                    g@ == df && #[trigger] eval.ensures((g, &data), dv) && r.description@ == match spec_eval_str(
                        dv,
                    ) {
                        Some(d) => d,
                        None => spec_eval_text(sv),
                    },
            },
{
    let status_string = config_str_or(config, "status_field", ".status");
    let status_field: &str = status_string.as_str();
    let status_map = get_config_map(config, "status_map");
    let sv = eval(status_field, &data);
    let raw_status = eval_text(&sv);
    let default_status = match get_config_str(config, "default_status") {
        Some(s) => match parse_watch_status(s.as_str()) {
            Some(st) => st,
            None => WatchStatus::Unknown,
        },
        None => WatchStatus::Unknown,
    };
    let status = if raw_status.as_str().unicode_len() == 0 {
        default_status
    } else {
        map_status(raw_status.as_str(), &status_map)
    };
    let description = match get_config_str(config, "description_field") {
        Some(df_string) => {
            let df: &str = df_string.as_str();
            let dv = eval(df, &data);
            let d = match &dv {
                Ok(JsonValue::String(s)) => s.clone(),
                _ => raw_status.clone(),
            };
            assert(eval.ensures((df, &data), dv));
            d
        },
        None => raw_status.clone(),
    };
    let components = extract_components(config, &data, &status_map, eval);
    assert(eval.ensures((status_field, &data), sv));
    AdapterResult { status, description, data, components }
}

/// What a JSON API watch needs before its endpoint is fetched: the URL
/// and the adapter configuration.
pub fn requirements(watch: &Watch) -> (r: Result<(&str, &StrMap<ConfigValue>), AdapterError>)
    ensures
        match watch.url {
            None => r matches Err(AdapterError::ParseError(m)) && m@ == "json adapter requires a url"@,
            Some(u) => match watch.adapter_config {
                None => r matches Err(AdapterError::ParseError(m)) && m@ == "json adapter requires adapter_config"@,
                Some(c) => r matches Ok((x, cfg)) && x@ == u@ && *cfg == c,
            },
        },
{
    let url = match &watch.url {
        Some(u) => u.as_str(),
        None => return Err(AdapterError::ParseError("json adapter requires a url".to_owned())),
    };
    match &watch.adapter_config {
        Some(c) => Ok((url, c)),
        None => Err(AdapterError::ParseError("json adapter requires adapter_config".to_owned())),
    }
}

/// A status expression that evaluates to a scalar gives that scalar's text
/// as the raw status: a string as it is, `true` or `false` for a boolean, an
/// integer in decimal. A non-empty raw status is looked up in `status_map`,
/// both for the overall status and for a component's status.
pub proof fn law_scalar_status_text(
    v: JsonValue,
    config: Map<Seq<char>, ConfigValue>,
    name: Result<JsonValue, ExprError>,
    map: Map<Seq<char>, WatchStatus>,
)
    ensures
        v matches JsonValue::Bool(b) ==> ({
            let t = if b { "true"@ } else { "false"@ };
            &&& spec_eval_text(Ok(v)) == t
            &&& spec_overall_status(spec_eval_text(Ok(v)), config) == spec_map_status(
                t,
                spec_config_status_map(config, "status_map"@),
            )
            &&& spec_component(name, Ok(v), map).status == spec_map_status(t, map)
            &&& spec_component(name, Ok(v), map).description == t
        }),
        v matches JsonValue::String(s) ==> ({
            &&& spec_eval_text(Ok(v)) == s@
            &&& s@.len() > 0 ==> spec_overall_status(spec_eval_text(Ok(v)), config) == spec_map_status(
                s@,
                spec_config_status_map(config, "status_map"@),
            )
            &&& spec_component(name, Ok(v), map).status == spec_map_status(s@, map)
        }),
        v matches JsonValue::Number(crate::json::JsonNumber::PosInt(u)) ==> ({
            &&& spec_eval_text(Ok(v)) == crate::text::spec_decimal(u as nat)
            &&& spec_overall_status(spec_eval_text(Ok(v)), config) == spec_map_status(
                crate::text::spec_decimal(u as nat),
                spec_config_status_map(config, "status_map"@),
            )
        }),
{
    reveal_strlit("true");
    reveal_strlit("false");
    if let JsonValue::Number(crate::json::JsonNumber::PosInt(u)) = v {
        assert(crate::text::spec_decimal(u as nat).len() > 0);
    }
}

} // verus!
