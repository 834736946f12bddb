//! Watch evaluation: the status a watch's data and conditions give, the
//! resolved display and detail panels, and the data an adapter's result is
//! presented as.

use vstd::prelude::*;
use crate::adapter::{AdapterError, AdapterResult, ComponentStatus};
use crate::adapter::statuspage::{spec_map_component_status, spec_map_indicator, map_component_status};
use crate::config::{Conditions, Display, DisplayStyle, Watch, WatchType};
use crate::expr::ExprError;
use crate::json::{is_truthy, spec_as_bool, spec_get, spec_get_str, spec_is_truthy, str_eq, JsonNumber, JsonValue};
use crate::provider::{ProviderError, ProviderResult};
use crate::state::{DetailState, DisplayState, ListItemState, WatchState, WatchStatus};
use crate::adapter::html::spec_regex_error;
use crate::config::view_strings;
use crate::path::{json_value_at_path, path_is_malformed, spec_path_well_formed, spec_value_at_path, PathWalk};
use crate::pattern::{interleave, regex_groups, regex_split, spec_interleave, spec_regex_groups, spec_regex_split};
use crate::text::opt_view;

verus! {

/// The pattern of a template placeholder: `{{ .path }}`, the path made of
/// letters, digits, `_`, `.`, `[` and `]`, with optional spaces inside the
/// braces.
pub open spec fn spec_placeholder_pattern() -> Seq<char> {
    "\\{\\{\\s*(\\.[a-zA-Z0-9_.\\[\\]]*)\\s*\\}\\}"@
}

/// `t` is the display text of the primitive `v`: a string as it is, an
/// integer in decimal, a floating-point number as `float_text` writes its
/// bits, `true` or `false`; nothing for null, arrays and objects.
pub open spec fn spec_primitive_text<F>(float_text: F, v: JsonValue, t: Seq<char>) -> bool where F: Fn(u64) -> String {
    match v {
        JsonValue::String(s) => t == s@,
        JsonValue::Number(JsonNumber::Float(bits, _)) => exists|x: String|
            #[trigger] float_text.ensures((bits,), x) && x@ == t,
        JsonValue::Number(n) => t == crate::json::spec_number_text(n),
        JsonValue::Bool(b) => t == if b {
            "true"@
        } else {
            "false"@
        },
        _ => t == Seq::<char>::empty(),
    }
}

/// `t` is what the placeholder whose path is `path` becomes: the display
/// text of the value at that path, or nothing when the path finds no value.
#[verifier::opaque]
pub open spec fn spec_placeholder_text<F>(float_text: F, path: Option<Seq<char>>, data: JsonValue, t: Seq<char>) -> bool where
    F: Fn(u64) -> String,
 {
    match path {
        Some(p) => match spec_value_at_path(p, data) {
            PathWalk::Found(v) => spec_primitive_text(float_text, v, t),
            _ => t == Seq::<char>::empty(),
        },
        None => t == Seq::<char>::empty(),
    }
}

/// The placeholder path, if any, is well formed for `data`.
#[verifier::opaque]
pub open spec fn spec_placeholder_ok(path: Option<Seq<char>>, data: JsonValue) -> bool {
    path matches Some(p) ==> spec_path_well_formed(p, data)
}

/// Every placeholder path of `template` is well formed for `data`.
pub open spec fn spec_template_paths_ok(template: Seq<char>, data: JsonValue) -> bool {
    let gs = spec_regex_groups(spec_placeholder_pattern(), template);
    spec_regex_error(spec_placeholder_pattern()) is None ==> forall|i: int|
        0 <= i < gs.len() ==> #[trigger] spec_placeholder_ok(gs[i], data)
}

/// `r` is `template` with every placeholder replaced by its text (the
/// pattern not compiling would leave the template as it is).
pub open spec fn spec_template_resolved<F>(float_text: F, template: Seq<char>, data: JsonValue, r: Seq<char>) -> bool where
    F: Fn(u64) -> String,
 {
    let pat = spec_placeholder_pattern();
    if spec_regex_error(pat) is Some {
        r == template
    } else {
        let gs = spec_regex_groups(pat, template);
        exists|fills: Seq<Seq<char>>|
            fills.len() == gs.len() && (forall|i: int|
                0 <= i < gs.len() ==> #[trigger] spec_placeholder_text(float_text, gs[i], data, fills[i]))
                && r == spec_interleave(spec_regex_split(pat, template), fills)
    }
}

fn primitive_text<F>(v: &JsonValue, float_text: &F) -> (t: String) where F: Fn(u64) -> String
    requires
        forall|b: u64| float_text.requires((b,)),
    ensures
        spec_primitive_text(*float_text, *v, t@),
{
    match v {
        JsonValue::String(s) => s.clone(),
        JsonValue::Number(JsonNumber::Float(bits, _)) => {
            let x = float_text(*bits);
            assert(float_text.ensures((*bits,), x));
            x
        },
        JsonValue::Number(n) => crate::json::number_text(n),
        JsonValue::Bool(b) => if *b {
            "true".to_owned()
        } else {
            "false".to_owned()
        },
        _ => {
            let t = String::new();
            assert(t@ =~= Seq::<char>::empty());
            t
        },
    }
}

fn placeholder_text<F>(path: &Option<String>, data: &JsonValue, float_text: &F) -> (t: String) where
    F: Fn(u64) -> String,
    requires
        forall|b: u64| float_text.requires((b,)),
        spec_placeholder_ok(opt_view(*path), *data),
    ensures
        spec_placeholder_text(*float_text, opt_view(*path), *data, t@),
{
    reveal(spec_placeholder_ok);
    reveal(spec_placeholder_text);
    match path {
        Some(p) => match json_value_at_path(p.as_str(), data) {
            Some(v) => primitive_text(v, float_text),
            None => String::new(),
        },
        None => String::new(),
    }
}

fn placeholder_malformed(path: &Option<String>, data: &JsonValue) -> (b: bool)
    ensures
        b == !spec_placeholder_ok(opt_view(*path), *data),
{
    reveal(spec_placeholder_ok);
    match path {
        Some(p) => path_is_malformed(p.as_str(), data),
        None => false,
    }
}

/// Replaces all `{{ .field }}` and `{{ .nested.field }}` placeholders in
/// `template` with values extracted from `data` (array elements with
/// `[N]`). If a field cannot be found or the value is not a primitive, the
/// placeholder is replaced with an empty string. Floating-point numbers are
/// written by `float_text`, given their bits.
pub fn resolve_template<F>(template: &str, data: &JsonValue, float_text: &F) -> (r: String) where F: Fn(u64) -> String
    requires
        forall|b: u64| float_text.requires((b,)),
        spec_template_paths_ok(template@, *data),
    ensures
        spec_template_resolved(*float_text, template@, *data, r@),
{
    let pat = "\\{\\{\\s*(\\.[a-zA-Z0-9_.\\[\\]]*)\\s*\\}\\}";
    let pieces = match regex_split(pat, template) {
        Ok(p) => p,
        Err(_) => return template.to_owned(),
    };
    let groups = match regex_groups(pat, template) {
        Ok(g) => g,
        Err(_) => return template.to_owned(),
    };
    let ghost gs = spec_regex_groups(pat@, template@);
    let mut fills: Vec<String> = Vec::new();
    let mut i: usize = 0;
    while i < groups.len()
        invariant
            i <= groups@.len(),
            fills@.len() == i,
            groups@.map_values(|g: Option<String>| opt_view(g)) == gs,
            forall|b: u64| float_text.requires((b,)),
            forall|j: int| 0 <= j < gs.len() ==> #[trigger] spec_placeholder_ok(gs[j], *data),
            forall|j: int|
                0 <= j < i ==> #[trigger] spec_placeholder_text(*float_text, gs[j], *data, fills@[j]@),
        decreases groups.len() - i,
    {
        assert(gs[i as int] == opt_view(groups@[i as int]));
        let t = placeholder_text(&groups[i], data, float_text);
        fills.push(t);
        i = i + 1;
    }
    let r = interleave(&pieces, &fills);
    assert(forall|j: int|
        0 <= j < gs.len() ==> #[trigger] spec_placeholder_text(*float_text, gs[j], *data, view_strings(fills@)[j]));
    r
}

/// Resolves a template as [`resolve_template`] does, or gives `None` when a
/// placeholder's path has a `]` before its `[` (a path the walk cannot
/// slice).
pub fn checked_resolve_template<F>(template: &str, data: &JsonValue, float_text: &F) -> (r: Option<String>) where
    F: Fn(u64) -> String,
    requires
        forall|b: u64| float_text.requires((b,)),
    ensures
        match r {
            Some(s) => spec_template_resolved(*float_text, template@, *data, s@),
            None => !spec_template_paths_ok(template@, *data),
        },
{
    let pat = "\\{\\{\\s*(\\.[a-zA-Z0-9_.\\[\\]]*)\\s*\\}\\}";
    match regex_groups(pat, template) {
        Err(_) => {},
        Ok(groups) => {
            let ghost gs = spec_regex_groups(pat@, template@);
            let mut i: usize = 0;
            while i < groups.len()
                invariant
                    i <= groups@.len(),
                    pat@ == spec_placeholder_pattern(),
                    spec_regex_error(pat@) is None,
                    gs == spec_regex_groups(pat@, template@),
                    groups@.map_values(|g: Option<String>| opt_view(g)) == gs,
                    forall|j: int| 0 <= j < i ==> #[trigger] spec_placeholder_ok(gs[j], *data),
                decreases groups.len() - i,
            {
                assert(gs[i as int] == opt_view(groups@[i as int]));
                if placeholder_malformed(&groups[i], data) {
                    assert(!spec_placeholder_ok(gs[i as int], *data));
                    return None;
                }
                assert(spec_placeholder_ok(gs[i as int], *data));
                i = i + 1;
            }
        },
    }
    Some(resolve_template(template, data, float_text))
}

/// The name a display style is serialised under; no style counts as
/// `status`.
pub open spec fn spec_style_name(style: Option<DisplayStyle>) -> Seq<char> {
    match style {
        Some(DisplayStyle::Status) => "status"@,
        Some(DisplayStyle::Progress) => "progress"@,
        Some(DisplayStyle::Value) => "value"@,
        Some(DisplayStyle::Text) => "text"@,
        Some(DisplayStyle::List) => "list"@,
        None => "status"@,
    }
}

/// Returns the lowercase style name for serialization.
pub fn style_name(style: Option<&DisplayStyle>) -> (r: String)
    ensures
        r@ == spec_style_name(
            match style {
                Some(s) => Some(*s),
                None => None,
            },
        ),
{
    match style {
        Some(DisplayStyle::Status) => "status".to_owned(),
        Some(DisplayStyle::Progress) => "progress".to_owned(),
        Some(DisplayStyle::Value) => "value".to_owned(),
        Some(DisplayStyle::Text) => "text".to_owned(),
        Some(DisplayStyle::List) => "list".to_owned(),
        None => "status".to_owned(),
    }
}

/// Maps statuspage-style status strings to a [`WatchStatus`]: exactly the
/// reading the StatusPage adapter gives its component statuses.
pub fn status_string_to_watch_status(s: &str) -> (r: WatchStatus)
    ensures
        r == spec_map_component_status(s@),
{
    map_component_status(s)
}

/// The status a provider result gives when no conditions are configured: a
/// script succeeds on exit code 0; the other kinds when the data says `up`
/// is `true`.
pub open spec fn spec_default_status(result: ProviderResult, watch_type: WatchType) -> WatchStatus {
    match watch_type {
        WatchType::Script => if result.exit_code == Some(0i32) {
            WatchStatus::Success
        } else {
            WatchStatus::Error
        },
        _ => if spec_as_bool(spec_get(result.data, "up"@)) == Some(true) {
            WatchStatus::Success
        } else {
            WatchStatus::Error
        },
    }
}

/// Derives a default [`WatchStatus`] from a [`ProviderResult`] when no
/// conditions are configured.
pub fn default_status(result: &ProviderResult, watch_type: &WatchType) -> (r: WatchStatus)
    ensures
        r == spec_default_status(*result, *watch_type),
{
    match watch_type {
        WatchType::Script => match result.exit_code {
            Some(0) => WatchStatus::Success,
            _ => WatchStatus::Error,
        },
        _ => {
            let up = match result.data.get("up") {
                Some(v) => v.as_bool(),
                None => None,
            };
            match up {
                Some(true) => WatchStatus::Success,
                _ => WatchStatus::Error,
            }
        },
    }
}

/// What a condition gives when `eval` returned `res` for it: true only for
/// a successful evaluation to a truthy value.
pub open spec fn spec_condition_holds(res: Result<JsonValue, ExprError>) -> bool {
    match res {
        Ok(v) => spec_is_truthy(v),
        Err(_) => false,
    }
}

/// The condition `cond` holds on `data` by `eval`: it is present and some
/// evaluation `eval` may give for it is truthy.
pub open spec fn spec_condition_true<E>(eval: E, cond: Option<String>, data: JsonValue) -> bool where
    E: Fn(&str, &JsonValue) -> Result<JsonValue, ExprError>,
 {
    match cond {
        Some(c) => exists|e: &str, res: Result<JsonValue, ExprError>|
            e@ == c@ && #[trigger] eval.ensures((e, &data), res) && spec_condition_holds(res),
        None => false,
    }
}

/// The condition `cond` does not hold on `data` by `eval`.
pub open spec fn spec_condition_false<E>(eval: E, cond: Option<String>, data: JsonValue) -> bool where
    E: Fn(&str, &JsonValue) -> Result<JsonValue, ExprError>,
 {
    match cond {
        Some(c) => exists|e: &str, res: Result<JsonValue, ExprError>|
            e@ == c@ && #[trigger] eval.ensures((e, &data), res) && !spec_condition_holds(res),
        None => true,
    }
}

fn condition_holds<E>(eval: &E, cond: &Option<String>, data: &JsonValue) -> (r: bool) where
    E: Fn(&str, &JsonValue) -> Result<JsonValue, ExprError>,

    requires
        forall|e: &str, d: &JsonValue| eval.requires((e, d)),
    ensures
        r ==> spec_condition_true(*eval, *cond, *data),
        !r ==> spec_condition_false(*eval, *cond, *data),
{
    match cond {
        Some(c) => {
            let e: &str = c.as_str();
            let res = eval(e, data);
            assert(eval.ensures((e, data), res));
            match &res {
                Ok(v) => is_truthy(v),
                Err(_) => false,
            }
        },
        None => false,
    }
}

/// `r` is the status the conditions give on `data`: the first of error,
/// warning, maintenance and success whose condition holds, each earlier one
/// not holding; `Unknown` when none holds.
pub open spec fn spec_conditions_status<E>(eval: E, conditions: Conditions, data: JsonValue, r: WatchStatus) -> bool where
    E: Fn(&str, &JsonValue) -> Result<JsonValue, ExprError>,
 {
    &&& r == WatchStatus::Error ==> spec_condition_true(eval, conditions.error, data)
    &&& r == WatchStatus::Warning ==> spec_condition_false(eval, conditions.error, data)
        && spec_condition_true(eval, conditions.warning, data)
    &&& r == WatchStatus::Maintenance ==> spec_condition_false(eval, conditions.error, data)
        && spec_condition_false(eval, conditions.warning, data) && spec_condition_true(
        eval,
        conditions.maintenance,
        data,
    )
    &&& r == WatchStatus::Success ==> spec_condition_false(eval, conditions.error, data)
        && spec_condition_false(eval, conditions.warning, data) && spec_condition_false(
        eval,
        conditions.maintenance,
        data,
    ) && spec_condition_true(eval, conditions.success, data)
    &&& r == WatchStatus::Unknown ==> spec_condition_false(eval, conditions.error, data)
        && spec_condition_false(eval, conditions.warning, data) && spec_condition_false(
        eval,
        conditions.maintenance,
        data,
    ) && spec_condition_false(eval, conditions.success, data)
}

/// Determines the [`WatchStatus`] from the conditions, checked in priority
/// order error > warning > maintenance > success: the first whose
/// expression evaluates (by `eval`) to a truthy value decides; when none
/// does, the status is `Unknown`. A condition that fails to evaluate does
/// not hold. (Each status is stated with what the evaluations gave; for an
/// evaluator that answers each question one way, this fixes the result.)
pub fn status_from_conditions<E>(conditions: &Conditions, data: &JsonValue, eval: &E) -> (r: WatchStatus) where
    E: Fn(&str, &JsonValue) -> Result<JsonValue, ExprError>,

    requires
        forall|e: &str, d: &JsonValue| eval.requires((e, d)),
    ensures
        spec_conditions_status(*eval, *conditions, *data, r),
{
    if condition_holds(eval, &conditions.error, data) {
        return WatchStatus::Error;
    }
    if condition_holds(eval, &conditions.warning, data) {
        return WatchStatus::Warning;
    }
    if condition_holds(eval, &conditions.maintenance, data) {
        return WatchStatus::Maintenance;
    }
    if condition_holds(eval, &conditions.success, data) {
        return WatchStatus::Success;
    }
    WatchStatus::Unknown
}

} // verus!

verus! {

/// The StatusPage component status word a status is presented as.
pub open spec fn spec_component_word(s: WatchStatus) -> Seq<char> {
    match s {
        WatchStatus::Success => "operational"@,
        WatchStatus::Warning => "degraded_performance"@,
        WatchStatus::Error => "major_outage"@,
        WatchStatus::Maintenance => "under_maintenance"@,
        WatchStatus::Unknown => "unknown"@,
    }
}

/// The StatusPage indicator word a status is presented as.
pub open spec fn spec_indicator_word(s: WatchStatus) -> Seq<char> {
    match s {
        WatchStatus::Success => "none"@,
        WatchStatus::Warning => "minor"@,
        WatchStatus::Error => "major"@,
        WatchStatus::Maintenance => "maintenance"@,
        WatchStatus::Unknown => "unknown"@,
    }
}

/// A status counts as up unless it is `Error` or `Unknown`.
pub open spec fn spec_status_up(s: WatchStatus) -> bool {
    s == WatchStatus::Success || s == WatchStatus::Warning || s == WatchStatus::Maintenance
}

/// `v` is an object with exactly the members `keys`, in that order.
pub open spec fn spec_has_keys(v: JsonValue, keys: Seq<Seq<char>>) -> bool {
    v matches JsonValue::Object(fields) && fields@.len() == keys.len() && forall|i: int|
        0 <= i < keys.len() ==> #[trigger] fields@[i].0@ == keys[i]
}

/// `v` presents component `c`: `{"description", "name", "status"}` with the
/// status as its StatusPage word.
pub open spec fn spec_component_json(v: JsonValue, c: ComponentStatus) -> bool {
    &&& spec_has_keys(v, seq!["description"@, "name"@, "status"@])
    &&& spec_get_str(v, "description"@) == Some(c.description@)
    &&& spec_get_str(v, "name"@) == Some(c.name@)
    &&& spec_get_str(v, "status"@) == Some(spec_component_word(c.status))
}

/// `data` presents an adapter result the way a StatusPage summary is laid
/// out: `components` (each presented as above), `status` with `description`
/// and `indicator`, and `up`.
pub open spec fn spec_adapter_data(data: JsonValue, r: AdapterResult) -> bool {
    &&& spec_has_keys(data, seq!["components"@, "status"@, "up"@])
    &&& spec_get(data, "components"@) matches Some(JsonValue::Array(items)) && items@.len()
        == r.components@.len() && forall|i: int|
        0 <= i < items@.len() ==> spec_component_json(#[trigger] items@[i], r.components@[i])
    &&& spec_get(data, "status"@) matches Some(st) && spec_has_keys(st, seq!["description"@, "indicator"@])
        && spec_get_str(st, "description"@) == Some(r.description@) && spec_get_str(st, "indicator"@) == Some(
        spec_indicator_word(r.status),
    )
    &&& spec_get(data, "up"@) == Some(JsonValue::Bool(spec_status_up(r.status)))
}

fn status_word(s: WatchStatus) -> (r: String)
    ensures
        r@ == spec_component_word(s),
{
    match s {
        WatchStatus::Success => "operational".to_owned(),
        WatchStatus::Warning => "degraded_performance".to_owned(),
        WatchStatus::Error => "major_outage".to_owned(),
        WatchStatus::Maintenance => "under_maintenance".to_owned(),
        WatchStatus::Unknown => "unknown".to_owned(),
    }
}

fn indicator_word(s: WatchStatus) -> (r: String)
    ensures
        r@ == spec_indicator_word(s),
{
    match s {
        WatchStatus::Success => "none".to_owned(),
        WatchStatus::Warning => "minor".to_owned(),
        WatchStatus::Error => "major".to_owned(),
        WatchStatus::Maintenance => "maintenance".to_owned(),
        WatchStatus::Unknown => "unknown".to_owned(),
    }
}

fn object3(k0: &str, v0: JsonValue, k1: &str, v1: JsonValue, k2: &str, v2: JsonValue) -> (r: JsonValue)
    requires
        k0@ != k1@,
        k0@ != k2@,
        k1@ != k2@,
    ensures
        spec_has_keys(r, seq![k0@, k1@, k2@]),
        spec_get(r, k0@) == Some(v0),
        spec_get(r, k1@) == Some(v1),
        spec_get(r, k2@) == Some(v2),
{
    let mut fields: Vec<(String, JsonValue)> = Vec::new();
    fields.push((k0.to_owned(), v0));
    fields.push((k1.to_owned(), v1));
    fields.push((k2.to_owned(), v2));
    proof {
        reveal_with_fuel(crate::json::spec_lookup, 4);
    }
    JsonValue::Object(fields)
}

fn object2(k0: &str, v0: JsonValue, k1: &str, v1: JsonValue) -> (r: JsonValue)
    requires
        k0@ != k1@,
    ensures
        spec_has_keys(r, seq![k0@, k1@]),
        spec_get(r, k0@) == Some(v0),
        spec_get(r, k1@) == Some(v1),
{
    let mut fields: Vec<(String, JsonValue)> = Vec::new();
    fields.push((k0.to_owned(), v0));
    fields.push((k1.to_owned(), v1));
    proof {
        reveal_with_fuel(crate::json::spec_lookup, 3);
    }
    JsonValue::Object(fields)
}

/// Presents an adapter's result as provider data, laid out like a
/// StatusPage summary so that status conditions and dynamic details read it
/// the same way; the exit code is 0.
pub fn adapter_provider_result(result: AdapterResult) -> (r: ProviderResult)
    ensures
        spec_adapter_data(r.data, result),
        r.exit_code == Some(0i32),
        r.latency_ms is None,
{
    proof {
        reveal_strlit("description");
        reveal_strlit("name");
        reveal_strlit("status");
        reveal_strlit("components");
        reveal_strlit("up");
        reveal_strlit("indicator");
        assert("description"@.len() == 11 && "name"@.len() == 4 && "status"@.len() == 6);
        assert("components"@.len() == 10 && "up"@.len() == 2 && "indicator"@.len() == 9);
    }
    let mut items: Vec<JsonValue> = Vec::new();
    let mut i: usize = 0;
    while i < result.components.len()
        invariant
            i <= result.components@.len(),
            items@.len() == i,
            "description"@.len() == 11 && "name"@.len() == 4 && "status"@.len() == 6,
            forall|j: int| 0 <= j < i ==> spec_component_json(#[trigger] items@[j], result.components@[j]),
        decreases result.components.len() - i,
    {
        let c = &result.components[i];
        let v = object3(
            "description",
            JsonValue::String(c.description.clone()),
            "name",
            JsonValue::String(c.name.clone()),
            "status",
            JsonValue::String(status_word(c.status)),
        );
        items.push(v);
        i = i + 1;
    }
    let up = match result.status {
        WatchStatus::Success | WatchStatus::Warning | WatchStatus::Maintenance => true,
        _ => false,
    };
    let st = object2(
        "description",
        JsonValue::String(result.description.clone()),
        "indicator",
        JsonValue::String(indicator_word(result.status)),
    );
    let data = object3("components", JsonValue::Array(items), "status", st, "up", JsonValue::Bool(up));
    ProviderResult { data, exit_code: Some(0), latency_ms: None }
}

/// Runs the adapter step of a watch: an adapter error becomes an execution
/// failure carrying the error's message; a result becomes provider data.
pub fn adapter_outcome(outcome: Result<AdapterResult, AdapterError>) -> (r: Result<ProviderResult, ProviderError>)
    ensures
        match outcome {
            Ok(a) => r matches Ok(p) && spec_adapter_data(p.data, a) && p.exit_code == Some(0i32)
                && p.latency_ms is None,
            Err(e) => r matches Err(ProviderError::ExecutionFailed(m)) && m@
                == crate::adapter::spec_adapter_error_message(e),
        },
{
    match outcome {
        Ok(a) => Ok(adapter_provider_result(a)),
        Err(e) => Err(ProviderError::ExecutionFailed(e.message())),
    }
}

/// A component status written as its StatusPage word reads back, through
/// the StatusPage reading of component statuses, as the same status.
pub proof fn law_component_word_round_trip(s: WatchStatus)
    ensures
        spec_map_component_status(spec_component_word(s)) == s,
{
    reveal_strlit("operational");
    reveal_strlit("degraded_performance");
    reveal_strlit("partial_outage");
    reveal_strlit("major_outage");
    reveal_strlit("under_maintenance");
    reveal_strlit("unknown");
    assert("operational"@.len() == 11 && "degraded_performance"@.len() == 20);
    assert("partial_outage"@.len() == 14 && "major_outage"@.len() == 12);
    assert("under_maintenance"@.len() == 17 && "unknown"@.len() == 7);
}

/// An overall status written as its StatusPage indicator reads back,
/// through the StatusPage reading of indicators, as the same status.
pub proof fn law_indicator_word_round_trip(s: WatchStatus)
    ensures
        spec_map_indicator(spec_indicator_word(s)) == s,
{
    reveal_strlit("none");
    reveal_strlit("minor");
    reveal_strlit("major");
    reveal_strlit("critical");
    reveal_strlit("maintenance");
    reveal_strlit("unknown");
    assert("none"@.len() == 4 && "minor"@.len() == 5 && "major"@.len() == 5);
    assert("critical"@.len() == 8 && "maintenance"@.len() == 11 && "unknown"@.len() == 7);
    assert("minor"@[1] != "major"@[1]);
}

} // verus!

verus! {

/// `eval` may give `res` for the expression text `e` on `d`.
pub open spec fn spec_evaluates<E>(eval: E, e: Seq<char>, d: JsonValue, res: Result<JsonValue, ExprError>) -> bool where
    E: Fn(&str, &JsonValue) -> Result<JsonValue, ExprError>,
 {
    exists|x: &str| x@ == e && #[trigger] eval.ensures((x, &d), res)
}

/// `lit` may read the text `e` as the number `n` (none when it is no
/// number literal).
pub open spec fn spec_reads_number<L>(lit: L, e: Seq<char>, n: Option<JsonNumber>) -> bool where
    L: Fn(&str) -> Option<JsonNumber>,
 {
    exists|x: &str| x@ == e && #[trigger] lit.ensures((x,), n)
}

/// `tmpl` may render the template text `e` against `d` as `s`.
pub open spec fn spec_renders<T>(tmpl: T, e: Seq<char>, d: JsonValue, s: Seq<char>) -> bool where
    T: Fn(&str, &JsonValue) -> String,
 {
    exists|x: &str, out: String| x@ == e && #[trigger] tmpl.ensures((x, &d), out) && out@ == s
}

/// A binary64 bit pattern of an infinity or a NaN.
pub open spec fn spec_float_non_finite(bits: u64) -> bool {
    (bits >> 52u64) & 0x7ffu64 == 0x7ffu64
}

/// The JSON value of a number read from text: the number, or `null` for an
/// infinity or NaN, which JSON cannot hold.
pub open spec fn spec_number_json(n: JsonNumber) -> JsonValue {
    match n {
        JsonNumber::Float(bits, _) => if spec_float_non_finite(bits) {
            JsonValue::Null
        } else {
            JsonValue::Number(n)
        },
        _ => JsonValue::Number(n),
    }
}

/// `out` is the number the expression `e` resolves to on `d`: the number
/// its text reads as, else the number it evaluates to.
pub open spec fn spec_resolved_number<E, L>(eval: E, lit: L, e: Seq<char>, d: JsonValue, out: Option<JsonNumber>) -> bool where
    E: Fn(&str, &JsonValue) -> Result<JsonValue, ExprError>,
    L: Fn(&str) -> Option<JsonNumber>,
 {
    exists|n: Option<JsonNumber>|
        #[trigger] spec_reads_number(lit, e, n) && match n {
            Some(k) => out == Some(k),
            None => exists|res: Result<JsonValue, ExprError>|
                #[trigger] spec_evaluates(eval, e, d, res) && out == match res {
                    Ok(JsonValue::Number(k)) => Some(k),
                    _ => None,
                },
        }
}

/// `out` is the value the expression `e` resolves to on `d`: the number
/// its text reads as, else what it evaluates to (nothing on failure).
pub open spec fn spec_resolved_value<E, L>(eval: E, lit: L, e: Seq<char>, d: JsonValue, out: Option<JsonValue>) -> bool where
    E: Fn(&str, &JsonValue) -> Result<JsonValue, ExprError>,
    L: Fn(&str) -> Option<JsonNumber>,
 {
    exists|n: Option<JsonNumber>|
        #[trigger] spec_reads_number(lit, e, n) && match n {
            Some(k) => out == Some(spec_number_json(k)),
            None => exists|res: Result<JsonValue, ExprError>|
                #[trigger] spec_evaluates(eval, e, d, res) && out == match res {
                    Ok(v) => Some(v),
                    Err(_) => None,
                },
        }
}

/// Evaluates a numeric expression or number literal against `data`.
pub fn resolve_number<E, L>(e: &str, data: &JsonValue, eval: &E, lit: &L) -> (r: Option<JsonNumber>) where
    E: Fn(&str, &JsonValue) -> Result<JsonValue, ExprError>,
    L: Fn(&str) -> Option<JsonNumber>,

    requires
        forall|x: &str, d: &JsonValue| eval.requires((x, d)),
        forall|x: &str| lit.requires((x,)),
    ensures
        spec_resolved_number(*eval, *lit, e@, *data, r),
{
    let n = lit(e);
    assert(spec_reads_number(*lit, e@, n));
    match n {
        Some(k) => Some(k),
        None => {
            let res = eval(e, data);
            assert(spec_evaluates(*eval, e@, *data, res));
            match res {
                Ok(JsonValue::Number(k)) => Some(k),
                _ => None,
            }
        },
    }
}

fn number_json(n: JsonNumber) -> (r: JsonValue)
    ensures
        r == spec_number_json(n),
{
    match n {
        JsonNumber::Float(bits, t) => if (bits >> 52u64) & 0x7ffu64 == 0x7ffu64 {
            JsonValue::Null
        } else {
            JsonValue::Number(JsonNumber::Float(bits, t))
        },
        other => JsonValue::Number(other),
    }
}

/// Evaluates a value expression or number literal against `data`.
pub fn resolve_value<E, L>(e: &str, data: &JsonValue, eval: &E, lit: &L) -> (r: Option<JsonValue>) where
    E: Fn(&str, &JsonValue) -> Result<JsonValue, ExprError>,
    L: Fn(&str) -> Option<JsonNumber>,

    requires
        forall|x: &str, d: &JsonValue| eval.requires((x, d)),
        forall|x: &str| lit.requires((x,)),
    ensures
        spec_resolved_value(*eval, *lit, e@, *data, r),
{
    let n = lit(e);
    assert(spec_reads_number(*lit, e@, n));
    match n {
        Some(k) => Some(number_json(k)),
        None => {
            let res = eval(e, data);
            assert(spec_evaluates(*eval, e@, *data, res));
            match res {
                Ok(v) => Some(v),
                Err(_) => None,
            }
        },
    }
}

/// `out` renders the optional template `t` against `d` (nothing without one).
pub open spec fn spec_rendered_opt<T>(tmpl: T, t: Option<String>, d: JsonValue, out: Option<String>) -> bool where
    T: Fn(&str, &JsonValue) -> String,
 {
    match t {
        None => out is None,
        Some(te) => out matches Some(s) && spec_renders(tmpl, te@, d, s@),
    }
}

/// `out` resolves the optional value expression `e` against `d`.
pub open spec fn spec_value_opt<E, L>(eval: E, lit: L, e: Option<String>, d: JsonValue, out: Option<JsonValue>) -> bool where
    E: Fn(&str, &JsonValue) -> Result<JsonValue, ExprError>,
    L: Fn(&str) -> Option<JsonNumber>,
 {
    match e {
        None => out is None,
        Some(x) => spec_resolved_value(eval, lit, x@, d, out),
    }
}

/// `out` resolves the optional numeric expression `e` against `d`.
pub open spec fn spec_number_opt<E, L>(eval: E, lit: L, e: Option<String>, d: JsonValue, out: Option<JsonNumber>) -> bool where
    E: Fn(&str, &JsonValue) -> Result<JsonValue, ExprError>,
    L: Fn(&str) -> Option<JsonNumber>,
 {
    match e {
        None => out is None,
        Some(x) => spec_resolved_number(eval, lit, x@, d, out),
    }
}

fn render_opt<T>(t: &Option<String>, data: &JsonValue, tmpl: &T) -> (r: Option<String>) where
    T: Fn(&str, &JsonValue) -> String,

    requires
        forall|x: &str, d: &JsonValue| tmpl.requires((x, d)),
    ensures
        spec_rendered_opt(*tmpl, *t, *data, r),
{
    match t {
        None => None,
        Some(te) => {
            let x: &str = te.as_str();
            let out = tmpl(x, data);
            assert(tmpl.ensures((x, data), out));
            Some(out)
        },
    }
}

fn value_opt<E, L>(e: &Option<String>, data: &JsonValue, eval: &E, lit: &L) -> (r: Option<JsonValue>) where
    E: Fn(&str, &JsonValue) -> Result<JsonValue, ExprError>,
    L: Fn(&str) -> Option<JsonNumber>,

    requires
        forall|x: &str, d: &JsonValue| eval.requires((x, d)),
        forall|x: &str| lit.requires((x,)),
    ensures
        spec_value_opt(*eval, *lit, *e, *data, r),
{
    match e {
        None => None,
        Some(x) => resolve_value(x.as_str(), data, eval, lit),
    }
}

fn number_opt<E, L>(e: &Option<String>, data: &JsonValue, eval: &E, lit: &L) -> (r: Option<JsonNumber>) where
    E: Fn(&str, &JsonValue) -> Result<JsonValue, ExprError>,
    L: Fn(&str) -> Option<JsonNumber>,

    requires
        forall|x: &str, d: &JsonValue| eval.requires((x, d)),
        forall|x: &str| lit.requires((x,)),
    ensures
        spec_number_opt(*eval, *lit, *e, *data, r),
{
    match e {
        None => None,
        Some(x) => resolve_number(x.as_str(), data, eval, lit),
    }
}

/// The status of a list item from its status expression: `Success` when it
/// evaluates truthy, `Error` when falsy, `Unknown` when it fails.
pub open spec fn spec_item_status(res: Result<JsonValue, ExprError>) -> WatchStatus {
    match res {
        Ok(v) => if spec_is_truthy(v) {
            WatchStatus::Success
        } else {
            WatchStatus::Error
        },
        Err(_) => WatchStatus::Unknown,
    }
}

/// `st` is the list item `item` resolves to.
pub open spec fn spec_list_item<E, L>(
    eval: E,
    lit: L,
    title_e: Option<String>,
    status_e: Option<String>,
    item: JsonValue,
    st: ListItemState,
) -> bool where E: Fn(&str, &JsonValue) -> Result<JsonValue, ExprError>, L: Fn(&str) -> Option<JsonNumber> {
    &&& match title_e {
        None => st.title@ == Seq::<char>::empty(),
        Some(te) => exists|tv: Option<JsonValue>|
            #[trigger] spec_resolved_value(eval, lit, te@, item, tv) && st.title@ == match tv {
                Some(JsonValue::String(s)) => s@,
                _ => Seq::<char>::empty(),
            },
    }
    &&& match status_e {
        None => st.status == WatchStatus::Unknown,
        Some(se) => exists|res: Result<JsonValue, ExprError>|
            #[trigger] spec_evaluates(eval, se@, item, res) && st.status == spec_item_status(res),
    }
}

/// `out` is the list a display block's `items` expression resolves to.
pub open spec fn spec_resolved_items<E, L>(eval: E, lit: L, display: Display, data: JsonValue, out: Option<Vec<ListItemState>>) -> bool where
    E: Fn(&str, &JsonValue) -> Result<JsonValue, ExprError>,
    L: Fn(&str) -> Option<JsonNumber>,
 {
    match display.items {
        None => out is None,
        Some(ie) => exists|res: Result<JsonValue, ExprError>|
            #[trigger] spec_evaluates(eval, ie@, data, res) && match res {
                Ok(JsonValue::Array(a)) => out matches Some(v) && v@.len() == a@.len() && forall|i: int|
                    0 <= i < a@.len() ==> #[trigger] spec_list_item(
                        eval,
                        lit,
                        display.item_title,
                        display.item_status,
                        a@[i],
                        v@[i],
                    ),
                _ => out is None,
            },
    }
}

fn list_item<E, L>(title_e: &Option<String>, status_e: &Option<String>, item: &JsonValue, eval: &E, lit: &L) -> (r:
    ListItemState) where
    E: Fn(&str, &JsonValue) -> Result<JsonValue, ExprError>,
    L: Fn(&str) -> Option<JsonNumber>,

    requires
        forall|x: &str, d: &JsonValue| eval.requires((x, d)),
        forall|x: &str| lit.requires((x,)),
    ensures
        spec_list_item(*eval, *lit, *title_e, *status_e, *item, r),
{
    proof {
        reveal_strlit("");
    }
    let title = match title_e {
        None => "".to_owned(),
        Some(te) => {
            let tv = resolve_value(te.as_str(), item, eval, lit);
            let ghost tvg = tv;
            let t = match tv {
                Some(JsonValue::String(s)) => s,
                _ => "".to_owned(),
            };
            assert(spec_resolved_value(*eval, *lit, te@, *item, tvg) && t@ == match tvg {
                Some(JsonValue::String(s)) => s@,
                _ => Seq::<char>::empty(),
            });
            t
        },
    };
    let status = match status_e {
        None => WatchStatus::Unknown,
        Some(se) => {
            let x: &str = se.as_str();
            let res = eval(x, item);
            assert(spec_evaluates(*eval, x@, *item, res));
            match &res {
                Ok(v) => if is_truthy(v) {
                    WatchStatus::Success
                } else {
                    WatchStatus::Error
                },
                Err(_) => WatchStatus::Unknown,
            }
        },
    };
    let r = ListItemState { title, status };
    assert(match *title_e {
        None => r.title@ == Seq::<char>::empty(),
        Some(te) => exists|tv: Option<JsonValue>|
            #[trigger] spec_resolved_value(*eval, *lit, te@, *item, tv) && r.title@ == match tv {
                Some(JsonValue::String(s)) => s@,
                _ => Seq::<char>::empty(),
            },
    });
    assert(match *status_e {
        None => r.status == WatchStatus::Unknown,
        Some(se) => exists|res: Result<JsonValue, ExprError>|
            #[trigger] spec_evaluates(*eval, se@, *item, res) && r.status == spec_item_status(res),
    });
    r
}

/// Resolves list items from a display block: `items` should evaluate to an
/// array; `item_title` and `item_status` are evaluated per item.
pub fn resolve_items<E, L>(display: &Display, data: &JsonValue, eval: &E, lit: &L) -> (r: Option<Vec<ListItemState>>) where
    E: Fn(&str, &JsonValue) -> Result<JsonValue, ExprError>,
    L: Fn(&str) -> Option<JsonNumber>,

    requires
        forall|x: &str, d: &JsonValue| eval.requires((x, d)),
        forall|x: &str| lit.requires((x,)),
    ensures
        spec_resolved_items(*eval, *lit, *display, *data, r),
{
    let ie = match &display.items {
        None => return None,
        Some(ie) => ie,
    };
    let x: &str = ie.as_str();
    let res = eval(x, data);
    assert(spec_evaluates(*eval, x@, *data, res));
    let a = match &res {
        Ok(JsonValue::Array(a)) => a,
        _ => return None,
    };
    let mut out: Vec<ListItemState> = Vec::new();
    let mut i: usize = 0;
    while i < a.len()
        invariant
            i <= a@.len(),
            out@.len() == i,
            forall|x: &str, d: &JsonValue| eval.requires((x, d)),
            forall|x: &str| lit.requires((x,)),
            forall|j: int|
                0 <= j < i ==> #[trigger] spec_list_item(
                    *eval,
                    *lit,
                    display.item_title,
                    display.item_status,
                    a@[j],
                    out@[j],
                ),
        decreases a.len() - i,
    {
        let st = list_item(&display.item_title, &display.item_status, &a[i], eval, lit);
        out.push(st);
        i = i + 1;
    }
    Some(out)
}

/// `r` is the display block `display` resolves to on `data`.
pub open spec fn spec_resolved_display<E, L, T>(eval: E, lit: L, tmpl: T, display: Display, data: JsonValue, r: DisplayState) -> bool where
    E: Fn(&str, &JsonValue) -> Result<JsonValue, ExprError>,
    L: Fn(&str) -> Option<JsonNumber>,
    T: Fn(&str, &JsonValue) -> String,
 {
    &&& r.style@ == spec_style_name(display.style)
    &&& spec_rendered_opt(tmpl, display.title, data, r.title)
    &&& spec_rendered_opt(tmpl, display.description, data, r.description)
    &&& spec_rendered_opt(tmpl, display.content, data, r.content)
    &&& spec_value_opt(eval, lit, display.value, data, r.value)
    &&& spec_number_opt(eval, lit, display.min, data, r.min)
    &&& spec_number_opt(eval, lit, display.max, data, r.max)
    &&& spec_resolved_items(eval, lit, display, data, r.items)
}

/// Builds a [`DisplayState`] from a display block and the watch data:
/// templates rendered, the value and bounds resolved, the list items built.
pub fn resolve_display<E, L, T>(display: &Display, data: &JsonValue, eval: &E, lit: &L, tmpl: &T) -> (r: DisplayState) where
    E: Fn(&str, &JsonValue) -> Result<JsonValue, ExprError>,
    L: Fn(&str) -> Option<JsonNumber>,
    T: Fn(&str, &JsonValue) -> String,

    requires
        forall|x: &str, d: &JsonValue| eval.requires((x, d)),
        forall|x: &str| lit.requires((x,)),
        forall|x: &str, d: &JsonValue| tmpl.requires((x, d)),
    ensures
        spec_resolved_display(*eval, *lit, *tmpl, *display, *data, r),
{
    let style = style_name(
        match &display.style {
            Some(s) => Some(s),
            None => None,
        },
    );
    let title = render_opt(&display.title, data, tmpl);
    let description = render_opt(&display.description, data, tmpl);
    let content = render_opt(&display.content, data, tmpl);
    let value = value_opt(&display.value, data, eval, lit);
    let min = number_opt(&display.min, data, eval, lit);
    let max = number_opt(&display.max, data, eval, lit);
    let items = resolve_items(display, data, eval, lit);
    DisplayState { style, title, description, content, value, min, max, items }
}

/// The display used when a watch configures none: the status style and
/// nothing else.
pub fn fallback_display() -> (r: DisplayState)
    ensures
        r.style@ == "status"@,
        r.title is None && r.description is None && r.content is None,
        r.value is None && r.min is None && r.max is None && r.items is None,
{
    DisplayState {
        style: "status".to_owned(),
        title: None,
        description: None,
        content: None,
        value: None,
        min: None,
        max: None,
        items: None,
    }
}

/// `r` is the detail panel `d` resolves to on `data`.
pub open spec fn spec_resolved_detail<E, L, T>(eval: E, lit: L, tmpl: T, d: Display, data: JsonValue, r: DetailState) -> bool where
    E: Fn(&str, &JsonValue) -> Result<JsonValue, ExprError>,
    L: Fn(&str) -> Option<JsonNumber>,
    T: Fn(&str, &JsonValue) -> String,
 {
    &&& r.style@ == spec_style_name(d.style)
    &&& spec_rendered_opt(tmpl, d.title, data, r.title)
    &&& spec_rendered_opt(tmpl, d.description, data, r.description)
    &&& spec_value_opt(eval, lit, d.value, data, r.value)
    &&& spec_number_opt(eval, lit, d.min, data, r.min)
    &&& spec_number_opt(eval, lit, d.max, data, r.max)
}

/// Resolves the configured detail panels, one state per panel, in order.
pub fn resolve_details<E, L, T>(details: &Vec<Display>, data: &JsonValue, eval: &E, lit: &L, tmpl: &T) -> (r: Vec<DetailState>) where
    E: Fn(&str, &JsonValue) -> Result<JsonValue, ExprError>,
    L: Fn(&str) -> Option<JsonNumber>,
    T: Fn(&str, &JsonValue) -> String,

    requires
        forall|x: &str, d: &JsonValue| eval.requires((x, d)),
        forall|x: &str| lit.requires((x,)),
        forall|x: &str, d: &JsonValue| tmpl.requires((x, d)),
    ensures
        r@.len() == details@.len(),
        forall|i: int|
            0 <= i < details@.len() ==> #[trigger] spec_resolved_detail(
                *eval,
                *lit,
                *tmpl,
                details@[i],
                *data,
                r@[i],
            ),
{
    let mut out: Vec<DetailState> = Vec::new();
    let mut i: usize = 0;
    while i < details.len()
        invariant
            i <= details@.len(),
            out@.len() == i,
            forall|x: &str, d: &JsonValue| eval.requires((x, d)),
            forall|x: &str| lit.requires((x,)),
            forall|x: &str, d: &JsonValue| tmpl.requires((x, d)),
            forall|j: int|
                0 <= j < i ==> #[trigger] spec_resolved_detail(*eval, *lit, *tmpl, details@[j], *data, out@[j]),
        decreases details.len() - i,
    {
        let d = &details[i];
        let style = style_name(
            match &d.style {
                Some(s) => Some(s),
                None => None,
            },
        );
        let title = render_opt(&d.title, data, tmpl);
        let description = render_opt(&d.description, data, tmpl);
        let value = value_opt(&d.value, data, eval, lit);
        let min = number_opt(&d.min, data, eval, lit);
        let max = number_opt(&d.max, data, eval, lit);
        out.push(DetailState { title, style, description, value, min, max });
        i = i + 1;
    }
    out
}

} // verus!

verus! {

/// The title a dynamic detail takes from its title expression: a string as
/// it is, a number as it is written; nothing otherwise.
pub open spec fn spec_detail_title(res: Result<JsonValue, ExprError>) -> Option<Seq<char>> {
    match res {
        Ok(JsonValue::String(s)) => Some(s@),
        Ok(JsonValue::Number(n)) => Some(crate::json::spec_number_text(n)),
        _ => None,
    }
}

/// A configured expression, or `default` when none is configured.
pub open spec fn spec_or(e: Option<String>, default: Seq<char>) -> Seq<char> {
    match e {
        Some(s) => s@,
        None => default,
    }
}

/// `out` is the detail panel one element of a dynamic details array gives:
/// none when its title expression gives no title; for the progress style a
/// panel with the value, the maximum and the rendered description; else a
/// status panel whose description is the status text with underscores as
/// spaces and whose value is the name of the status that text reads as.
pub open spec fn spec_dynamic_detail<E, L, T>(
    eval: E,
    lit: L,
    tmpl: T,
    display: Display,
    item: JsonValue,
    out: Option<DetailState>,
) -> bool where
    E: Fn(&str, &JsonValue) -> Result<JsonValue, ExprError>,
    L: Fn(&str) -> Option<JsonNumber>,
    T: Fn(&str, &JsonValue) -> String,
 {
    exists|tres: Result<JsonValue, ExprError>|
        #[trigger] spec_evaluates(eval, spec_or(display.detail_title, ".name"@), item, tres) && if display.detail_style
            == Some(DisplayStyle::Progress) {
            match spec_detail_title(tres) {
                None => out is None,
                Some(t) => out matches Some(d) && {
                    &&& spec_text_is(d.title, t)
                    &&& d.style@ == "progress"@
                    &&& spec_rendered_opt(tmpl, display.detail_description, item, d.description)
                    &&& spec_value_opt(eval, lit, display.detail_value, item, d.value)
                    &&& d.min is None
                    &&& spec_number_opt(eval, lit, display.detail_max, item, d.max)
                },
            }
        } else {
            exists|sres: Result<JsonValue, ExprError>|
                #[trigger] spec_evaluates(eval, spec_or(display.detail_status, ".status"@), item, sres) && {
                    let status_text = match sres {
                        Ok(JsonValue::String(s)) => s@,
                        _ => Seq::<char>::empty(),
                    };
                    match spec_detail_title(tres) {
                        None => out is None,
                        Some(t) => out matches Some(d) && {
                            &&& spec_text_is(d.title, t)
                            &&& d.style@ == "status"@
                            &&& spec_text_is(d.description, crate::text::spec_underscores_to_spaces(status_text))
                            &&& spec_string_value_is(
                                d.value,
                                crate::state::spec_status_name(spec_map_component_status(status_text)),
                            )
                            &&& d.min is None
                            &&& d.max is None
                        },
                    }
                }
        }
}

/// `o` holds a string with the characters `t`.
pub open spec fn spec_text_is(o: Option<String>, t: Seq<char>) -> bool {
    match o {
        Some(x) => x@ == t,
        None => false,
    }
}

/// `o` holds a JSON string with the characters `t`.
pub open spec fn spec_string_value_is(o: Option<JsonValue>, t: Seq<char>) -> bool {
    match o {
        Some(JsonValue::String(x)) => x@ == t,
        _ => false,
    }
}

/// The panels that are present, in order.
pub open spec fn spec_somes(opts: Seq<Option<DetailState>>) -> Seq<DetailState>
    decreases opts.len(),
{
    if opts.len() == 0 {
        Seq::empty()
    } else {
        match opts.last() {
            Some(d) => spec_somes(opts.drop_last()).push(d),
            None => spec_somes(opts.drop_last()),
        }
    }
}

fn field_or(e: &Option<String>, default: &str) -> (r: String)
    ensures
        r@ == spec_or(*e, default@),
{
    match e {
        Some(s) => s.clone(),
        None => default.to_owned(),
    }
}

fn dynamic_detail<E, L, T>(display: &Display, item: &JsonValue, eval: &E, lit: &L, tmpl: &T) -> (r: Option<DetailState>) where
    E: Fn(&str, &JsonValue) -> Result<JsonValue, ExprError>,
    L: Fn(&str) -> Option<JsonNumber>,
    T: Fn(&str, &JsonValue) -> String,

    requires
        forall|x: &str, d: &JsonValue| eval.requires((x, d)),
        forall|x: &str| lit.requires((x,)),
        forall|x: &str, d: &JsonValue| tmpl.requires((x, d)),
    ensures
        spec_dynamic_detail(*eval, *lit, *tmpl, *display, *item, r),
{
    proof {
        reveal_strlit("");
    }
    let title_string = field_or(&display.detail_title, ".name");
    let tf: &str = title_string.as_str();
    let tres = eval(tf, item);
    assert(spec_evaluates(*eval, tf@, *item, tres));
    let title: Option<String> = match &tres {
        Ok(JsonValue::String(s)) => Some(s.clone()),
        Ok(JsonValue::Number(n)) => Some(crate::json::number_text(n)),
        _ => None,
    };
    assert(crate::text::opt_view(title) == spec_detail_title(tres));
    let is_progress = match display.detail_style {
        Some(DisplayStyle::Progress) => true,
        _ => false,
    };
    if is_progress {
        let value = value_opt(&display.detail_value, item, eval, lit);
        let max = number_opt(&display.detail_max, item, eval, lit);
        let description = render_opt(&display.detail_description, item, tmpl);
        return match title {
            None => None,
            Some(t) => Some(
                DetailState { title: Some(t), style: "progress".to_owned(), description, value, min: None, max },
            ),
        };
    }
    let status_string = field_or(&display.detail_status, ".status");
    let sf: &str = status_string.as_str();
    let sres = eval(sf, item);
    assert(spec_evaluates(*eval, sf@, *item, sres));
    let status_text: String = match &sres {
        Ok(JsonValue::String(s)) => s.clone(),
        _ => "".to_owned(),
    };
    let status = map_component_status(status_text.as_str());
    let description = crate::text::underscores_to_spaces(status_text.as_str());
    let value_name = status.as_str().to_owned();
    let ghost title_g = title;
    let r = match title {
        None => None,
        Some(t) => Some(
            DetailState {
                title: Some(t),
                style: "status".to_owned(),
                description: Some(description),
                value: Some(JsonValue::String(value_name)),
                min: None,
                max: None,
            },
        ),
    };
    proof {
        let status_text_g = match sres {
            Ok(JsonValue::String(s)) => s@,
            _ => Seq::<char>::empty(),
        };
        assert(status_text@ == status_text_g);
        assert(match spec_detail_title(tres) {
            None => r is None,
            Some(t) => r matches Some(d) && {
                &&& spec_text_is(d.title, t)
                &&& d.style@ == "status"@
                &&& spec_text_is(d.description, crate::text::spec_underscores_to_spaces(status_text_g))
                &&& spec_string_value_is(
                    d.value,
                    crate::state::spec_status_name(spec_map_component_status(status_text_g)),
                )
                &&& d.min is None
                &&& d.max is None
            },
        });
    }
    r
}

/// `out` holds the panels the dynamic details of `display` give on `data`.
pub open spec fn spec_dynamic_details<E, L, T>(
    eval: E,
    lit: L,
    tmpl: T,
    display: Display,
    details_from: Seq<char>,
    data: JsonValue,
    out: Seq<DetailState>,
) -> bool where
    E: Fn(&str, &JsonValue) -> Result<JsonValue, ExprError>,
    L: Fn(&str) -> Option<JsonNumber>,
    T: Fn(&str, &JsonValue) -> String,
 {
    exists|res: Result<JsonValue, ExprError>|
        #[trigger] spec_evaluates(eval, details_from, data, res) && match res {
            Ok(JsonValue::Array(items)) => exists|opts: Seq<Option<DetailState>>|
                opts.len() == items@.len() && (forall|i: int|
                    0 <= i < items@.len() ==> #[trigger] spec_dynamic_detail(
                        eval,
                        lit,
                        tmpl,
                        display,
                        items@[i],
                        opts[i],
                    )) && out == spec_somes(opts),
            _ => out.len() == 0,
        }
}

/// Resolves dynamic details: `details_from` should evaluate to an array;
/// each element gives a detail panel as `detail_title`, `detail_status`,
/// `detail_style`, `detail_value`, `detail_max` and `detail_description`
/// describe. Elements without a title give none. An expression that fails
/// or gives no array yields no panels.
pub fn resolve_dynamic_details<E, L, T>(
    display: &Display,
    details_from: &str,
    data: &JsonValue,
    eval: &E,
    lit: &L,
    tmpl: &T,
) -> (r: Vec<DetailState>) where
    E: Fn(&str, &JsonValue) -> Result<JsonValue, ExprError>,
    L: Fn(&str) -> Option<JsonNumber>,
    T: Fn(&str, &JsonValue) -> String,

    requires
        forall|x: &str, d: &JsonValue| eval.requires((x, d)),
        forall|x: &str| lit.requires((x,)),
        forall|x: &str, d: &JsonValue| tmpl.requires((x, d)),
    ensures
        spec_dynamic_details(*eval, *lit, *tmpl, *display, details_from@, *data, r@),
{
    let res = eval(details_from, data);
    assert(spec_evaluates(*eval, details_from@, *data, res));
    let items = match &res {
        Ok(JsonValue::Array(items)) => items,
        _ => return Vec::new(),
    };
    let mut out: Vec<DetailState> = Vec::new();
    let ghost mut opts: Seq<Option<DetailState>> = Seq::empty();
    let mut i: usize = 0;
    while i < items.len()
        invariant
            i <= items@.len(),
            opts.len() == i,
            forall|x: &str, d: &JsonValue| eval.requires((x, d)),
            forall|x: &str| lit.requires((x,)),
            forall|x: &str, d: &JsonValue| tmpl.requires((x, d)),
            forall|j: int|
                0 <= j < i ==> #[trigger] spec_dynamic_detail(*eval, *lit, *tmpl, *display, items@[j], opts[j]),
            out@ == spec_somes(opts),
        decreases items.len() - i,
    {
        let d = dynamic_detail(display, &items[i], eval, lit, tmpl);
        let ghost dg = d;
        let ghost prev = opts;
        proof {
            opts = opts.push(dg);
            assert(opts.drop_last() =~= prev);
        }
        match d {
            Some(x) => out.push(x),
            None => {},
        }
        i = i + 1;
    }
    assert(spec_evaluates(*eval, details_from@, *data, res));
    out
}

} // verus!

verus! {

/// The name a watch is shown under: its name, else its preset's name, else
/// `unnamed`.
pub open spec fn spec_watch_name(watch: Watch) -> Seq<char> {
    match watch.name {
        Some(n) => n@,
        None => match watch.preset {
            Some(p) => p@,
            None => "unnamed"@,
        },
    }
}

/// The name a watch is shown under.
pub fn watch_name(watch: &Watch) -> (r: String)
    ensures
        r@ == spec_watch_name(*watch),
{
    match &watch.name {
        Some(n) => n.clone(),
        None => match &watch.preset {
            Some(p) => p.clone(),
            None => "unnamed".to_owned(),
        },
    }
}

/// The kind of a watch: a script unless it says otherwise.
pub fn watch_type_of(watch: &Watch) -> (r: WatchType)
    ensures
        r == match watch.watch_type {
            Some(t) => t,
            None => WatchType::Script,
        },
{
    match watch.watch_type {
        Some(t) => t,
        None => WatchType::Script,
    }
}

/// The link a watch opens: its `link`, else its `url`.
pub open spec fn spec_watch_link(watch: Watch) -> Option<Seq<char>> {
    match watch.link {
        Some(l) => Some(l@),
        None => match watch.url {
            Some(u) => Some(u@),
            None => None,
        },
    }
}

fn watch_link(watch: &Watch) -> (r: Option<String>)
    ensures
        crate::text::opt_view(r) == spec_watch_link(*watch),
{
    match &watch.link {
        Some(l) => Some(l.clone()),
        None => match &watch.url {
            Some(u) => Some(u.clone()),
            None => None,
        },
    }
}

/// Any of the four conditions is configured.
pub open spec fn spec_has_conditions(c: Conditions) -> bool {
    c.error is Some || c.warning is Some || c.maintenance is Some || c.success is Some
}

/// `r` is the display a watch shows on `data`: its display block resolved,
/// or the fallback display when it has none.
pub open spec fn spec_watch_display<E, L, T>(eval: E, lit: L, tmpl: T, watch: Watch, data: JsonValue, r: DisplayState) -> bool where
    E: Fn(&str, &JsonValue) -> Result<JsonValue, ExprError>,
    L: Fn(&str) -> Option<JsonNumber>,
    T: Fn(&str, &JsonValue) -> String,
 {
    match watch.display {
        Some(d) => spec_resolved_display(eval, lit, tmpl, d, data, r),
        None => r.style@ == "status"@ && r.title is None && r.description is None && r.content is None
            && r.value is None && r.min is None && r.max is None && r.items is None,
    }
}

/// `details` are the panels a watch shows on `data`: its configured panels,
/// then the dynamic ones of its display block.
pub open spec fn spec_watch_details<E, L, T>(eval: E, lit: L, tmpl: T, watch: Watch, data: JsonValue, details: Seq<DetailState>) -> bool where
    E: Fn(&str, &JsonValue) -> Result<JsonValue, ExprError>,
    L: Fn(&str) -> Option<JsonNumber>,
    T: Fn(&str, &JsonValue) -> String,
 {
    exists|fixed: Seq<DetailState>, dynamic: Seq<DetailState>|
        #![trigger fixed + dynamic]
        details == fixed + dynamic && fixed.len() == watch.details@.len() && (forall|i: int|
            0 <= i < fixed.len() ==> #[trigger] spec_resolved_detail(
                eval,
                lit,
                tmpl,
                watch.details@[i],
                data,
                fixed[i],
            )) && match watch.display {
            Some(d) => match d.details_from {
                Some(df) => spec_dynamic_details(eval, lit, tmpl, d, df@, data, dynamic),
                None => dynamic.len() == 0,
            },
            None => dynamic.len() == 0,
        }
}

fn watch_display<E, L, T>(watch: &Watch, data: &JsonValue, eval: &E, lit: &L, tmpl: &T) -> (r: DisplayState) where
    E: Fn(&str, &JsonValue) -> Result<JsonValue, ExprError>,
    L: Fn(&str) -> Option<JsonNumber>,
    T: Fn(&str, &JsonValue) -> String,

    requires
        forall|x: &str, d: &JsonValue| eval.requires((x, d)),
        forall|x: &str| lit.requires((x,)),
        forall|x: &str, d: &JsonValue| tmpl.requires((x, d)),
    ensures
        spec_watch_display(*eval, *lit, *tmpl, *watch, *data, r),
{
    match &watch.display {
        Some(d) => resolve_display(d, data, eval, lit, tmpl),
        None => fallback_display(),
    }
}

/// Builds the state of a watch from the outcome of running its provider,
/// checked at `last_check`. A provider error gives the `Error` status, no
/// data and no panels, with the error's message; a result gives the status
/// its conditions decide (or, with none configured, the provider's default
/// status), its display and its detail panels.
pub fn watch_state<E, L, T>(
    watch: &Watch,
    outcome: Result<ProviderResult, ProviderError>,
    last_check: Option<String>,
    eval: &E,
    lit: &L,
    tmpl: &T,
) -> (r: WatchState) where
    E: Fn(&str, &JsonValue) -> Result<JsonValue, ExprError>,
    L: Fn(&str) -> Option<JsonNumber>,
    T: Fn(&str, &JsonValue) -> String,

    requires
        forall|x: &str, d: &JsonValue| eval.requires((x, d)),
        forall|x: &str| lit.requires((x,)),
        forall|x: &str, d: &JsonValue| tmpl.requires((x, d)),
    ensures
        r.name@ == spec_watch_name(*watch),
        r.expand == watch.expand,
        crate::text::opt_view(r.url) == spec_watch_link(*watch),
        r.last_check == last_check,
        match outcome {
            Err(e) => {
                &&& r.status == WatchStatus::Error
                &&& r.data == JsonValue::Null
                &&& spec_watch_display(*eval, *lit, *tmpl, *watch, JsonValue::Null, r.display)
                &&& r.details@.len() == 0
                &&& spec_text_is(r.error_message, crate::provider::spec_provider_error_message(e))
            },
            Ok(res) => {
                &&& r.data == res.data
                &&& if spec_has_conditions(watch.conditions) {
                    spec_conditions_status(*eval, watch.conditions, res.data, r.status)
                } else {
                    r.status == spec_default_status(
                        res,
                        match watch.watch_type {
                            Some(t) => t,
                            None => WatchType::Script,
                        },
                    )
                }
                &&& spec_watch_display(*eval, *lit, *tmpl, *watch, res.data, r.display)
                &&& spec_watch_details(*eval, *lit, *tmpl, *watch, res.data, r.details@)
                &&& r.error_message is None
            },
        },
{
    let name = watch_name(watch);
    let watch_type = watch_type_of(watch);
    let url = watch_link(watch);
    match outcome {
        Err(e) => {
            let null = JsonValue::Null;
            let display = watch_display(watch, &null, eval, lit, tmpl);
            WatchState {
                name,
                status: WatchStatus::Error,
                data: null,
                display,
                details: Vec::new(),
                expand: watch.expand,
                url,
                last_check,
                error_message: Some(e.message()),
            }
        },
        Ok(result) => {
            let has_conditions = watch.conditions.error.is_some() || watch.conditions.warning.is_some()
                || watch.conditions.maintenance.is_some() || watch.conditions.success.is_some();
            let status = if has_conditions {
                status_from_conditions(&watch.conditions, &result.data, eval)
            } else {
                default_status(&result, &watch_type)
            };
            let display = watch_display(watch, &result.data, eval, lit, tmpl);
            let mut details = resolve_details(&watch.details, &result.data, eval, lit, tmpl);
            let ghost fixed = details@;
            let mut dynamic: Vec<DetailState> = Vec::new();
            match &watch.display {
                Some(d) => match &d.details_from {
                    Some(df) => {
                        dynamic = resolve_dynamic_details(d, df.as_str(), &result.data, eval, lit, tmpl);
                    },
                    None => {},
                },
                None => {},
            }
            let ghost dyn_g = dynamic@;
            details.append(&mut dynamic);
            assert(details@ == fixed + dyn_g);
            WatchState {
                name,
                status,
                data: result.data,
                display,
                details,
                expand: watch.expand,
                url,
                last_check,
                error_message: None,
            }
        },
    }
}

} // verus!

verus! {

/// How the StatusPage reading sees a presented component: its name, its
/// status, and its status word with spaces for underscores.
pub open spec fn spec_read_back(c: ComponentStatus) -> crate::adapter::SpecComponent {
    crate::adapter::SpecComponent {
        name: c.name@,
        status: c.status,
        description: crate::text::spec_underscores_to_spaces(spec_component_word(c.status)),
    }
}

proof fn lemma_plain_components_read_back(items: Seq<JsonValue>, comps: Seq<ComponentStatus>, k: int)
    requires
        0 <= k <= items.len(),
        items.len() == comps.len(),
        forall|i: int| 0 <= i < items.len() ==> spec_component_json(#[trigger] items[i], comps[i]),
        forall|i: int| 0 <= i < comps.len() ==> !crate::text::spec_starts_with(#[trigger] comps[i].name@, "Visit "@),
    ensures
        crate::adapter::statuspage::spec_plain_components(items.take(k), None) == comps.take(k).map_values(
            |c: ComponentStatus| spec_read_back(c),
        ),
    decreases k,
{
    reveal_strlit("group");
    reveal_strlit("description");
    reveal_strlit("name");
    reveal_strlit("status");
    assert("group"@.len() == 5 && "description"@.len() == 11 && "name"@.len() == 4 && "status"@.len() == 6);
    if k == 0 {
        assert(items.take(0) =~= Seq::<JsonValue>::empty());
        assert(comps.take(0).map_values(|c: ComponentStatus| spec_read_back(c)) =~= Seq::<
            crate::adapter::SpecComponent,
        >::empty());
    } else {
        lemma_plain_components_read_back(items, comps, k - 1);
        let item = items[k - 1];
        let c = comps[k - 1];
        assert(items.take(k).drop_last() =~= items.take(k - 1));
        assert(items.take(k).last() == item);
        assert(spec_component_json(item, c));
        assert(!crate::text::spec_starts_with(c.name@, "Visit "@));
        let fields = item->Object_0@;
        assert(fields.len() == 3);
        assert(fields[0].0@ == "description"@ && fields[1].0@ == "name"@ && fields[2].0@ == "status"@);
        reveal_with_fuel(crate::json::spec_lookup, 4);
        assert(spec_get(item, "group"@) is None);
        law_component_word_round_trip(c.status);
        assert(crate::adapter::statuspage::spec_plain_component(item, None) == Some(spec_read_back(c)));
        assert(comps.take(k).map_values(|c: ComponentStatus| spec_read_back(c)) =~= comps.take(k - 1).map_values(
            |c: ComponentStatus| spec_read_back(c),
        ).push(spec_read_back(c)));
    }
}

/// An adapter's result, presented as provider data, reads back through the
/// StatusPage reading as the same overall status and description, and as
/// components with the same names and statuses (their descriptions become
/// the status words). Components named "Visit ..." are links the StatusPage
/// reading skips, so they are left out.
pub proof fn law_adapter_data_reads_back(r: AdapterResult, data: JsonValue)
    requires
        spec_adapter_data(data, r),
        forall|i: int| 0 <= i < r.components@.len() ==> !crate::text::spec_starts_with(
            #[trigger] r.components@[i].name@,
            "Visit "@,
        ),
    ensures
        crate::adapter::statuspage::spec_overall(
            data,
            false,
            crate::adapter::statuspage::spec_components(data, None, None),
        ) == (r.status, r.description@),
        crate::adapter::statuspage::spec_components(data, None, None) == r.components@.map_values(
            |c: ComponentStatus| spec_read_back(c),
        ),
{
    law_indicator_word_round_trip(r.status);
    let items = spec_get(data, "components"@)->Some_0->Array_0@;
    lemma_plain_components_read_back(items, r.components@, items.len() as int);
    assert(items.take(items.len() as int) =~= items);
    assert(r.components@.take(items.len() as int) =~= r.components@);
}

/// An adapter's result counts as up exactly when its status is neither
/// Error nor Unknown (Success, Warning and Maintenance are up), so an
/// adapter watch without conditions shows Success for those and Error for
/// the others.
pub proof fn law_adapter_up_unless_error_or_unknown(p: ProviderResult, r: AdapterResult)
    requires
        spec_adapter_data(p.data, r),
    ensures
        spec_get(p.data, "up"@) == Some(
            JsonValue::Bool(!(r.status == WatchStatus::Error || r.status == WatchStatus::Unknown)),
        ),
        spec_default_status(p, WatchType::Adapter) == if r.status == WatchStatus::Error || r.status
            == WatchStatus::Unknown {
            WatchStatus::Error
        } else {
            WatchStatus::Success
        },
        r.status == WatchStatus::Maintenance ==> spec_default_status(p, WatchType::Adapter) == WatchStatus::Success,
{
}

} // verus!
