//! Atlassian StatusPage adapter: reads `/api/v2/summary.json`.

use vstd::prelude::*;
use crate::adapter::{view_components, AdapterError, AdapterResult, ComponentStatus, SpecComponent};
use crate::adapter::json_api::{get_config_str, spec_config_str};
use crate::config::ConfigValue;
use crate::json::{
    get_bool, get_str, spec_as_array, spec_as_bool, spec_get, spec_get_str, str_eq, JsonValue,
};
use crate::state::{pick_worse, spec_pick_worse, spec_worst, WatchStatus};
use crate::strmap::StrMap;
use crate::text::{
    concat3, spec_starts_with, spec_underscores_to_spaces, starts_with, underscores_to_spaces,
};

verus! {

/// The status a StatusPage top-level indicator stands for.
pub open spec fn spec_map_indicator(indicator: Seq<char>) -> WatchStatus {
    if indicator == "none"@ {
        WatchStatus::Success
    } else if indicator == "minor"@ {
        WatchStatus::Warning
    } else if indicator == "major"@ {
        WatchStatus::Error
    } else if indicator == "critical"@ {
        WatchStatus::Error
    } else if indicator == "maintenance"@ {
        WatchStatus::Maintenance
    } else {
        WatchStatus::Unknown
    }
}

/// The status a StatusPage component status string stands for.
pub open spec fn spec_map_component_status(status: Seq<char>) -> WatchStatus {
    if status == "operational"@ {
        WatchStatus::Success
    } else if status == "degraded_performance"@ {
        WatchStatus::Warning
    } else if status == "partial_outage"@ {
        WatchStatus::Warning
    } else if status == "major_outage"@ {
        WatchStatus::Error
    } else if status == "under_maintenance"@ {
        WatchStatus::Maintenance
    } else {
        WatchStatus::Unknown
    }
}

/// Maps a StatusPage top-level indicator string to a [`WatchStatus`].
pub fn map_indicator(indicator: &str) -> (r: WatchStatus)
    ensures
        r == spec_map_indicator(indicator@),
{
    if str_eq(indicator, "none") {
        WatchStatus::Success
    } else if str_eq(indicator, "minor") {
        WatchStatus::Warning
    } else if str_eq(indicator, "major") {
        WatchStatus::Error
    } else if str_eq(indicator, "critical") {
        WatchStatus::Error
    } else if str_eq(indicator, "maintenance") {
        WatchStatus::Maintenance
    } else {
        WatchStatus::Unknown
    }
}

/// Maps a StatusPage component status string to a [`WatchStatus`].
pub fn map_component_status(status: &str) -> (r: WatchStatus)
    ensures
        r == spec_map_component_status(status@),
{
    if str_eq(status, "operational") {
        WatchStatus::Success
    } else if str_eq(status, "degraded_performance") {
        WatchStatus::Warning
    } else if str_eq(status, "partial_outage") {
        WatchStatus::Warning
    } else if str_eq(status, "major_outage") {
        WatchStatus::Error
    } else if str_eq(status, "under_maintenance") {
        WatchStatus::Maintenance
    } else {
        WatchStatus::Unknown
    }
}

// ---------------------------------------------------------------------------
// What a summary payload says
// ---------------------------------------------------------------------------

/// `Some(s)` as is, `None` as the default `d`.
pub open spec fn or_default(o: Option<Seq<char>>, d: Seq<char>) -> Seq<char> {
    match o {
        Some(s) => s,
        None => d,
    }
}

/// Whether a component is a group header (`"group": true`).
pub open spec fn spec_is_group(c: JsonValue) -> bool {
    spec_as_bool(spec_get(c, "group"@)) == Some(true)
}

/// A component as listed without a group filter: skipped when it has no
/// name, when its name starts with "Visit ", when it is a group header, or
/// when a `group_id` is configured and it belongs to another group.
pub open spec fn spec_plain_component(c: JsonValue, group_id: Option<Seq<char>>) -> Option<
    SpecComponent,
> {
    match spec_get_str(c, "name"@) {
        None => None,
        Some(name) => if spec_starts_with(name, "Visit "@) {
            None
        } else if spec_is_group(c) {
            None
        } else if group_id is Some && spec_get_str(c, "group_id"@) != group_id {
            None
        } else {
            let st = or_default(spec_get_str(c, "status"@), "unknown"@);
            Some(
                SpecComponent {
                    name,
                    status: spec_map_component_status(st),
                    description: spec_underscores_to_spaces(st),
                },
            )
        },
    }
}

/// The components listed without a group filter, in payload order.
pub open spec fn spec_plain_components(cs: Seq<JsonValue>, group_id: Option<Seq<char>>) -> Seq<
    SpecComponent,
>
    decreases cs.len(),
{
    if cs.len() == 0 {
        Seq::empty()
    } else {
        let rest = spec_plain_components(cs.drop_last(), group_id);
        match spec_plain_component(cs.last(), group_id) {
            Some(x) => rest.push(x),
            None => rest,
        }
    }
}

/// The id of a group header whose name starts with `prefix`.
pub open spec fn spec_matched_group(c: JsonValue, prefix: Seq<char>) -> Option<Seq<char>> {
    if !spec_is_group(c) {
        None
    } else {
        match spec_get_str(c, "name"@) {
            Some(name) => if spec_starts_with(name, prefix) {
                spec_get_str(c, "id"@)
            } else {
                None
            },
            None => None,
        }
    }
}

/// Ids of the group headers whose name starts with `prefix`, in payload order.
pub open spec fn spec_matched_groups(cs: Seq<JsonValue>, prefix: Seq<char>) -> Seq<Seq<char>>
    decreases cs.len(),
{
    if cs.len() == 0 {
        Seq::empty()
    } else {
        let rest = spec_matched_groups(cs.drop_last(), prefix);
        match spec_matched_group(cs.last(), prefix) {
            Some(id) => rest.push(id),
            None => rest,
        }
    }
}

/// The first component whose `id` is `gid`.
pub open spec fn spec_first_with_id(cs: Seq<JsonValue>, gid: Seq<char>) -> Option<JsonValue>
    decreases cs.len(),
{
    if cs.len() == 0 {
        None
    } else if spec_get_str(cs[0], "id"@) == Some(gid) {
        Some(cs[0])
    } else {
        spec_first_with_id(cs.drop_first(), gid)
    }
}

/// The components that belong to group `gid`.
pub open spec fn spec_children(cs: Seq<JsonValue>, gid: Seq<char>) -> Seq<JsonValue> {
    cs.filter(|c: JsonValue| spec_get_str(c, "group_id"@) == Some(gid))
}

/// The status a child component reports (a missing status is unknown).
pub open spec fn spec_child_status(c: JsonValue) -> WatchStatus {
    spec_map_component_status(or_default(spec_get_str(c, "status"@), "unknown"@))
}

/// The worst status among children, starting from Success.
pub open spec fn spec_children_worst(children: Seq<JsonValue>) -> WatchStatus {
    spec_worst(children.map_values(|c: JsonValue| spec_child_status(c)))
}

/// A child counted as affected: its status (operational when missing) is
/// not "operational".
pub open spec fn spec_is_affected(c: JsonValue) -> bool {
    or_default(spec_get_str(c, "status"@), "operational"@) != "operational"@
}

/// The first affected child.
pub open spec fn spec_first_affected(children: Seq<JsonValue>) -> Option<JsonValue>
    decreases children.len(),
{
    if children.len() == 0 {
        None
    } else if spec_is_affected(children[0]) {
        Some(children[0])
    } else {
        spec_first_affected(children.drop_first())
    }
}

/// The description of a group: "operational", or "name: status" of its first
/// affected child, or "affected" when that child lacks a name or status.
pub open spec fn spec_group_description(children: Seq<JsonValue>) -> Seq<char> {
    if spec_children_worst(children) == WatchStatus::Success {
        "operational"@
    } else {
        match spec_first_affected(children) {
            Some(c) => match (spec_get_str(c, "name"@), spec_get_str(c, "status"@)) {
                (Some(n), Some(s)) => n + ": "@ + spec_underscores_to_spaces(s),
                _ => "affected"@,
            },
            None => "affected"@,
        }
    }
}

/// The component shown for group `gid`: named after the first component
/// with that id, with the worst status of the group's children.
pub open spec fn spec_group_component(cs: Seq<JsonValue>, gid: Seq<char>) -> Option<SpecComponent> {
    match spec_first_with_id(cs, gid) {
        Some(g) => match spec_get_str(g, "name"@) {
            Some(name) => Some(
                SpecComponent {
                    name,
                    status: spec_children_worst(spec_children(cs, gid)),
                    description: spec_group_description(spec_children(cs, gid)),
                },
            ),
            None => None,
        },
        None => None,
    }
}

/// One component per group id, skipping ids without a named group.
pub open spec fn spec_group_components(cs: Seq<JsonValue>, gids: Seq<Seq<char>>) -> Seq<SpecComponent>
    decreases gids.len(),
{
    if gids.len() == 0 {
        Seq::empty()
    } else {
        let rest = spec_group_components(cs, gids.drop_last());
        match spec_group_component(cs, gids.last()) {
            Some(x) => rest.push(x),
            None => rest,
        }
    }
}

/// The components of a summary payload.
pub open spec fn spec_components(
    data: JsonValue,
    group_id: Option<Seq<char>>,
    group_filter: Option<Seq<char>>,
) -> Seq<SpecComponent> {
    let cs = spec_as_array(spec_get(data, "components"@));
    match group_filter {
        Some(prefix) => match cs {
            Some(cs) => spec_group_components(cs, spec_matched_groups(cs, prefix)),
            None => Seq::empty(),
        },
        None => match cs {
            Some(cs) => spec_plain_components(cs, group_id),
            None => Seq::empty(),
        },
    }
}

/// The first component that is not in the Success state.
pub open spec fn spec_first_unhealthy(cs: Seq<SpecComponent>) -> Option<SpecComponent>
    decreases cs.len(),
{
    if cs.len() == 0 {
        None
    } else if cs[0].status != WatchStatus::Success {
        Some(cs[0])
    } else {
        spec_first_unhealthy(cs.drop_first())
    }
}

/// The statuses of components.
pub open spec fn spec_statuses(cs: Seq<SpecComponent>) -> Seq<WatchStatus> {
    cs.map_values(|c: SpecComponent| c.status)
}

/// The `status.description` string of the payload ("Unknown" if missing).
pub open spec fn spec_page_description(data: JsonValue) -> Seq<char> {
    or_default(spec_status_member(data, "description"@), "Unknown"@)
}

/// The `status.indicator` string of the payload ("unknown" if missing).
pub open spec fn spec_page_indicator(data: JsonValue) -> Seq<char> {
    or_default(spec_status_member(data, "indicator"@), "unknown"@)
}

/// Overall status and description. Without a filter they come from the
/// page's indicator and description; with a filter, from the worst
/// component ("All services operational", or "name: description" of the
/// first unhealthy component).
pub open spec fn spec_overall(
    data: JsonValue,
    has_filter: bool,
    components: Seq<SpecComponent>,
) -> (WatchStatus, Seq<char>) {
    if has_filter {
        let worst = spec_worst(spec_statuses(components));
        if worst == WatchStatus::Success {
            (worst, "All services operational"@)
        } else {
            match spec_first_unhealthy(components) {
                Some(c) => (worst, c.name + ": "@ + c.description),
                None => (worst, spec_page_description(data)),
            }
        }
    } else {
        (spec_map_indicator(spec_page_indicator(data)), spec_page_description(data))
    }
}

// ---------------------------------------------------------------------------
// Executable summary
// ---------------------------------------------------------------------------

fn str_or<'a>(o: Option<&'a str>, d: &'a str) -> (r: &'a str)
    ensures
        r@ == or_default(
            match o {
                Some(s) => Some(s@),
                None => None,
            },
            d@,
        ),
{
    match o {
        Some(s) => s,
        None => d,
    }
}

fn is_group(c: &JsonValue) -> (b: bool)
    ensures
        b == spec_is_group(*c),
{
    match get_bool(c, "group") {
        Some(b) => b,
        None => false,
    }
}

fn plain_component(c: &JsonValue, group_id: &Option<String>) -> (r: Option<ComponentStatus>)
    ensures
        match r {
            Some(x) => spec_plain_component(
                *c,
                match group_id {
                    Some(g) => Some(g@),
                    None => None,
                },
            ) == Some(x@),
            None => spec_plain_component(
                *c,
                match group_id {
                    Some(g) => Some(g@),
                    None => None,
                },
            ) is None,
        },
{
    let name = match get_str(c, "name") {
        Some(n) => n,
        None => {
            return None;
        },
    };
    if starts_with(name, "Visit ") {
        return None;
    }
    if is_group(c) {
        return None;
    }
    match group_id {
        Some(gid) => {
            let same = match get_str(c, "group_id") {
                Some(cg) => str_eq(cg, gid.as_str()),
                None => false,
            };
            if !same {
                return None;
            }
        },
        None => {},
    }
    let st = str_or(get_str(c, "status"), "unknown");
    Some(
        ComponentStatus {
            name: name.to_owned(),
            status: map_component_status(st),
            description: underscores_to_spaces(st),
        },
    )
}

fn plain_components(cs: &Vec<JsonValue>, group_id: &Option<String>) -> (r: Vec<ComponentStatus>)
    ensures
        view_components(r@) == spec_plain_components(
            cs@,
            match group_id {
                Some(g) => Some(g@),
                None => None,
            },
        ),
{
    let ghost gid = match group_id {
        Some(g) => Some(g@),
        None => None,
    };
    let mut out: Vec<ComponentStatus> = Vec::new();
    let mut i: usize = 0;
    while i < cs.len()
        invariant
            i <= cs@.len(),
            gid == match group_id {
                Some(g) => Some(g@),
                None => None::<Seq<char>>,
            },
            view_components(out@) == spec_plain_components(cs@.take(i as int), gid),
        decreases cs.len() - i,
    {
        assert(cs@.take(i + 1).drop_last() =~= cs@.take(i as int));
        assert(cs@.take(i + 1).last() == cs@[i as int]);
        let ghost before = out@;
        match plain_component(&cs[i], group_id) {
            Some(x) => {
                out.push(x);
                assert(view_components(out@) =~= view_components(before).push(x@));
            },
            None => {},
        }
        i = i + 1;
    }
    assert(cs@.take(cs@.len() as int) =~= cs@);
    out
}

fn matched_groups(cs: &Vec<JsonValue>, prefix: &str) -> (r: Vec<String>)
    ensures
        r@.map_values(|s: String| s@) == spec_matched_groups(cs@, prefix@),
{
    let mut out: Vec<String> = Vec::new();
    let mut i: usize = 0;
    while i < cs.len()
        invariant
            i <= cs@.len(),
            out@.map_values(|s: String| s@) == spec_matched_groups(cs@.take(i as int), prefix@),
        decreases cs.len() - i,
    {
        assert(cs@.take(i + 1).drop_last() =~= cs@.take(i as int));
        assert(cs@.take(i + 1).last() == cs@[i as int]);
        let ghost before = out@;
        let c = &cs[i];
        if is_group(c) {
            match get_str(c, "name") {
                Some(name) => {
                    if starts_with(name, prefix) {
                        match get_str(c, "id") {
                            Some(id) => {
                                out.push(id.to_owned());
                                assert(out@.map_values(|s: String| s@) =~= before.map_values(
                                    |s: String| s@,
                                ).push(id@));
                            },
                            None => {},
                        }
                    }
                },
                None => {},
            }
        }
        i = i + 1;
    }
    assert(cs@.take(cs@.len() as int) =~= cs@);
    out
}

fn first_with_id<'a>(cs: &'a Vec<JsonValue>, gid: &str) -> (r: Option<&'a JsonValue>)
    ensures
        match r {
            Some(x) => spec_first_with_id(cs@, gid@) == Some(*x),
            None => spec_first_with_id(cs@, gid@) is None,
        },
{
    let mut i: usize = 0;
    assert(cs@.skip(0) =~= cs@);
    while i < cs.len()
        invariant
            i <= cs@.len(),
            spec_first_with_id(cs@, gid@) == spec_first_with_id(cs@.skip(i as int), gid@),
        decreases cs.len() - i,
    {
        assert(cs@.skip(i as int).drop_first() =~= cs@.skip(i + 1));
        assert(cs@.skip(i as int)[0] == cs@[i as int]);
        let same = match get_str(&cs[i], "id") {
            Some(id) => str_eq(id, gid),
            None => false,
        };
        if same {
            return Some(&cs[i]);
        }
        i = i + 1;
    }
    None
}

/// The worst child status and the group's description.
fn group_status(cs: &Vec<JsonValue>, gid: &str) -> (r: (WatchStatus, String))
    ensures
        r.0 == spec_children_worst(spec_children(cs@, gid@)),
        r.1@ == spec_group_description(spec_children(cs@, gid@)),
{
    let ghost pred = |c: JsonValue| spec_get_str(c, "group_id"@) == Some(gid@);
    let mut worst = WatchStatus::Success;
    let mut affected: Option<&JsonValue> = None;
    let mut i: usize = 0;
    assert(cs@.take(0).filter(pred) =~= Seq::<JsonValue>::empty());
    while i < cs.len()
        invariant
            i <= cs@.len(),
            pred == (|c: JsonValue| spec_get_str(c, "group_id"@) == Some(gid@)),
            worst == spec_children_worst(cs@.take(i as int).filter(pred)),
            match affected {
                Some(a) => spec_first_affected(cs@.take(i as int).filter(pred)) == Some(*a),
                None => spec_first_affected(cs@.take(i as int).filter(pred)) is None,
            },
        decreases cs.len() - i,
    {
        let ghost prev = cs@.take(i as int).filter(pred);
        assert(cs@.take(i + 1).drop_last() =~= cs@.take(i as int));
        assert(cs@.take(i + 1).last() == cs@[i as int]);
        reveal_with_fuel(Seq::filter, 1);
        let c = &cs[i];
        let belongs = match get_str(c, "group_id") {
            Some(g) => str_eq(g, gid),
            None => false,
        };
        if belongs {
            let ghost next = prev.push(*c);
            assert(cs@.take(i + 1).filter(pred) == next);
            let st = map_component_status(str_or(get_str(c, "status"), "unknown"));
            assert(next.map_values(|x: JsonValue| spec_child_status(x)) =~= prev.map_values(
                |x: JsonValue| spec_child_status(x),
            ).push(spec_child_status(*c)));
            assert(next.map_values(|x: JsonValue| spec_child_status(x)).drop_last()
                =~= prev.map_values(|x: JsonValue| spec_child_status(x)));
            worst = pick_worse(worst, st);
            proof {
                lemma_first_affected_push(prev, *c);
            }
            if affected.is_none() {
                let is_aff = !str_eq(str_or(get_str(c, "status"), "operational"), "operational");
                if is_aff {
                    affected = Some(c);
                }
            }
        } else {
            assert(cs@.take(i + 1).filter(pred) == prev);
        }
        i = i + 1;
    }
    assert(cs@.take(cs@.len() as int) =~= cs@);
    let desc = if worst == WatchStatus::Success {
        "operational".to_owned()
    } else {
        match affected {
            Some(a) => match (get_str(a, "name"), get_str(a, "status")) {
                (Some(n), Some(s)) => concat3(n, ": ", underscores_to_spaces(s).as_str()),
                _ => "affected".to_owned(),
            },
            None => "affected".to_owned(),
        }
    };
    (worst, desc)
}

proof fn lemma_first_affected_push(s: Seq<JsonValue>, c: JsonValue)
    ensures
        spec_first_affected(s.push(c)) == match spec_first_affected(s) {
            Some(a) => Some(a),
            None => if spec_is_affected(c) {
                Some(c)
            } else {
                None
            },
        },
    decreases s.len(),
{
    if s.len() > 0 {
        assert(s.push(c).drop_first() =~= s.drop_first().push(c));
        assert(s.push(c)[0] == s[0]);
        lemma_first_affected_push(s.drop_first(), c);
    } else {
        assert(s.push(c).drop_first() =~= Seq::<JsonValue>::empty());
        assert(s.push(c)[0] == c);
        assert(spec_first_affected(s.push(c).drop_first()) is None);
    }
}

fn group_components(cs: &Vec<JsonValue>, gids: &Vec<String>) -> (r: Vec<ComponentStatus>)
    ensures
        view_components(r@) == spec_group_components(cs@, gids@.map_values(|s: String| s@)),
{
    let ghost ids = gids@.map_values(|s: String| s@);
    let mut out: Vec<ComponentStatus> = Vec::new();
    let mut i: usize = 0;
    while i < gids.len()
        invariant
            i <= gids@.len(),
            ids == gids@.map_values(|s: String| s@),
            view_components(out@) == spec_group_components(cs@, ids.take(i as int)),
        decreases gids.len() - i,
    {
        assert(ids.take(i + 1).drop_last() =~= ids.take(i as int));
        assert(ids.take(i + 1).last() == gids@[i as int]@);
        let gid = gids[i].as_str();
        let ghost before = out@;
        match first_with_id(cs, gid) {
            Some(g) => match get_str(g, "name") {
                Some(name) => {
                    let (worst, desc) = group_status(cs, gid);
                    let x = ComponentStatus { name: name.to_owned(), status: worst, description: desc };
                    out.push(x);
                    assert(view_components(out@) =~= view_components(before).push(x@));
                },
                None => {},
            },
            None => {},
        }
        i = i + 1;
    }
    assert(ids.take(ids.len() as int) =~= ids);
    out
}

fn empty_components() -> (r: Vec<ComponentStatus>)
    ensures
        view_components(r@) == Seq::<SpecComponent>::empty(),
{
    let r = Vec::new();
    assert(view_components(r@) =~= Seq::<SpecComponent>::empty());
    r
}

fn first_unhealthy(cs: &Vec<ComponentStatus>) -> (r: Option<&ComponentStatus>)
    ensures
        match r {
            Some(x) => spec_first_unhealthy(view_components(cs@)) == Some(x@),
            None => spec_first_unhealthy(view_components(cs@)) is None,
        },
{
    let ghost v = view_components(cs@);
    let mut i: usize = 0;
    assert(v.skip(0) =~= v);
    while i < cs.len()
        invariant
            i <= cs@.len(),
            v == view_components(cs@),
            spec_first_unhealthy(v) == spec_first_unhealthy(v.skip(i as int)),
        decreases cs.len() - i,
    {
        assert(v.skip(i as int).drop_first() =~= v.skip(i + 1));
        assert(v.skip(i as int)[0] == cs@[i as int]@);
        if cs[i].status != WatchStatus::Success {
            return Some(&cs[i]);
        }
        i = i + 1;
    }
    None
}

fn worst_of(cs: &Vec<ComponentStatus>) -> (r: WatchStatus)
    ensures
        r == spec_worst(spec_statuses(view_components(cs@))),
{
    let ghost v = spec_statuses(view_components(cs@));
    let mut w = WatchStatus::Success;
    let mut i: usize = 0;
    assert(v.take(0) =~= Seq::<WatchStatus>::empty());
    while i < cs.len()
        invariant
            i <= cs@.len(),
            v == spec_statuses(view_components(cs@)),
            w == spec_worst(v.take(i as int)),
        decreases cs.len() - i,
    {
        assert(v.take(i + 1).drop_last() =~= v.take(i as int));
        assert(v.take(i + 1).last() == cs@[i as int].status);
        w = pick_worse(w, cs[i].status);
        i = i + 1;
    }
    assert(v.take(v.len() as int) =~= v);
    w
}

/// The string member `key` of the payload's `status` object.
pub open spec fn spec_status_member(data: JsonValue, key: Seq<char>) -> Option<Seq<char>> {
    match spec_get(data, "status"@) {
        Some(st) => spec_get_str(st, key),
        None => None,
    }
}

fn page_status_str<'a>(data: &'a JsonValue, key: &str) -> (r: Option<&'a str>)
    ensures
        match r {
            Some(s) => spec_status_member(*data, key@) == Some(s@),
            None => spec_status_member(*data, key@) is None,
        },
{
    match data.get("status") {
        Some(st) => get_str(st, key),
        None => None,
    }
}

/// Turns a StatusPage summary payload into the adapter result, applying the
/// `group_id` / `group_filter` options of the adapter configuration.
pub fn summarize(data: JsonValue, adapter_config: Option<&StrMap<ConfigValue>>) -> (r: AdapterResult)
    ensures
        ({
            let gid = match adapter_config {
                Some(c) => spec_config_str(c@, "group_id"@),
                None => None,
            };
            let gf = match adapter_config {
                Some(c) => spec_config_str(c@, "group_filter"@),
                None => None,
            };
            let comps = spec_components(data, gid, gf);
            &&& view_components(r.components@) == comps
            &&& (r.status, r.description@) == spec_overall(data, gid is Some || gf is Some, comps)
            &&& r.data == data
        }),
{
    let group_id = match adapter_config {
        Some(c) => get_config_str(c, "group_id"),
        None => None,
    };
    let group_filter = match adapter_config {
        Some(c) => get_config_str(c, "group_filter"),
        None => None,
    };
    let indicator = str_or(page_status_str(&data, "indicator"), "unknown");
    let description = str_or(page_status_str(&data, "description"), "Unknown").to_owned();
    let status = map_indicator(indicator);

    let components: Vec<ComponentStatus> = match &group_filter {
        Some(prefix) => match data.get("components") {
            Some(v) => match v.as_array() {
                Some(cs) => {
                    let gids = matched_groups(cs, prefix.as_str());
                    group_components(cs, &gids)
                },
                None => empty_components(),
            },
            None => empty_components(),
        },
        None => match data.get("components") {
            Some(v) => match v.as_array() {
                Some(cs) => plain_components(cs, &group_id),
                None => empty_components(),
            },
            None => empty_components(),
        },
    };

    let has_filter = group_id.is_some() || group_filter.is_some();
    let (status, description) = if has_filter {
        let worst = worst_of(&components);
        let desc = if worst == WatchStatus::Success {
            "All services operational".to_owned()
        } else {
            match first_unhealthy(&components) {
                Some(c) => concat3(c.name.as_str(), ": ", c.description.as_str()),
                None => description,
            }
        };
        (worst, desc)
    } else {
        (status, description)
    };
    AdapterResult { status, description, data, components }
}

/// The summary endpoint of a StatusPage watch: its URL without trailing
/// slashes, then `/api/v2/summary.json`. A watch without a URL cannot run.
pub fn summary_url(watch: &crate::config::Watch) -> (r: Result<String, AdapterError>)
    ensures
        match watch.url {
            None => r matches Err(AdapterError::ParseError(m)) && m@ == "statuspage adapter requires a url"@,
            Some(u) => r matches Ok(x) && x@ == crate::text::spec_trim_end_slashes(u@) + "/api/v2/summary.json"@,
        },
{
    match &watch.url {
        Some(u) => Ok(crate::text::join_url(u.as_str(), "/api/v2/summary.json")),
        None => Err(AdapterError::ParseError("statuspage adapter requires a url".to_owned())),
    }
}

proof fn lemma_matched_groups_contain(cs: Seq<JsonValue>, prefix: Seq<char>, k: int, name: Seq<char>, id: Seq<char>)
    requires
        0 <= k < cs.len(),
        spec_is_group(cs[k]),
        spec_get_str(cs[k], "name"@) == Some(name),
        prefix.len() <= name.len(),
        name.take(prefix.len() as int) == prefix,
        spec_get_str(cs[k], "id"@) == Some(id),
    ensures
        spec_matched_groups(cs, prefix).contains(id),
    decreases cs.len(),
{
    let rest = spec_matched_groups(cs.drop_last(), prefix);
    if k == cs.len() - 1 {
        assert(spec_matched_group(cs.last(), prefix) == Some(id));
        assert(spec_matched_groups(cs, prefix) == rest.push(id));
        assert(rest.push(id)[rest.len() as int] == id);
    } else {
        assert(cs.drop_last()[k] == cs[k]);
        lemma_matched_groups_contain(cs.drop_last(), prefix, k, name, id);
        let j = choose|j: int| 0 <= j < rest.len() && rest[j] == id;
        match spec_matched_group(cs.last(), prefix) {
            Some(x) => {
                assert(spec_matched_groups(cs, prefix) == rest.push(x));
                assert(rest.push(x)[j] == id);
            },
            None => {},
        }
    }
}

proof fn lemma_first_with_id(cs: Seq<JsonValue>, id: Seq<char>, k: int)
    requires
        0 <= k < cs.len(),
        spec_get_str(cs[k], "id"@) == Some(id),
        forall|j: int| 0 <= j < k ==> spec_get_str(#[trigger] cs[j], "id"@) != Some(id),
    ensures
        spec_first_with_id(cs, id) == Some(cs[k]),
    decreases k,
{
    if k > 0 {
        assert(spec_get_str(cs[0], "id"@) != Some(id));
        assert forall|j: int| 0 <= j < k - 1 implies spec_get_str(#[trigger] cs.drop_first()[j], "id"@) != Some(id) by {
            assert(cs.drop_first()[j] == cs[j + 1]);
        }
        lemma_first_with_id(cs.drop_first(), id, k - 1);
    }
}

proof fn lemma_group_components_contain(cs: Seq<JsonValue>, gids: Seq<Seq<char>>, id: Seq<char>, c: SpecComponent)
    requires
        gids.contains(id),
        spec_group_component(cs, id) == Some(c),
    ensures
        spec_group_components(cs, gids).contains(c),
    decreases gids.len(),
{
    let rest = spec_group_components(cs, gids.drop_last());
    if gids.last() == id {
        assert(spec_group_components(cs, gids) == rest.push(c));
        assert(rest.push(c)[rest.len() as int] == c);
    } else {
        let j = choose|j: int| 0 <= j < gids.len() && gids[j] == id;
        assert(gids.drop_last()[j] == id);
        lemma_group_components_contain(cs, gids.drop_last(), id, c);
        let q = choose|q: int| 0 <= q < rest.len() && rest[q] == c;
        match spec_group_component(cs, gids.last()) {
            Some(x) => {
                assert(rest.push(x)[q] == c);
            },
            None => {},
        }
    }
}

/// With a `group_filter`, every group header of the payload whose name
/// begins with the filter text (and which is the first component carrying
/// its id) is shown: the components contain one named after that group.
pub proof fn law_filtered_groups_are_shown(
    data: JsonValue,
    group_id: Option<Seq<char>>,
    prefix: Seq<char>,
    k: int,
    name: Seq<char>,
    id: Seq<char>,
)
    requires
        spec_as_array(spec_get(data, "components"@)) matches Some(cs) && 0 <= k < cs.len() && spec_is_group(cs[k])
            && spec_get_str(cs[k], "name"@) == Some(name) && spec_get_str(cs[k], "id"@) == Some(id)
            && forall|j: int| 0 <= j < k ==> spec_get_str(#[trigger] cs[j], "id"@) != Some(id),
        prefix.len() <= name.len(),
        name.take(prefix.len() as int) == prefix,
    ensures
        exists|i: int|
            0 <= i < spec_components(data, group_id, Some(prefix)).len() && #[trigger] spec_components(
                data,
                group_id,
                Some(prefix),
            )[i].name == name,
{
    let cs = spec_as_array(spec_get(data, "components"@))->0;
    lemma_matched_groups_contain(cs, prefix, k, name, id);
    lemma_first_with_id(cs, id, k);
    let c = spec_group_component(cs, id)->0;
    assert(c.name == name);
    lemma_group_components_contain(cs, spec_matched_groups(cs, prefix), id, c);
    let comps = spec_components(data, group_id, Some(prefix));
    let i = choose|i: int| 0 <= i < comps.len() && comps[i] == c;
    assert(comps[i].name == name);
}

} // verus!
