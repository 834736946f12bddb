//! Merging a watch with the built-in preset it names.

use vstd::prelude::*;
use crate::config::{Conditions, Watch};
use crate::strmap::{keys_distinct, map_of, StrMap};

verus! {

/// The first option when it is set, else the second.
pub open spec fn or_else<T>(a: Option<T>, b: Option<T>) -> Option<T> {
    match a {
        Some(x) => Some(x),
        None => b,
    }
}

/// True when any of the four conditions is set.
pub open spec fn spec_has_any(c: Conditions) -> bool {
    c.error is Some || c.warning is Some || c.maintenance is Some || c.success is Some
}

/// Merge conditions: if the override has any field set, use the override block entirely.
/// Otherwise use the base block.
pub fn merge_conditions(base: Conditions, override_with: Conditions) -> (r: Conditions)
    ensures
        r == if spec_has_any(override_with) {
            override_with
        } else {
            base
        },
{
    let override_has_any = override_with.error.is_some() || override_with.warning.is_some()
        || override_with.maintenance.is_some() || override_with.success.is_some();
    if override_has_any {
        override_with
    } else {
        base
    }
}

/// Merge two header maps. Override wins on key conflicts.
pub fn merge_headers(base: StrMap<String>, override_with: &StrMap<String>) -> (r: StrMap<String>)
    ensures
        r@ == base@.union_prefer_right(override_with@),
{
    let mut merged = base;
    let entries = override_with.entries();
    let ghost es = entries@;
    let ghost start = merged@;
    let mut i: usize = 0;
    assert(es.take(0) =~= Seq::<(String, String)>::empty());
    assert(start.union_prefer_right(map_of(es.take(0))) =~= start);
    while i < entries.len()
        invariant
            i <= es.len(),
            es == entries@,
            merged@ == start.union_prefer_right(map_of(es.take(i as int))),
        decreases entries.len() - i,
    {
        assert(es.take(i + 1).drop_last() =~= es.take(i as int));
        let k = entries[i].0.clone();
        let v = entries[i].1.clone();
        merged.insert(k, v);
        assert(start.union_prefer_right(map_of(es.take(i + 1))) =~= start.union_prefer_right(
            map_of(es.take(i as int)),
        ).insert(es[i as int].0@, es[i as int].1));
        i = i + 1;
    }
    assert(es.take(es.len() as int) =~= es);
    merged
}

/// `r` is `override_with` laid over `base`, field by field as
/// [`merge_watch`] describes.
pub open spec fn spec_merged(base: Watch, override_with: Watch, r: Watch) -> bool {
    &&& r.name == or_else(override_with.name, base.name)
    &&& r.watch_type == or_else(override_with.watch_type, base.watch_type)
    &&& r.command == or_else(override_with.command, base.command)
    &&& r.shell == or_else(override_with.shell, base.shell)
    &&& r.format == or_else(override_with.format, base.format)
    &&& r.interval == or_else(override_with.interval, base.interval)
    &&& r.url == or_else(override_with.url, base.url)
    &&& r.link == or_else(override_with.link, base.link)
    &&& r.expand == override_with.expand
    &&& r.notify == or_else(override_with.notify, base.notify)
    &&& r.preset == or_else(override_with.preset, base.preset)
    &&& r.conditions == if spec_has_any(override_with.conditions) {
        override_with.conditions
    } else {
        base.conditions
    }
    &&& r.display == or_else(override_with.display, base.display)
    &&& r.details@ == if override_with.details@.len() == 0 {
        base.details@
    } else {
        override_with.details@
    }
    &&& r.headers@ == base.headers@.union_prefer_right(override_with.headers@)
    &&& r.adapter == or_else(override_with.adapter, base.adapter)
    &&& r.adapter_config == or_else(override_with.adapter_config, base.adapter_config)
}

/// Merge two `Watch` values: `base` provides defaults, `override_with` wins on conflicts.
///
/// Rules per field:
/// - `Option` fields: use override's value when `Some`, else fall back to base.
/// - `expand`: always use override's value.
/// - `conditions`: if override has any condition set, use the entire override block;
///   otherwise use base's conditions.
/// - `display`: use override's block if `Some`, else base's.
/// - `details`: use override's list if non-empty, else base's.
/// - `headers`: merge both maps; override wins on key conflicts.
pub fn merge_watch(base: Watch, override_with: Watch) -> (r: Watch)
    ensures
        spec_merged(base, override_with, r),
{
    let headers = merge_headers(base.headers, &override_with.headers);
    Watch {
        name: or(override_with.name, base.name),
        watch_type: or(override_with.watch_type, base.watch_type),
        command: or(override_with.command, base.command),
        shell: or(override_with.shell, base.shell),
        format: or(override_with.format, base.format),
        interval: or(override_with.interval, base.interval),
        url: or(override_with.url, base.url),
        link: or(override_with.link, base.link),
        expand: override_with.expand,
        notify: or(override_with.notify, base.notify),
        preset: or(override_with.preset, base.preset),
        conditions: merge_conditions(base.conditions, override_with.conditions),
        display: or(override_with.display, base.display),
        details: if override_with.details.len() == 0 {
            base.details
        } else {
            override_with.details
        },
        headers,
        adapter: or(override_with.adapter, base.adapter),
        adapter_config: or(override_with.adapter_config, base.adapter_config),
    }
}

fn or<T>(a: Option<T>, b: Option<T>) -> (r: Option<T>)
    ensures
        r == or_else(a, b),
{
    match a {
        Some(x) => Some(x),
        None => b,
    }
}

/// Resolves a watch against its preset: the preset (when the watch names
/// one and it is known) provides defaults and the watch's own fields win.
pub fn apply_preset(watch: Watch, preset: Option<Watch>) -> (r: Watch)
    ensures
        preset is None ==> r == watch,
        preset matches Some(p) ==> spec_merged(p, watch, r),
{
    match preset {
        Some(p) => merge_watch(p, watch),
        None => watch,
    }
}

/// Some watch uses the preset `name`.
pub open spec fn spec_preset_enabled(watches: Seq<Watch>, name: Seq<char>) -> bool {
    exists|i: int| 0 <= i < watches.len() && (#[trigger] watches[i]).preset is Some && watches[i].preset->0@ == name
}

fn preset_enabled(watches: &Vec<Watch>, name: &str) -> (r: bool)
    ensures
        r == spec_preset_enabled(watches@, name@),
{
    let mut i: usize = 0;
    while i < watches.len()
        invariant
            i <= watches@.len(),
            forall|j: int|
                0 <= j < i ==> !((#[trigger] watches@[j]).preset is Some && watches@[j].preset->0@ == name@),
        decreases watches.len() - i,
    {
        match &watches[i].preset {
            Some(p) => {
                if crate::json::str_eq(p.as_str(), name) {
                    assert(watches@[i as int].preset is Some && watches@[i as int].preset->0@ == name@);
                    return true;
                }
            },
            None => {},
        }
        i = i + 1;
    }
    false
}

/// Every known preset with whether it is enabled: some watch uses it.
pub fn preset_flags(all: Vec<String>, watches: &Vec<Watch>) -> (r: Vec<(String, bool)>)
    ensures
        r@.len() == all@.len(),
        forall|i: int|
            0 <= i < all@.len() ==> (#[trigger] r@[i]).0 == all@[i] && r@[i].1 == spec_preset_enabled(
                watches@,
                all@[i]@,
            ),
{
    let mut out: Vec<(String, bool)> = Vec::new();
    let mut i: usize = 0;
    while i < all.len()
        invariant
            i <= all@.len(),
            out@.len() == i,
            forall|j: int|
                0 <= j < i ==> (#[trigger] out@[j]).0 == all@[j] && out@[j].1 == spec_preset_enabled(
                    watches@,
                    all@[j]@,
                ),
        decreases all.len() - i,
    {
        let name = all[i].clone();
        let enabled = preset_enabled(watches, name.as_str());
        out.push((name, enabled));
        i = i + 1;
    }
    out
}

} // verus!
