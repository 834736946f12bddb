//! Google status dashboard adapter.
//!
//! The dashboard provides `{base_url}/products.json` (all services) and
//! `{base_url}/incidents.json` (incidents; active when `end` is null). One
//! component is produced per product, marking those with active incidents.

use vstd::prelude::*;
use crate::adapter::{view_components, AdapterError, AdapterResult, ComponentStatus, SpecComponent};
use crate::adapter::json_api::{get_config_str, spec_config_str};
use crate::config::ConfigValue;
use crate::json::{str_eq, JsonValue};
use crate::state::{pick_worse, spec_worst, WatchStatus};
use crate::strmap::StrMap;
use crate::text::{concat3, opt_view, spec_decimal, u64_to_decimal};

verus! {

/// A product listed by the dashboard.
#[derive(Debug, Clone, PartialEq)]
pub struct Product {
    pub title: String,
    pub id: String,
}

/// A product an incident affects.
#[derive(Debug, Clone, PartialEq)]
pub struct AffectedProduct {
    pub id: String,
}

/// A location an incident currently affects.
#[derive(Debug, Clone, PartialEq)]
pub struct Location {
    pub id: String,
}

/// An incident of the dashboard.
#[derive(Debug, Clone, PartialEq)]
pub struct Incident {
    pub affected_products: Vec<AffectedProduct>,
    pub currently_affected_locations: Vec<Location>,
    pub status_impact: Option<String>,
    pub end: Option<String>,
    pub external_desc: Option<String>,
}

/// The status an incident's impact stands for.
pub open spec fn spec_impact_status(i: Incident) -> WatchStatus {
    match i.status_impact {
        Some(s) => if s@ == "SERVICE_OUTAGE"@ {
            WatchStatus::Error
        } else if s@ == "SERVICE_DISRUPTION"@ {
            WatchStatus::Warning
        } else if s@ == "SERVICE_INFORMATION"@ {
            WatchStatus::Maintenance
        } else {
            WatchStatus::Unknown
        },
        None => WatchStatus::Unknown,
    }
}

fn impact_status(i: &Incident) -> (r: WatchStatus)
    ensures
        r == spec_impact_status(*i),
{
    match &i.status_impact {
        Some(s) => {
            if str_eq(s.as_str(), "SERVICE_OUTAGE") {
                WatchStatus::Error
            } else if str_eq(s.as_str(), "SERVICE_DISRUPTION") {
                WatchStatus::Warning
            } else if str_eq(s.as_str(), "SERVICE_INFORMATION") {
                WatchStatus::Maintenance
            } else {
                WatchStatus::Unknown
            }
        },
        None => WatchStatus::Unknown,
    }
}

/// The worst impact among incidents (Success when there are none).
pub open spec fn spec_aggregate_worst(incidents: Seq<&Incident>) -> WatchStatus {
    spec_worst(incidents.map_values(|i: &Incident| spec_impact_status(*i)))
}

/// Determines the worst status across all active incidents.
pub fn aggregate_worst(incidents: &[&Incident]) -> (r: WatchStatus)
    ensures
        r == spec_aggregate_worst(incidents@),
{
    let ghost v = incidents@.map_values(|i: &Incident| spec_impact_status(*i));
    if incidents.len() == 0 {
        return WatchStatus::Success;
    }
    let mut worst = WatchStatus::Success;
    let mut k: usize = 0;
    assert(v.take(0) =~= Seq::<WatchStatus>::empty());
    while k < incidents.len()
        invariant
            k <= incidents@.len(),
            v == incidents@.map_values(|i: &Incident| spec_impact_status(*i)),
            worst == spec_worst(v.take(k as int)),
        decreases incidents.len() - k,
    {
        assert(v.take(k + 1).drop_last() =~= v.take(k as int));
        assert(v.take(k + 1).last() == spec_impact_status(*incidents@[k as int]));
        worst = pick_worse(worst, impact_status(incidents[k]));
        k = k + 1;
    }
    assert(v.take(v.len() as int) =~= v);
    worst
}

/// The incident lists `pid` among the products it affects.
pub open spec fn spec_affects(i: Incident, pid: Seq<char>) -> bool {
    exists|k: int| 0 <= k < i.affected_products@.len() && i.affected_products@[k].id@ == pid
}

/// The first incident that affects product `pid`.
pub open spec fn spec_incident_for(incidents: Seq<&Incident>, pid: Seq<char>) -> Option<Incident>
    decreases incidents.len(),
{
    if incidents.len() == 0 {
        None
    } else if spec_affects(*incidents[0], pid) {
        Some(*incidents[0])
    } else {
        spec_incident_for(incidents.drop_first(), pid)
    }
}

/// The component shown for a product: the impact and description of the
/// first incident affecting it, or operational.
pub open spec fn spec_product_component(p: Product, incidents: Seq<&Incident>) -> SpecComponent {
    match spec_incident_for(incidents, p.id@) {
        Some(i) => SpecComponent {
            name: p.title@,
            status: spec_impact_status(i),
            description: match i.external_desc {
                Some(d) => d@,
                None => "affected"@,
            },
        },
        None => SpecComponent {
            name: p.title@,
            status: WatchStatus::Success,
            description: "operational"@,
        },
    }
}

fn affects(i: &Incident, pid: &str) -> (b: bool)
    ensures
        b == spec_affects(*i, pid@),
{
    let mut k: usize = 0;
    while k < i.affected_products.len()
        invariant
            k <= i.affected_products@.len(),
            forall|j: int| 0 <= j < k ==> i.affected_products@[j].id@ != pid@,
        decreases i.affected_products.len() - k,
    {
        if str_eq(i.affected_products[k].id.as_str(), pid) {
            return true;
        }
        k = k + 1;
    }
    false
}

fn incident_for<'a>(incidents: &[&'a Incident], pid: &str) -> (r: Option<&'a Incident>)
    ensures
        match r {
            Some(i) => spec_incident_for(incidents@, pid@) == Some(*i),
            None => spec_incident_for(incidents@, pid@) is None,
        },
{
    let mut k: usize = 0;
    assert(incidents@.skip(0) =~= incidents@);
    while k < incidents.len()
        invariant
            k <= incidents@.len(),
            spec_incident_for(incidents@, pid@) == spec_incident_for(incidents@.skip(k as int), pid@),
        decreases incidents.len() - k,
    {
        assert(incidents@.skip(k as int).drop_first() =~= incidents@.skip(k + 1));
        assert(incidents@.skip(k as int)[0] == incidents@[k as int]);
        if affects(incidents[k], pid) {
            return Some(incidents[k]);
        }
        k = k + 1;
    }
    None
}

/// Builds one component per product, marking affected ones with the incident status.
pub fn build_components(products: &[Product], active_incidents: &[&Incident]) -> (r: Vec<
    ComponentStatus,
>)
    ensures
        view_components(r@) == products@.map_values(
            |p: Product| spec_product_component(p, active_incidents@),
        ),
{
    let ghost want = products@.map_values(|p: Product| spec_product_component(p, active_incidents@));
    let mut out: Vec<ComponentStatus> = Vec::new();
    let mut k: usize = 0;
    while k < products.len()
        invariant
            k <= products@.len(),
            want == products@.map_values(|p: Product| spec_product_component(p, active_incidents@)),
            view_components(out@) == want.take(k as int),
        decreases products.len() - k,
    {
        let p = &products[k];
        let (status, description) = match incident_for(active_incidents, p.id.as_str()) {
            Some(i) => {
                let d = match &i.external_desc {
                    Some(d) => d.clone(),
                    None => "affected".to_owned(),
                };
                (impact_status(i), d)
            },
            None => (WatchStatus::Success, "operational".to_owned()),
        };
        let x = ComponentStatus { name: p.title.clone(), status, description };
        let ghost before = out@;
        out.push(x);
        assert(view_components(out@) =~= view_components(before).push(x@));
        assert(want.take(k + 1) =~= want.take(k as int).push(want[k as int]));
        k = k + 1;
    }
    assert(want.take(want.len() as int) =~= want);
    out
}

/// The incident currently affects location `lid`.
pub open spec fn spec_at_location(i: Incident, lid: Seq<char>) -> bool {
    exists|k: int|
        0 <= k < i.currently_affected_locations@.len() && i.currently_affected_locations@[k].id@
            == lid
}

/// An incident counts when it has not ended, affects the configured product
/// (if any) and affects the configured location or is global (if a location
/// is configured).
pub open spec fn spec_is_active(
    i: Incident,
    product_id: Option<Seq<char>>,
    location_id: Option<Seq<char>>,
) -> bool {
    &&& i.end is None
    &&& match product_id {
        Some(pid) => spec_affects(i, pid),
        None => true,
    }
    &&& match location_id {
        Some(lid) => spec_at_location(i, lid) || spec_at_location(i, "global"@),
        None => true,
    }
}

/// The incidents that count, in order.
pub open spec fn spec_active(
    incidents: Seq<Incident>,
    product_id: Option<Seq<char>>,
    location_id: Option<Seq<char>>,
) -> Seq<Incident> {
    incidents.filter(|i: Incident| spec_is_active(i, product_id, location_id))
}

/// The products shown: the configured one, or all of them.
pub open spec fn spec_shown_products(products: Seq<Product>, product_id: Option<Seq<char>>) -> Seq<
    Product,
> {
    match product_id {
        Some(pid) => spec_products_with_id(products, pid),
        None => products,
    }
}

/// The products whose id is `pid`, in order.
pub open spec fn spec_products_with_id(products: Seq<Product>, pid: Seq<char>) -> Seq<Product>
    decreases products.len(),
{
    if products.len() == 0 {
        Seq::empty()
    } else {
        let rest = spec_products_with_id(products.drop_last(), pid);
        if products.last().id@ == pid {
            rest.push(products.last())
        } else {
            rest
        }
    }
}

/// The overall description: all operational, the first active incident's
/// description, or the number of active incidents.
pub open spec fn spec_description(active: Seq<Incident>) -> Seq<char> {
    if active.len() == 0 {
        "All services operational"@
    } else {
        match active[0].external_desc {
            Some(d) => d@,
            None => spec_decimal(active.len()) + " active incident(s)"@,
        }
    }
}

fn at_location(i: &Incident, lid: &str) -> (b: bool)
    ensures
        b == spec_at_location(*i, lid@),
{
    let mut k: usize = 0;
    while k < i.currently_affected_locations.len()
        invariant
            k <= i.currently_affected_locations@.len(),
            forall|j: int| 0 <= j < k ==> i.currently_affected_locations@[j].id@ != lid@,
        decreases i.currently_affected_locations.len() - k,
    {
        if str_eq(i.currently_affected_locations[k].id.as_str(), lid) {
            return true;
        }
        k = k + 1;
    }
    false
}

fn is_active(i: &Incident, product_id: &Option<String>, location_id: &Option<String>) -> (b: bool)
    ensures
        b == spec_is_active(*i, opt_view(*product_id), opt_view(*location_id)),
{
    if i.end.is_some() {
        return false;
    }
    let product_ok = match product_id {
        Some(pid) => affects(i, pid.as_str()),
        None => true,
    };
    let location_ok = match location_id {
        Some(lid) => at_location(i, lid.as_str()) || at_location(i, "global"),
        None => true,
    };
    product_ok && location_ok
}

/// Summarises the dashboard's products and incidents according to the
/// `product_id` / `location_id` options of the adapter configuration.
pub fn summarize(
    products: &Vec<Product>,
    incidents: &Vec<Incident>,
    adapter_config: Option<&StrMap<ConfigValue>>,
) -> (r: AdapterResult)
    ensures
        ({
            let pid = match adapter_config {
                Some(c) => spec_config_str(c@, "product_id"@),
                None => None,
            };
            let lid = match adapter_config {
                Some(c) => spec_config_str(c@, "location_id"@),
                None => None,
            };
            let active = spec_active(incidents@, pid, lid);
            &&& r.status == spec_worst(active.map_values(|i: Incident| spec_impact_status(i)))
            &&& r.description@ == spec_description(active)
            &&& r.data == JsonValue::Null
            &&& r.components@.len() == spec_shown_products(products@, pid).len()
            &&& forall|k: int|
                0 <= k < r.components@.len() ==> (#[trigger] r.components@[k])@
                    == spec_product_component(
                    spec_shown_products(products@, pid)[k],
                    active.map_values(|i: Incident| &i),
                )
        }),
{
    let product_id = match adapter_config {
        Some(c) => get_config_str(c, "product_id"),
        None => None,
    };
    let location_id = match adapter_config {
        Some(c) => get_config_str(c, "location_id"),
        None => None,
    };
    let ghost pid = opt_view(product_id);
    let ghost lid = opt_view(location_id);
    let ghost keep = |i: Incident| spec_is_active(i, pid, lid);

    // Active incidents, in order.
    let mut active: Vec<&Incident> = Vec::new();
    let mut k: usize = 0;
    assert(incidents@.take(0).filter(keep) =~= Seq::<Incident>::empty());
    while k < incidents.len()
        invariant
            k <= incidents@.len(),
            keep == (|i: Incident| spec_is_active(i, pid, lid)),
            pid == opt_view(product_id),
            lid == opt_view(location_id),
            active@.map_values(|i: &Incident| *i) == incidents@.take(k as int).filter(keep),
        decreases incidents.len() - k,
    {
        assert(incidents@.take(k + 1).drop_last() =~= incidents@.take(k as int));
        assert(incidents@.take(k + 1).last() == incidents@[k as int]);
        reveal_with_fuel(Seq::filter, 1);
        let ghost before = active@;
        if is_active(&incidents[k], &product_id, &location_id) {
            active.push(&incidents[k]);
            assert(active@.map_values(|i: &Incident| *i) =~= before.map_values(|i: &Incident| *i).push(
                incidents@[k as int],
            ));
        }
        k = k + 1;
    }
    assert(incidents@.take(incidents@.len() as int) =~= incidents@);
    let ghost act = incidents@.filter(keep);
    assert(act.map_values(|i: Incident| &i) =~= active@);
    assert(active@.map_values(|i: &Incident| spec_impact_status(*i)) =~= act.map_values(
        |i: Incident| spec_impact_status(i),
    ));

    let status = aggregate_worst(active.as_slice());

    let description = if active.len() == 0 {
        "All services operational".to_owned()
    } else {
        match &active[0].external_desc {
            Some(d) => d.clone(),
            None => concat3(u64_to_decimal(active.len() as u64).as_str(), " active incident(s)", ""),
        }
    };
    proof {
        reveal_strlit("");
        assert(""@ =~= Seq::<char>::empty());
        assert(act.len() == active@.len());
        if act.len() > 0 {
            assert(act[0] == *active@[0]);
        }
    }

    // Products shown.
    let mut shown: Vec<Product> = Vec::new();
    match &product_id {
        Some(id) => {
            let mut k: usize = 0;
            while k < products.len()
                invariant
                    k <= products@.len(),
                    pid == Some(id@),
                    shown@ == spec_products_with_id(products@.take(k as int), id@),
                decreases products.len() - k,
            {
                assert(products@.take(k + 1).drop_last() =~= products@.take(k as int));
                assert(products@.take(k + 1).last() == products@[k as int]);
                if str_eq(products[k].id.as_str(), id.as_str()) {
                    shown.push(Product { title: products[k].title.clone(), id: products[k].id.clone() });
                }
                k = k + 1;
            }
            assert(products@.take(products@.len() as int) =~= products@);
        },
        None => {
            let mut k: usize = 0;
            while k < products.len()
                invariant
                    k <= products@.len(),
                    shown@ == products@.take(k as int),
                decreases products.len() - k,
            {
                shown.push(Product { title: products[k].title.clone(), id: products[k].id.clone() });
                assert(products@.take(k + 1) =~= products@.take(k as int).push(products@[k as int]));
                k = k + 1;
            }
            assert(products@.take(products@.len() as int) =~= products@);
            assert(shown@ == spec_shown_products(products@, pid));
        },
    }
    let components = build_components(shown.as_slice(), active.as_slice());
    proof {
        assert(view_components(components@).len() == components@.len());
        assert(components@.len() == shown@.len());
        assert forall|k: int| 0 <= k < components@.len() implies (#[trigger] components@[k])@
            == spec_product_component(shown@[k], act.map_values(|i: Incident| &i)) by {
            assert(view_components(components@)[k] == components@[k]@);
        }
        assert(shown@ == spec_shown_products(products@, pid));
        assert(act == spec_active(incidents@, pid, lid));
    }
    AdapterResult { status, description, data: JsonValue::Null, components }
}

/// The product and incident feeds of a Google status watch: its URL
/// without trailing slashes, then `/products.json` and `/incidents.json`.
/// A watch without a URL cannot run.
pub fn feed_urls(watch: &crate::config::Watch) -> (r: Result<(String, String), AdapterError>)
    ensures
        match watch.url {
            None => r matches Err(AdapterError::ParseError(m)) && m@ == "google adapter requires a url"@,
            Some(u) => r matches Ok((p, i)) && p@ == crate::text::spec_trim_end_slashes(u@) + "/products.json"@
                && i@ == crate::text::spec_trim_end_slashes(u@) + "/incidents.json"@,
        },
{
    match &watch.url {
        Some(u) => Ok(
            (
                crate::text::join_url(u.as_str(), "/products.json"),
                crate::text::join_url(u.as_str(), "/incidents.json"),
            ),
        ),
        None => Err(AdapterError::ParseError("google adapter requires a url".to_owned())),
    }
}

/// An incident that has ended never counts: removing it from the incident
/// list leaves the counted incidents, hence the status, the description and
/// every product component, as they were.
pub proof fn law_ended_incidents_do_not_count(
    incidents: Seq<Incident>,
    k: int,
    product_id: Option<Seq<char>>,
    location_id: Option<Seq<char>>,
)
    requires
        0 <= k < incidents.len(),
        incidents[k].end is Some,
    ensures
        spec_active(incidents.remove(k), product_id, location_id) == spec_active(incidents, product_id, location_id),
{
    let pred = |i: Incident| spec_is_active(i, product_id, location_id);
    let a = incidents.take(k);
    let b = incidents.skip(k + 1);
    let single = seq![incidents[k]];
    assert(incidents =~= a + single + b);
    assert(incidents.remove(k) =~= a + b);
    Seq::filter_distributes_over_add(a + single, b, pred);
    Seq::filter_distributes_over_add(a, single, pred);
    Seq::filter_distributes_over_add(a, b, pred);
    reveal_with_fuel(Seq::filter, 2);
    assert(single.drop_last() =~= Seq::<Incident>::empty());
    assert(!pred(single.last()));
    assert(single.filter(pred) =~= Seq::<Incident>::empty());
    assert(a.filter(pred) + Seq::<Incident>::empty() =~= a.filter(pred));
}

/// When every incident has ended, nothing is counted: the status is
/// Success and the description "All services operational".
pub proof fn law_all_ended_is_operational(
    incidents: Seq<Incident>,
    product_id: Option<Seq<char>>,
    location_id: Option<Seq<char>>,
)
    requires
        forall|k: int| 0 <= k < incidents.len() ==> (#[trigger] incidents[k]).end is Some,
    ensures
        spec_active(incidents, product_id, location_id).len() == 0,
        spec_worst(
            spec_active(incidents, product_id, location_id).map_values(|i: Incident| spec_impact_status(i)),
        ) == WatchStatus::Success,
        spec_description(spec_active(incidents, product_id, location_id)) == "All services operational"@,
{
    let pred = |i: Incident| spec_is_active(i, product_id, location_id);
    assert(incidents.all(|x: Incident| !pred(x)));
    incidents.lemma_all_neg_filter_empty(pred);
    let act = spec_active(incidents, product_id, location_id);
    assert(act.map_values(|i: Incident| spec_impact_status(i)) =~= Seq::<WatchStatus>::empty());
}

} // verus!
