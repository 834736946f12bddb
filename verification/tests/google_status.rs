use wtch::adapter::google_status::{aggregate_worst, build_components, AffectedProduct, Incident, Product};
use wtch::state::WatchStatus;

fn make_incident(impact: &str, end: Option<&str>, product_ids: &[&str]) -> Incident {
    Incident {
        status_impact: Some(impact.to_string()),
        end: end.map(|s| s.to_string()),
        external_desc: Some(format!("{} incident", impact)),
        affected_products: product_ids.iter().map(|id| AffectedProduct { id: id.to_string() }).collect(),
        currently_affected_locations: vec![],
    }
}

#[test]
fn aggregate_worst_empty_is_success() {
    assert_eq!(aggregate_worst(&[]), WatchStatus::Success);
}

#[test]
fn aggregate_worst_outage_wins() {
    let a = make_incident("SERVICE_INFORMATION", None, &[]);
    let b = make_incident("SERVICE_OUTAGE", None, &[]);
    assert_eq!(aggregate_worst(&[&a, &b]), WatchStatus::Error);
}

#[test]
fn aggregate_worst_disruption_is_warning() {
    let a = make_incident("SERVICE_DISRUPTION", None, &[]);
    assert_eq!(aggregate_worst(&[&a]), WatchStatus::Warning);
}

#[test]
fn build_components_marks_affected_products() {
    let products = vec![
        Product { title: "Gmail".to_string(), id: "gmail-id".to_string() },
        Product { title: "Drive".to_string(), id: "drive-id".to_string() },
        Product { title: "Meet".to_string(), id: "meet-id".to_string() },
    ];
    let incident = make_incident("SERVICE_DISRUPTION", None, &["gmail-id"]);
    let active = vec![&incident];

    let components = build_components(&products, &active);

    assert_eq!(components.len(), 3);
    assert_eq!(components[0].name, "Gmail");
    assert_eq!(components[0].status, WatchStatus::Warning);
    assert_eq!(components[1].name, "Drive");
    assert_eq!(components[1].status, WatchStatus::Success);
    assert_eq!(components[2].name, "Meet");
    assert_eq!(components[2].status, WatchStatus::Success);
}

#[test]
fn build_components_all_operational_when_no_incidents() {
    let products = vec![Product { title: "Gmail".to_string(), id: "gmail-id".to_string() }];
    let components = build_components(&products, &[]);

    assert_eq!(components.len(), 1);
    assert_eq!(components[0].status, WatchStatus::Success);
    assert_eq!(components[0].description, "operational");
}

#[test]
fn affected_product_description_is_incident_text() {
    let products = vec![Product { title: "Gmail".to_string(), id: "gmail-id".to_string() }];
    let incident = make_incident("SERVICE_OUTAGE", None, &["gmail-id"]);
    let components = build_components(&products, &[&incident]);
    assert_eq!(components[0].status, WatchStatus::Error);
    assert_eq!(components[0].description, "SERVICE_OUTAGE incident");
}
