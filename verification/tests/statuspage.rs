use wtch::adapter::statuspage::{map_component_status, map_indicator, summarize, summary_url};
use wtch::adapter::AdapterError;
use wtch::config::{Conditions, Watch};
use wtch::strmap::StrMap;
use wtch::json::{JsonNumber, JsonValue};
use wtch::state::WatchStatus;
use wtch::text::underscores_to_spaces;

fn to_json(v: &serde_json::Value) -> JsonValue {
    match v {
        serde_json::Value::Null => JsonValue::Null,
        serde_json::Value::Bool(b) => JsonValue::Bool(*b),
        serde_json::Value::Number(n) => JsonValue::Number(if let Some(u) = n.as_u64() {
            JsonNumber::PosInt(u)
        } else if let Some(i) = n.as_i64() {
            JsonNumber::NegInt(i)
        } else {
            JsonNumber::Float(n.as_f64().unwrap().to_bits(), n.to_string())
        }),
        serde_json::Value::String(s) => JsonValue::String(s.clone()),
        serde_json::Value::Array(a) => JsonValue::Array(a.iter().map(to_json).collect()),
        serde_json::Value::Object(o) => {
            JsonValue::Object(o.iter().map(|(k, v)| (k.clone(), to_json(v))).collect())
        }
    }
}

fn j(text: &str) -> JsonValue {
    to_json(&serde_json::from_str(text).unwrap())
}

#[test]
fn test_map_indicator_none_is_success() {
    assert_eq!(map_indicator("none"), WatchStatus::Success);
}

#[test]
fn test_map_indicator_minor_is_warning() {
    assert_eq!(map_indicator("minor"), WatchStatus::Warning);
}

#[test]
fn test_map_indicator_major_is_error() {
    assert_eq!(map_indicator("major"), WatchStatus::Error);
}

#[test]
fn test_map_indicator_critical_is_error() {
    assert_eq!(map_indicator("critical"), WatchStatus::Error);
}

#[test]
fn test_map_indicator_maintenance() {
    assert_eq!(map_indicator("maintenance"), WatchStatus::Maintenance);
}

#[test]
fn test_map_indicator_unknown_string_is_unknown() {
    assert_eq!(map_indicator("some_future_value"), WatchStatus::Unknown);
}

#[test]
fn test_map_component_operational() {
    assert_eq!(map_component_status("operational"), WatchStatus::Success);
}

#[test]
fn test_map_component_degraded() {
    assert_eq!(map_component_status("degraded_performance"), WatchStatus::Warning);
}

#[test]
fn test_map_component_partial_outage() {
    assert_eq!(map_component_status("partial_outage"), WatchStatus::Warning);
}

#[test]
fn test_map_component_major_outage() {
    assert_eq!(map_component_status("major_outage"), WatchStatus::Error);
}

#[test]
fn test_map_component_maintenance() {
    assert_eq!(map_component_status("under_maintenance"), WatchStatus::Maintenance);
}

#[test]
fn test_map_component_unknown_string_is_unknown() {
    assert_eq!(map_component_status("pending"), WatchStatus::Unknown);
}

#[test]
fn test_components_parsed_from_json() {
    let data = j(r#"{
        "status": { "indicator": "minor", "description": "Partial system outage" },
        "components": [
            { "name": "API", "status": "operational" },
            { "name": "Dashboard", "status": "degraded_performance" },
            { "name": "Visit https://example.com", "status": "operational" }
        ]
    }"#);
    let result = summarize(data, None);
    assert_eq!(result.status, WatchStatus::Warning);
    let components = &result.components;
    assert_eq!(components.len(), 2);
    assert_eq!(components[0].name, "API");
    assert_eq!(components[0].status, WatchStatus::Success);
    assert_eq!(components[1].name, "Dashboard");
    assert_eq!(components[1].status, WatchStatus::Warning);
    assert_eq!(components[1].description, "degraded performance");
}

#[test]
fn test_visit_component_is_filtered_out() {
    let data = j(r#"{
        "components": [
            { "name": "Visit https://status.example.com", "status": "operational" },
            { "name": "Real Service", "status": "major_outage" }
        ]
    }"#);
    let result = summarize(data, None);
    let names: Vec<String> = result.components.iter().map(|c| c.name.clone()).collect();
    assert_eq!(names, vec!["Real Service"]);
}

#[test]
fn test_missing_components_array_returns_empty_vec() {
    let data = j(r#"{ "status": { "indicator": "none", "description": "All good" } }"#);
    let result = summarize(data, None);
    assert!(result.components.is_empty());
    assert_eq!(result.status, WatchStatus::Success);
    assert_eq!(result.description, "All good");
}

#[test]
fn test_description_underscores_replaced_with_spaces() {
    let desc = underscores_to_spaces("degraded_performance");
    assert_eq!(desc, "degraded performance");
}

fn empty_watch(url: Option<&str>) -> Watch {
    Watch {
        name: None,
        watch_type: None,
        command: None,
        shell: None,
        format: None,
        interval: None,
        url: url.map(|u| u.to_string()),
        link: None,
        expand: false,
        notify: None,
        preset: None,
        conditions: Conditions::default(),
        display: None,
        details: vec![],
        headers: StrMap::new(),
        adapter: None,
        adapter_config: None,
    }
}

#[test]
fn summary_url_strips_trailing_slashes() {
    let w = empty_watch(Some("https://status.example.com//"));
    assert_eq!(summary_url(&w).unwrap(), "https://status.example.com/api/v2/summary.json");
    let w = empty_watch(None);
    assert_eq!(
        summary_url(&w).unwrap_err(),
        AdapterError::ParseError("statuspage adapter requires a url".to_string())
    );
}
