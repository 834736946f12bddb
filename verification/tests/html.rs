use wtch::adapter::html::{map_status, run_css_mode, run_mode, run_script_json_mode};
use wtch::adapter::AdapterError;
use wtch::config::ConfigValue;
use wtch::expr::eval::eval_field;
use wtch::expr::parser::{parse, Expr};
use wtch::expr::ExprError;
use wtch::json::{JsonNumber, JsonValue};
use wtch::state::WatchStatus;
use wtch::strmap::StrMap;

fn number_debug(n: &wtch::expr::lexer::NumberLit) -> String {
    let v: f64 = n.text.parse().unwrap();
    format!("{:?}", if n.negative { -v } else { v })
}


fn to_json(v: &serde_json::Value) -> JsonValue {
    match v {
        serde_json::Value::Null => JsonValue::Null,
        serde_json::Value::Bool(b) => JsonValue::Bool(*b),
        serde_json::Value::Number(n) => JsonValue::Number(if let Some(u) = n.as_u64() {
            JsonNumber::PosInt(u)
        } else if let Some(i) = n.as_i64() {
            JsonNumber::NegInt(i)
        } else {
            JsonNumber::Float(n.as_f64().unwrap().to_bits(), n.to_string())
        }),
        serde_json::Value::String(s) => JsonValue::String(s.clone()),
        serde_json::Value::Array(a) => JsonValue::Array(a.iter().map(to_json).collect()),
        serde_json::Value::Object(o) => {
            JsonValue::Object(o.iter().map(|(k, v)| (k.clone(), to_json(v))).collect())
        }
    }
}

fn from_json(v: &JsonValue) -> serde_json::Value {
    match v {
        JsonValue::Null => serde_json::Value::Null,
        JsonValue::Bool(b) => serde_json::Value::Bool(*b),
        JsonValue::Number(JsonNumber::PosInt(u)) => serde_json::Value::from(*u),
        JsonValue::Number(JsonNumber::NegInt(i)) => serde_json::Value::from(*i),
        JsonValue::Number(JsonNumber::Float(bits, _)) => serde_json::Value::from(f64::from_bits(*bits)),
        JsonValue::String(s) => serde_json::Value::String(s.clone()),
        JsonValue::Array(a) => serde_json::Value::Array(a.iter().map(from_json).collect()),
        JsonValue::Object(o) => {
            serde_json::Value::Object(o.iter().map(|(k, v)| (k.clone(), from_json(v))).collect())
        }
    }
}

fn parse_json(text: &str) -> Result<JsonValue, String> {
    serde_json::from_str::<serde_json::Value>(text).map(|v| to_json(&v)).map_err(|e| e.to_string())
}

fn show(v: &JsonValue) -> String {
    from_json(v).to_string()
}

/// Evaluates field-path expressions, the only kind these tests use.
fn eval_path(expr: &str, data: &JsonValue) -> Result<JsonValue, ExprError> {
    match parse(expr, &number_debug)? {
        Expr::Field(steps) => eval_field(&steps, data, &show).map(|v| to_json(&from_json(v))),
        _ => Err(ExprError::TypeError("only field paths are evaluated here".to_string())),
    }
}

fn run_script(html: &str, config: &StrMap<ConfigValue>) -> Result<wtch::adapter::AdapterResult, AdapterError> {
    run_script_json_mode(html, config, parse_json, &eval_path, &show)
}

fn make_config(pairs: Vec<(&str, ConfigValue)>) -> StrMap<ConfigValue> {
    let mut m = StrMap::new();
    for (k, v) in pairs {
        m.insert(k.to_string(), v);
    }
    m
}

fn str_val(s: &str) -> ConfigValue {
    ConfigValue::Str(s.to_string())
}

fn map_val(pairs: &[(&str, &str)]) -> ConfigValue {
    ConfigValue::Mapping(pairs.iter().map(|(k, v)| (Some(k.to_string()), Some(v.to_string()))).collect())
}

fn string_map(pairs: &[(&str, &str)]) -> StrMap<String> {
    let mut m = StrMap::new();
    for (k, v) in pairs {
        m.insert(k.to_string(), v.to_string());
    }
    m
}

#[test]
fn css_mode_extract_class_maps_to_success() {
    let html = r#"
        <html><body>
          <svg data-testid="heads-up" class="text-icon-operational icon-large"></svg>
        </body></html>
    "#;
    let config = make_config(vec![
        ("mode", str_val("css")),
        ("selector", str_val("[data-testid='heads-up']")),
        ("extract", str_val("class")),
        (
            "status_map",
            map_val(&[
                ("text-icon-operational", "success"),
                ("text-icon-degraded-performance", "warning"),
                ("text-icon-full-outage", "error"),
                ("text-icon-under-maintenance", "maintenance"),
            ]),
        ),
    ]);
    let result = run_css_mode(html, &config).expect("should succeed");
    assert_eq!(result.status, WatchStatus::Success);
    assert!(result.description.contains("text-icon-operational"));
}

#[test]
fn css_mode_extract_class_maps_to_warning() {
    let html = r#"
        <html><body>
          <svg data-testid="heads-up" class="text-icon-degraded-performance"></svg>
        </body></html>
    "#;
    let config = make_config(vec![
        ("mode", str_val("css")),
        ("selector", str_val("[data-testid='heads-up']")),
        ("extract", str_val("class")),
        (
            "status_map",
            map_val(&[
                ("text-icon-operational", "success"),
                ("text-icon-degraded-performance", "warning"),
                ("text-icon-full-outage", "error"),
                ("text-icon-under-maintenance", "maintenance"),
            ]),
        ),
    ]);
    let result = run_css_mode(html, &config).expect("should succeed");
    assert_eq!(result.status, WatchStatus::Warning);
}

#[test]
fn css_mode_extract_class_maps_to_maintenance() {
    let html = r#"
        <html><body>
          <div id="status" class="text-icon-under-maintenance foo"></div>
        </body></html>
    "#;
    let config = make_config(vec![
        ("selector", str_val("#status")),
        ("extract", str_val("class")),
        (
            "status_map",
            map_val(&[("text-icon-operational", "success"), ("text-icon-under-maintenance", "maintenance")]),
        ),
    ]);
    let result = run_css_mode(html, &config).expect("should succeed");
    assert_eq!(result.status, WatchStatus::Maintenance);
}

#[test]
fn css_mode_extract_text_maps_to_success() {
    let html = r#"
        <html><body>
          <p id="status-label">All Systems Operational</p>
        </body></html>
    "#;
    let config = make_config(vec![
        ("selector", str_val("#status-label")),
        ("extract", str_val("text")),
        ("status_map", map_val(&[("Operational", "success"), ("Degraded", "warning"), ("Outage", "error")])),
    ]);
    let result = run_css_mode(html, &config).expect("should succeed");
    assert_eq!(result.status, WatchStatus::Success);
    assert_eq!(result.description, "All Systems Operational");
}

#[test]
fn css_mode_extract_text_default_when_no_extract_key() {
    let html = r#"<html><body><span class="indicator">Operational</span></body></html>"#;
    let config = make_config(vec![
        ("selector", str_val(".indicator")),
        ("status_map", map_val(&[("Operational", "success")])),
    ]);
    let result = run_css_mode(html, &config).expect("should succeed");
    assert_eq!(result.status, WatchStatus::Success);
}

#[test]
fn css_mode_extract_custom_attr_maps_to_error() {
    let html = r#"
        <html><body>
          <div id="svc" data-status="full-outage"></div>
        </body></html>
    "#;
    let config = make_config(vec![
        ("selector", str_val("#svc")),
        ("extract", str_val("attr:data-status")),
        ("status_map", map_val(&[("operational", "success"), ("degraded", "warning"), ("full-outage", "error")])),
    ]);
    let result = run_css_mode(html, &config).expect("should succeed");
    assert_eq!(result.status, WatchStatus::Error);
    assert_eq!(result.description, "full-outage");
}

#[test]
fn css_mode_extract_bare_attribute_name() {
    let html = r#"<div id="svc" data-status="full-outage"></div>"#;
    let config = make_config(vec![
        ("selector", str_val("#svc")),
        ("extract", str_val("data-status")),
        ("status_map", map_val(&[("full-outage", "error")])),
    ]);
    let result = run_css_mode(html, &config).expect("should succeed");
    assert_eq!(result.status, WatchStatus::Error);
    assert_eq!(result.description, "full-outage");
}

#[test]
fn css_mode_extract_attr_empty_when_attribute_missing() {
    let html = r#"<html><body><div id="svc"></div></body></html>"#;
    let config = make_config(vec![
        ("selector", str_val("#svc")),
        ("extract", str_val("attr:data-status")),
        ("status_map", map_val(&[("operational", "success")])),
    ]);
    let result = run_css_mode(html, &config).expect("should succeed");
    assert_eq!(result.status, WatchStatus::Unknown);
}

#[test]
fn css_mode_missing_element_returns_unknown() {
    let html = r#"<html><body><p>No matching element here</p></body></html>"#;
    let config = make_config(vec![
        ("selector", str_val(".does-not-exist")),
        ("extract", str_val("class")),
        ("status_map", map_val(&[("operational", "success")])),
    ]);
    let result = run_css_mode(html, &config).expect("should succeed without error");
    assert_eq!(result.status, WatchStatus::Unknown);
    assert!(result.description.contains("no element matched"));
}

#[test]
fn css_mode_no_status_map_match_returns_unknown() {
    let html = r#"<html><body><div id="s" class="some-other-class"></div></body></html>"#;
    let config = make_config(vec![
        ("selector", str_val("#s")),
        ("extract", str_val("class")),
        ("status_map", map_val(&[("text-icon-operational", "success")])),
    ]);
    let result = run_css_mode(html, &config).expect("should succeed");
    assert_eq!(result.status, WatchStatus::Unknown);
}

#[test]
fn css_mode_missing_selector_returns_error() {
    let config = make_config(vec![("extract", str_val("text")), ("status_map", map_val(&[("ok", "success")]))]);
    let result = run_css_mode("<html/>", &config);
    assert!(matches!(result, Err(AdapterError::ParseError(_))));
}

#[test]
fn css_mode_unknown_extract_mode_returns_error() {
    let html = r#"<html><body><div id="s" class="x"></div></body></html>"#;
    let config = make_config(vec![
        ("selector", str_val("#s")),
        ("extract", str_val("invalid_mode")),
        ("status_map", map_val(&[])),
    ]);
    let result = run_css_mode(html, &config);
    assert!(matches!(result, Err(AdapterError::ParseError(_))));
}

fn script_json_html(status: &str) -> String {
    format!(
        r#"<!DOCTYPE html>
<html>
<head>
  <script>
    var unrelated = {{}};
  </script>
  <script>
    window.statusData = {{"activeIncidents": [], "site": {{"status": "{status}"}}}};
  </script>
</head>
<body><p>Status page</p></body>
</html>"#
    )
}

#[test]
fn script_json_mode_extracts_up_status() {
    let html = script_json_html("UP");
    let config = make_config(vec![
        ("mode", str_val("script_json")),
        ("script_selector", str_val("script")),
        ("script_match", str_val("activeIncidents")),
        ("json_regex", str_val(r"window\.statusData\s*=\s*(\{.*\})")),
        ("status_field", str_val(".site.status")),
        ("status_map", map_val(&[("UP", "success"), ("HASISSUES", "warning")])),
    ]);
    let result = run_script(&html, &config).expect("should succeed");
    assert_eq!(result.status, WatchStatus::Success);
    assert_eq!(result.description, "UP");
}

#[test]
fn script_json_mode_extracts_hasissues_status() {
    let html = script_json_html("HASISSUES");
    let config = make_config(vec![
        ("script_selector", str_val("script")),
        ("script_match", str_val("activeIncidents")),
        ("json_regex", str_val(r"window\.statusData\s*=\s*(\{.*\})")),
        ("status_field", str_val(".site.status")),
        ("status_map", map_val(&[("UP", "success"), ("HASISSUES", "warning")])),
    ]);
    let result = run_script(&html, &config).expect("should succeed");
    assert_eq!(result.status, WatchStatus::Warning);
    assert_eq!(result.description, "HASISSUES");
}

#[test]
fn script_json_mode_no_matching_script_tag_returns_error() {
    let html = r#"<html><head><script>var x = 1;</script></head><body></body></html>"#;
    let config = make_config(vec![
        ("script_selector", str_val("script")),
        ("script_match", str_val("activeIncidents")),
        ("json_regex", str_val(r"window\.statusData\s*=\s*(\{.*\})")),
        ("status_field", str_val(".site.status")),
        ("status_map", map_val(&[("UP", "success")])),
    ]);
    let result = run_script(html, &config);
    assert!(matches!(result, Err(AdapterError::ParseError(_))));
}

#[test]
fn script_json_mode_regex_no_match_returns_error() {
    let html = r#"
        <html><head>
          <script>var activeIncidents = true; var other = "data";</script>
        </head></html>
    "#;
    let config = make_config(vec![
        ("script_selector", str_val("script")),
        ("script_match", str_val("activeIncidents")),
        ("json_regex", str_val(r"window\.statusData\s*=\s*(\{.*\})")),
        ("status_field", str_val(".site.status")),
        ("status_map", map_val(&[("UP", "success")])),
    ]);
    let result = run_script(html, &config);
    assert!(matches!(result, Err(AdapterError::ParseError(_))));
}

#[test]
fn script_json_mode_missing_script_match_returns_error() {
    let config = make_config(vec![
        ("script_selector", str_val("script")),
        ("json_regex", str_val(r"(\{.*\})")),
        ("status_field", str_val(".status")),
        ("status_map", map_val(&[("UP", "success")])),
    ]);
    let result = run_script("<html/>", &config);
    assert!(matches!(result, Err(AdapterError::ParseError(_))));
}

#[test]
fn script_json_mode_unknown_status_returns_unknown() {
    let html = script_json_html("UNKNOWN_VALUE");
    let config = make_config(vec![
        ("script_selector", str_val("script")),
        ("script_match", str_val("activeIncidents")),
        ("json_regex", str_val(r"window\.statusData\s*=\s*(\{.*\})")),
        ("status_field", str_val(".site.status")),
        ("status_map", map_val(&[("UP", "success"), ("HASISSUES", "warning")])),
    ]);
    let result = run_script(&html, &config).expect("should succeed");
    assert_eq!(result.status, WatchStatus::Unknown);
}

#[test]
fn map_status_partial_contains_match() {
    let status_map = string_map(&[("operational", "success"), ("degraded", "warning")]);
    assert_eq!(map_status("text-icon-operational some-other-class", &status_map), WatchStatus::Success);
    assert_eq!(map_status("text-icon-degraded-performance", &status_map), WatchStatus::Warning);
    assert_eq!(map_status("text-icon-unknown", &status_map), WatchStatus::Unknown);
}

#[test]
fn map_status_empty_map_returns_unknown() {
    let status_map: StrMap<String> = StrMap::new();
    assert_eq!(map_status("operational", &status_map), WatchStatus::Unknown);
}

#[test]
fn run_css_mode_with_data_field_in_result() {
    let html = r#"<html><body><span id="s">All Systems Operational</span></body></html>"#;
    let config = make_config(vec![
        ("selector", str_val("#s")),
        ("extract", str_val("text")),
        ("status_map", map_val(&[("Operational", "success")])),
    ]);
    let result = run_css_mode(html, &config).expect("should succeed");
    assert_eq!(result.data.get("extracted"), Some(&JsonValue::String("All Systems Operational".to_string())));
}

#[test]
fn css_mode_invalid_selector_is_reported() {
    let config = make_config(vec![("selector", str_val("[[[")), ("status_map", map_val(&[]))]);
    match run_css_mode("<html/>", &config) {
        Err(AdapterError::ParseError(m)) => assert!(m.starts_with("invalid CSS selector: ")),
        other => panic!("unexpected {other:?}"),
    }
}

#[test]
fn script_json_mode_invalid_regex_is_reported_before_search() {
    let config = make_config(vec![
        ("script_match", str_val("nothing-here")),
        ("json_regex", str_val("(unclosed")),
        ("status_field", str_val(".status")),
    ]);
    match run_script("<html><script>x</script></html>", &config) {
        Err(AdapterError::ParseError(m)) => assert!(m.starts_with("invalid json_regex: ")),
        other => panic!("unexpected {other:?}"),
    }
}

#[test]
fn script_json_mode_non_string_status_uses_json_text() {
    let html = r#"<html><script>window.d = {"ok": true, "code": 7};</script></html>"#;
    let config = make_config(vec![
        ("script_match", str_val("window.d")),
        ("json_regex", str_val(r"window\.d\s*=\s*(\{.*\})")),
        ("status_field", str_val(".ok")),
        ("status_map", map_val(&[("true", "success")])),
    ]);
    let result = run_script(html, &config).expect("should succeed");
    assert_eq!(result.description, "true");
    assert_eq!(result.status, WatchStatus::Success);
}

#[test]
fn html_unknown_mode_is_an_error() {
    let config = make_config(vec![("mode", str_val("xpath"))]);
    let r = run_mode("<html/>", &config, parse_json, &eval_path, &show);
    assert_eq!(r.unwrap_err(), AdapterError::ParseError("unknown html mode: xpath".to_string()));
}
