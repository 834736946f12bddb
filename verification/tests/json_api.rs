use wtch::adapter::json_api::{build_result, extract_components, get_config_map, get_config_str, map_status, requirements};
use wtch::adapter::AdapterError;
use wtch::config::{Conditions, ConfigValue, Watch};
use wtch::expr::eval::eval_field;
use wtch::expr::parser::{parse, Expr};
use wtch::expr::ExprError;
use wtch::json::{JsonNumber, JsonValue};
use wtch::state::WatchStatus;
use wtch::strmap::StrMap;

fn number_debug(n: &wtch::expr::lexer::NumberLit) -> String {
    let v: f64 = n.text.parse().unwrap();
    format!("{:?}", if n.negative { -v } else { v })
}


fn to_json(v: &serde_json::Value) -> JsonValue {
    match v {
        serde_json::Value::Null => JsonValue::Null,
        serde_json::Value::Bool(b) => JsonValue::Bool(*b),
        serde_json::Value::Number(n) => JsonValue::Number(if let Some(u) = n.as_u64() {
            JsonNumber::PosInt(u)
        } else if let Some(i) = n.as_i64() {
            JsonNumber::NegInt(i)
        } else {
            JsonNumber::Float(n.as_f64().unwrap().to_bits(), n.to_string())
        }),
        serde_json::Value::String(s) => JsonValue::String(s.clone()),
        serde_json::Value::Array(a) => JsonValue::Array(a.iter().map(to_json).collect()),
        serde_json::Value::Object(o) => {
            JsonValue::Object(o.iter().map(|(k, v)| (k.clone(), to_json(v))).collect())
        }
    }
}

fn from_json(v: &JsonValue) -> serde_json::Value {
    match v {
        JsonValue::Null => serde_json::Value::Null,
        JsonValue::Bool(b) => serde_json::Value::Bool(*b),
        JsonValue::Number(JsonNumber::PosInt(u)) => serde_json::Value::from(*u),
        JsonValue::Number(JsonNumber::NegInt(i)) => serde_json::Value::from(*i),
        JsonValue::Number(JsonNumber::Float(bits, _)) => serde_json::Value::from(f64::from_bits(*bits)),
        JsonValue::String(s) => serde_json::Value::String(s.clone()),
        JsonValue::Array(a) => serde_json::Value::Array(a.iter().map(from_json).collect()),
        JsonValue::Object(o) => {
            serde_json::Value::Object(o.iter().map(|(k, v)| (k.clone(), from_json(v))).collect())
        }
    }
}

fn j(text: &str) -> JsonValue {
    to_json(&serde_json::from_str(text).unwrap())
}

/// Evaluates field-path expressions, the only kind these tests use.
fn eval_path(expr: &str, data: &JsonValue) -> Result<JsonValue, ExprError> {
    match parse(expr, &number_debug)? {
        Expr::Field(steps) => {
            let show = |v: &JsonValue| from_json(v).to_string();
            eval_field(&steps, data, &show).map(|v| to_json(&from_json(v)))
        }
        _ => Err(ExprError::TypeError("only field paths are evaluated here".to_string())),
    }
}

fn config_value(v: &serde_yaml::Value) -> ConfigValue {
    match v {
        serde_yaml::Value::String(s) => ConfigValue::Str(s.clone()),
        serde_yaml::Value::Mapping(m) => ConfigValue::Mapping(
            m.iter().map(|(k, v)| (k.as_str().map(|s| s.to_string()), v.as_str().map(|s| s.to_string()))).collect(),
        ),
        _ => ConfigValue::Other,
    }
}

fn config_from_yaml(yaml: &str) -> StrMap<ConfigValue> {
    let m: serde_yaml::Mapping = serde_yaml::from_str(yaml).expect("test YAML should parse");
    let mut out = StrMap::new();
    for (k, v) in m.iter() {
        if let Some(k) = k.as_str() {
            out.insert(k.to_string(), config_value(v));
        }
    }
    out
}

fn standard_status_map() -> StrMap<WatchStatus> {
    let mut m = StrMap::new();
    m.insert("operational".to_string(), WatchStatus::Success);
    m.insert("degraded".to_string(), WatchStatus::Error);
    m.insert("partially-degraded".to_string(), WatchStatus::Warning);
    m.insert("under-maintenance".to_string(), WatchStatus::Maintenance);
    m
}

#[test]
fn get_config_str_returns_value_for_existing_string_key() {
    let config = config_from_yaml("status_field: \".state\"");
    assert_eq!(get_config_str(&config, "status_field"), Some(".state".to_string()));
}

#[test]
fn get_config_str_returns_none_for_missing_key() {
    let config = config_from_yaml("other_key: value");
    assert_eq!(get_config_str(&config, "status_field"), None);
}

#[test]
fn get_config_str_returns_none_for_non_string_value() {
    let config = config_from_yaml("status_field: 42");
    assert_eq!(get_config_str(&config, "status_field"), None);
}

#[test]
fn get_config_map_parses_known_status_values() {
    let config = config_from_yaml("status_map:\n  operational: success\n  degraded: error\n  partial: warning");
    let map = get_config_map(&config, "status_map");

    assert_eq!(map.get("operational"), Some(&WatchStatus::Success));
    assert_eq!(map.get("degraded"), Some(&WatchStatus::Error));
    assert_eq!(map.get("partial"), Some(&WatchStatus::Warning));
}

#[test]
fn get_config_map_skips_unknown_status_values() {
    let config = config_from_yaml("status_map:\n  foo: not-a-status");
    let map = get_config_map(&config, "status_map");
    assert!(map.is_empty());
}

#[test]
fn get_config_map_returns_empty_when_key_missing() {
    let config: StrMap<ConfigValue> = StrMap::new();
    let map = get_config_map(&config, "status_map");
    assert!(map.is_empty());
}

#[test]
fn get_config_map_returns_empty_when_value_is_not_mapping() {
    let config = config_from_yaml("status_map: just-a-string");
    let map = get_config_map(&config, "status_map");
    assert!(map.is_empty());
}

#[test]
fn map_status_returns_mapped_value() {
    let map = standard_status_map();
    assert_eq!(map_status("operational", &map), WatchStatus::Success);
    assert_eq!(map_status("degraded", &map), WatchStatus::Error);
    assert_eq!(map_status("partially-degraded", &map), WatchStatus::Warning);
    assert_eq!(map_status("under-maintenance", &map), WatchStatus::Maintenance);
}

#[test]
fn map_status_returns_unknown_for_unmapped_value() {
    let map = standard_status_map();
    assert_eq!(map_status("some-unknown-value", &map), WatchStatus::Unknown);
}

#[test]
fn map_status_returns_unknown_for_empty_string() {
    let map = standard_status_map();
    assert_eq!(map_status("", &map), WatchStatus::Unknown);
}

#[test]
fn extract_components_returns_empty_when_components_field_absent() {
    let config: StrMap<ConfigValue> = StrMap::new();
    let data = j(r#"{"components": []}"#);
    let map = standard_status_map();
    let result = extract_components(&config, &data, &map, &eval_path);
    assert!(result.is_empty());
}

#[test]
fn extract_components_returns_empty_when_path_not_array() {
    let config = config_from_yaml("components_field: \".components\"");
    let data = j(r#"{"components": "not-an-array"}"#);
    let map = standard_status_map();
    let result = extract_components(&config, &data, &map, &eval_path);
    assert!(result.is_empty());
}

#[test]
fn extract_components_parses_name_and_status_with_defaults() {
    let config = config_from_yaml("components_field: \".components\"");
    let data = j(r#"{
        "components": [
            {"name": "API", "status": "operational"},
            {"name": "Database", "status": "degraded"}
        ]
    }"#);
    let map = standard_status_map();
    let components = extract_components(&config, &data, &map, &eval_path);

    assert_eq!(components.len(), 2);
    assert_eq!(components[0].name, "API");
    assert_eq!(components[0].status, WatchStatus::Success);
    assert_eq!(components[0].description, "operational");

    assert_eq!(components[1].name, "Database");
    assert_eq!(components[1].status, WatchStatus::Error);
}

#[test]
fn extract_components_respects_custom_name_and_status_fields() {
    let config = config_from_yaml(
        "components_field: \".services\"\ncomponent_name: \".label\"\ncomponent_status: \".state\"",
    );
    let data = j(r#"{
        "services": [
            {"label": "Auth", "state": "operational"},
            {"label": "Storage", "state": "partially-degraded"}
        ]
    }"#);
    let map = standard_status_map();
    let components = extract_components(&config, &data, &map, &eval_path);

    assert_eq!(components.len(), 2);
    assert_eq!(components[0].name, "Auth");
    assert_eq!(components[0].status, WatchStatus::Success);
    assert_eq!(components[1].name, "Storage");
    assert_eq!(components[1].status, WatchStatus::Warning);
}

#[test]
fn extract_components_handles_missing_name_field_gracefully() {
    let config = config_from_yaml("components_field: \".components\"");
    let data = j(r#"{"components": [{"status": "operational"}]}"#);
    let map = standard_status_map();
    let components = extract_components(&config, &data, &map, &eval_path);

    assert_eq!(components.len(), 1);
    assert_eq!(components[0].name, "");
    assert_eq!(components[0].status, WatchStatus::Success);
}

#[test]
fn extract_components_handles_missing_status_field_gracefully() {
    let config = config_from_yaml("components_field: \".components\"");
    let data = j(r#"{"components": [{"name": "API"}]}"#);
    let map = standard_status_map();
    let components = extract_components(&config, &data, &map, &eval_path);

    assert_eq!(components.len(), 1);
    assert_eq!(components[0].name, "API");
    assert_eq!(components[0].status, WatchStatus::Unknown);
}

#[test]
fn build_result_extracts_status_and_description() {
    let config = config_from_yaml(
        "status_field: \".components[0].state\"\ndescription_field: \".components[0].state\"\nstatus_map:\n  operational: success\n  degraded: error",
    );
    let data = j(r#"{"components": [{"state": "operational", "name": "API"}]}"#);

    let result = build_result(&config, data, &eval_path);
    assert_eq!(result.status, WatchStatus::Success);
    assert_eq!(result.description, "operational");
}

#[test]
fn build_result_falls_back_to_raw_status_as_description_when_no_description_field() {
    let config = config_from_yaml("status_field: \".status\"\nstatus_map:\n  ok: success");
    let data = j(r#"{"status": "ok"}"#);

    let result = build_result(&config, data, &eval_path);
    assert_eq!(result.status, WatchStatus::Success);
    assert_eq!(result.description, "ok");
}

#[test]
fn build_result_uses_default_status_field_when_absent_from_config() {
    let config = config_from_yaml("status_map:\n  operational: success");
    let data = j(r#"{"status": "operational"}"#);

    let result = build_result(&config, data, &eval_path);
    assert_eq!(result.status, WatchStatus::Success);
}

#[test]
fn build_result_returns_unknown_when_status_not_in_map() {
    let config = config_from_yaml("status_field: \".status\"\nstatus_map:\n  ok: success");
    let data = j(r#"{"status": "some-new-value"}"#);

    let result = build_result(&config, data, &eval_path);
    assert_eq!(result.status, WatchStatus::Unknown);
}

#[test]
fn build_result_returns_unknown_when_status_field_missing_in_data() {
    let config = config_from_yaml("status_field: \".does_not_exist\"\nstatus_map:\n  ok: success");
    let data = j(r#"{"status": "ok"}"#);

    let result = build_result(&config, data, &eval_path);
    assert_eq!(result.status, WatchStatus::Unknown);
}

#[test]
fn build_result_includes_full_component_list() {
    let config = config_from_yaml(
        "status_field: \".status\"\nstatus_map:\n  ok: success\n  fail: error\ncomponents_field: \".components\"\ncomponent_name: \".name\"\ncomponent_status: \".status\"",
    );
    let data = j(r#"{
        "status": "ok",
        "components": [
            {"name": "API", "status": "ok"},
            {"name": "DB",  "status": "fail"}
        ]
    }"#);

    let result = build_result(&config, data, &eval_path);
    assert_eq!(result.components.len(), 2);
    assert_eq!(result.components[0].name, "API");
    assert_eq!(result.components[0].status, WatchStatus::Success);
    assert_eq!(result.components[1].name, "DB");
    assert_eq!(result.components[1].status, WatchStatus::Error);
}

#[test]
fn build_result_uses_default_status_when_field_is_empty() {
    let config = config_from_yaml("status_field: \".[0].status\"\ndefault_status: success\nstatus_map:\n  bad: error");
    let data = j("[]");

    let result = build_result(&config, data, &eval_path);
    assert_eq!(result.status, WatchStatus::Success);
}

#[test]
fn build_result_ignores_default_status_when_field_resolves() {
    let config = config_from_yaml("status_field: \".status\"\ndefault_status: success\nstatus_map:\n  bad: error");
    let data = j(r#"{"status": "bad"}"#);

    let result = build_result(&config, data, &eval_path);
    assert_eq!(result.status, WatchStatus::Error);
}

#[test]
fn build_result_data_field_preserves_original_json() {
    let config = config_from_yaml("status_map:\n  ok: success");
    let data = j(r#"{"status": "ok", "extra": 42}"#);

    let result = build_result(&config, j(r#"{"status": "ok", "extra": 42}"#), &eval_path);
    assert_eq!(result.data, data);
}

#[test]
fn build_result_numeric_status_uses_its_text() {
    let config = config_from_yaml("status_field: \".code\"\nstatus_map:\n  \"200\": success\n  \"-1\": error");
    let result = build_result(&config, j(r#"{"code": 200}"#), &eval_path);
    assert_eq!(result.status, WatchStatus::Success);
    assert_eq!(result.description, "200");
    let result = build_result(&config, j(r#"{"code": -1}"#), &eval_path);
    assert_eq!(result.status, WatchStatus::Error);
    assert_eq!(result.description, "-1");
}

#[test]
fn json_adapter_requirements() {
    let mut w = Watch {
        name: None,
        watch_type: None,
        command: None,
        shell: None,
        format: None,
        interval: None,
        url: None,
        link: None,
        expand: false,
        notify: None,
        preset: None,
        conditions: Conditions::default(),
        display: None,
        details: vec![],
        headers: StrMap::new(),
        adapter: None,
        adapter_config: None,
    };
    assert_eq!(
        requirements(&w).unwrap_err(),
        AdapterError::ParseError("json adapter requires a url".to_string())
    );
    w.url = Some("https://example.com/status".to_string());
    assert_eq!(
        requirements(&w).unwrap_err(),
        AdapterError::ParseError("json adapter requires adapter_config".to_string())
    );
    w.adapter_config = Some(StrMap::new());
    let (url, _) = requirements(&w).unwrap();
    assert_eq!(url, "https://example.com/status");
}
