use wtch::adapter::statuspage::summarize;
use wtch::adapter::{AdapterError, AdapterResult, ComponentStatus};
use wtch::config::{Conditions, Display, DisplayStyle, Watch, WatchType};
use wtch::expr::eval::eval_field;
use wtch::expr::parser::{parse, Expr};
use wtch::expr::ExprError;
use wtch::json::{is_truthy, JsonNumber, JsonValue};
use wtch::provider::{ProviderError, ProviderResult};
use wtch::state::WatchStatus;
use wtch::strmap::StrMap;
use wtch::watcher::{
    adapter_outcome, adapter_provider_result, resolve_dynamic_details, resolve_items, status_string_to_watch_status,
    style_name, watch_name, watch_state,
};

fn number_debug(n: &wtch::expr::lexer::NumberLit) -> String {
    let v: f64 = n.text.parse().unwrap();
    format!("{:?}", if n.negative { -v } else { v })
}


fn to_json(v: &serde_json::Value) -> JsonValue {
    match v {
        serde_json::Value::Null => JsonValue::Null,
        serde_json::Value::Bool(b) => JsonValue::Bool(*b),
        serde_json::Value::Number(n) => JsonValue::Number(if let Some(u) = n.as_u64() {
            JsonNumber::PosInt(u)
        } else if let Some(i) = n.as_i64() {
            JsonNumber::NegInt(i)
        } else {
            JsonNumber::Float(n.as_f64().unwrap().to_bits(), n.to_string())
        }),
        serde_json::Value::String(s) => JsonValue::String(s.clone()),
        serde_json::Value::Array(a) => JsonValue::Array(a.iter().map(to_json).collect()),
        serde_json::Value::Object(o) => {
            JsonValue::Object(o.iter().map(|(k, v)| (k.clone(), to_json(v))).collect())
        }
    }
}

fn from_json(v: &JsonValue) -> serde_json::Value {
    match v {
        JsonValue::Null => serde_json::Value::Null,
        JsonValue::Bool(b) => serde_json::Value::Bool(*b),
        JsonValue::Number(JsonNumber::PosInt(u)) => serde_json::Value::from(*u),
        JsonValue::Number(JsonNumber::NegInt(i)) => serde_json::Value::from(*i),
        JsonValue::Number(JsonNumber::Float(bits, _)) => serde_json::Value::from(f64::from_bits(*bits)),
        JsonValue::String(s) => serde_json::Value::String(s.clone()),
        JsonValue::Array(a) => serde_json::Value::Array(a.iter().map(from_json).collect()),
        JsonValue::Object(o) => {
            serde_json::Value::Object(o.iter().map(|(k, v)| (k.clone(), from_json(v))).collect())
        }
    }
}

fn j(text: &str) -> JsonValue {
    to_json(&serde_json::from_str(text).unwrap())
}

fn show(v: &JsonValue) -> String {
    from_json(v).to_string()
}

/// Evaluates field paths and the literals `true` and `false`.
fn eval(expr: &str, data: &JsonValue) -> Result<JsonValue, ExprError> {
    match parse(expr, &number_debug)? {
        Expr::Field(steps) => eval_field(&steps, data, &show).map(|v| to_json(&from_json(v))),
        Expr::Literal(wtch::expr::parser::Literal::Bool(b)) => Ok(JsonValue::Bool(b)),
        _ => Err(ExprError::TypeError("unsupported".into())),
    }
}

fn literal(text: &str) -> Option<JsonNumber> {
    text.trim().parse::<f64>().ok().map(|f| JsonNumber::Float(f.to_bits(), serde_json::Value::from(f).to_string()))
}

fn render(template: &str, _data: &JsonValue) -> String {
    format!("<{template}>")
}

fn empty_watch() -> Watch {
    Watch {
        name: None,
        watch_type: None,
        command: None,
        shell: None,
        format: None,
        interval: None,
        url: None,
        link: None,
        expand: false,
        notify: None,
        preset: None,
        conditions: Conditions::default(),
        display: None,
        details: vec![],
        headers: StrMap::new(),
        adapter: None,
        adapter_config: None,
    }
}

fn component(name: &str, status: WatchStatus, description: &str) -> ComponentStatus {
    ComponentStatus { name: name.to_string(), status, description: description.to_string() }
}

#[test]
fn style_names() {
    assert_eq!(style_name(None), "status");
    assert_eq!(style_name(Some(&DisplayStyle::Progress)), "progress");
    assert_eq!(style_name(Some(&DisplayStyle::List)), "list");
    assert_eq!(style_name(Some(&DisplayStyle::Value)), "value");
    assert_eq!(style_name(Some(&DisplayStyle::Text)), "text");
}

#[test]
fn status_strings_read_like_statuspage() {
    assert_eq!(status_string_to_watch_status("partial_outage"), WatchStatus::Warning);
    assert_eq!(status_string_to_watch_status("under_maintenance"), WatchStatus::Maintenance);
    assert_eq!(status_string_to_watch_status("???"), WatchStatus::Unknown);
}

#[test]
fn watch_names_fall_back_to_preset_then_unnamed() {
    let mut w = empty_watch();
    assert_eq!(watch_name(&w), "unnamed");
    w.preset = Some("github".to_string());
    assert_eq!(watch_name(&w), "github");
    w.name = Some("GitHub".to_string());
    assert_eq!(watch_name(&w), "GitHub");
}

#[test]
fn adapter_result_is_presented_like_a_statuspage_summary() {
    let result = AdapterResult {
        status: WatchStatus::Warning,
        description: "Some trouble".to_string(),
        data: JsonValue::Null,
        components: vec![
            component("API", WatchStatus::Success, "fine"),
            component("DB", WatchStatus::Error, "down"),
            component("Jobs", WatchStatus::Maintenance, "later"),
        ],
    };
    let p = adapter_provider_result(result);
    assert_eq!(p.exit_code, Some(0));
    assert_eq!(
        from_json(&p.data),
        serde_json::from_str::<serde_json::Value>(
            r#"{"components": [
                {"name": "API", "status": "operational", "description": "fine"},
                {"name": "DB", "status": "major_outage", "description": "down"},
                {"name": "Jobs", "status": "under_maintenance", "description": "later"}
            ],
            "status": {"indicator": "minor", "description": "Some trouble"},
            "up": true}"#
        )
        .unwrap()
    );
    let read_back = summarize(p.data, None);
    assert_eq!(read_back.status, WatchStatus::Warning);
    let statuses: Vec<WatchStatus> = read_back.components.iter().map(|c| c.status).collect();
    assert_eq!(statuses, vec![WatchStatus::Success, WatchStatus::Error, WatchStatus::Maintenance]);
}

#[test]
fn adapter_errors_become_execution_failures() {
    let r = adapter_outcome(Err(AdapterError::UnsupportedAdapter("urn:x".to_string())));
    assert_eq!(r.unwrap_err(), ProviderError::ExecutionFailed("unsupported adapter: urn:x".to_string()));
    let r = adapter_outcome(Err(AdapterError::HttpError("timeout".to_string())));
    assert_eq!(r.unwrap_err(), ProviderError::ExecutionFailed("HTTP error: timeout".to_string()));
}

#[test]
fn error_outcome_gives_error_state() {
    let mut w = empty_watch();
    w.name = Some("Disk".to_string());
    w.url = Some("https://example.com".to_string());
    w.link = Some("https://example.com/dash".to_string());
    w.expand = true;
    let s = watch_state(&w, Err(ProviderError::Timeout), Some("t0".to_string()), &eval, &literal, &render);
    assert_eq!(s.name, "Disk");
    assert_eq!(s.status, WatchStatus::Error);
    assert_eq!(s.data, JsonValue::Null);
    assert_eq!(s.error_message.as_deref(), Some("provider timed out"));
    assert_eq!(s.url.as_deref(), Some("https://example.com/dash"));
    assert!(s.expand);
    assert_eq!(s.display.style, "status");
    assert!(s.details.is_empty());
    assert_eq!(s.last_check.as_deref(), Some("t0"));
}

#[test]
fn result_without_conditions_uses_default_status() {
    let mut w = empty_watch();
    w.watch_type = Some(WatchType::Http);
    w.url = Some("https://example.com".to_string());
    let result = ProviderResult { data: j(r#"{"up": true, "status": 200}"#), exit_code: None, latency_ms: Some(3) };
    let s = watch_state(&w, Ok(result), None, &eval, &literal, &render);
    assert_eq!(s.status, WatchStatus::Success);
    assert_eq!(s.url.as_deref(), Some("https://example.com"));
    assert!(s.error_message.is_none());
}

#[test]
fn result_with_conditions_and_details() {
    let mut w = empty_watch();
    w.conditions.warning = Some(".degraded".to_string());
    w.details = vec![Display { title: Some("Panel".to_string()), value: Some(".count".to_string()), ..Default::default() }];
    w.display = Some(Display {
        title: Some("T".to_string()),
        details_from: Some(".components".to_string()),
        ..Default::default()
    });
    let data = j(r#"{"degraded": true, "count": 3,
        "components": [{"name": "API", "status": "partial_outage"}, {"status": "operational"}]}"#);
    let result = ProviderResult { data, exit_code: Some(0), latency_ms: None };
    let s = watch_state(&w, Ok(result), None, &eval, &literal, &render);
    assert_eq!(s.status, WatchStatus::Warning);
    assert_eq!(s.display.title.as_deref(), Some("<T>"));
    assert_eq!(s.details.len(), 2);
    assert_eq!(s.details[0].title.as_deref(), Some("<Panel>"));
    assert_eq!(s.details[0].value, Some(j("3")));
    assert_eq!(s.details[1].title.as_deref(), Some("API"));
    assert_eq!(s.details[1].description.as_deref(), Some("partial outage"));
    assert_eq!(s.details[1].value, Some(JsonValue::String("warning".to_string())));
}

#[test]
fn dynamic_progress_details() {
    let display = Display {
        detail_style: Some(DisplayStyle::Progress),
        detail_title: Some(".label".to_string()),
        detail_value: Some(".used".to_string()),
        detail_max: Some("100".to_string()),
        detail_description: Some("d".to_string()),
        ..Default::default()
    };
    let data = j(r#"{"bars": [{"label": 7, "used": 40}, {"used": 2}]}"#);
    let details = resolve_dynamic_details(&display, ".bars", &data, &eval, &literal, &render);
    assert_eq!(details.len(), 1);
    assert_eq!(details[0].title.as_deref(), Some("7"));
    assert_eq!(details[0].style, "progress");
    assert_eq!(details[0].value, Some(j("40")));
    assert_eq!(details[0].max.as_ref().map(|n| from_json(&JsonValue::Number(n.clone())).as_f64()), Some(Some(100.0)));
    assert_eq!(details[0].description.as_deref(), Some("<d>"));
    assert!(resolve_dynamic_details(&display, ".missing", &data, &eval, &literal, &render).is_empty());
}

#[test]
fn list_items_take_title_and_truthiness() {
    let display = Display {
        items: Some(".checks".to_string()),
        item_title: Some(".name".to_string()),
        item_status: Some(".ok".to_string()),
        ..Default::default()
    };
    let data = j(r#"{"checks": [{"name": "a", "ok": true}, {"name": 5, "ok": 0}, {"ok": "yes"}, {"name": "d"}]}"#);
    let items = resolve_items(&display, &data, &eval, &literal).unwrap();
    let view: Vec<(String, WatchStatus)> = items.iter().map(|i| (i.title.clone(), i.status)).collect();
    assert_eq!(
        view,
        vec![
            ("a".to_string(), WatchStatus::Success),
            ("".to_string(), WatchStatus::Error),
            ("".to_string(), WatchStatus::Success),
            ("d".to_string(), WatchStatus::Unknown),
        ]
    );
    let no_array = Display { items: Some(".checks[0]".to_string()), ..Default::default() };
    assert!(resolve_items(&no_array, &data, &eval, &literal).is_none());
}

#[test]
fn only_null_false_zero_and_empty_string_are_false() {
    assert!(!is_truthy(&JsonValue::Null));
    assert!(!is_truthy(&JsonValue::Bool(false)));
    assert!(!is_truthy(&JsonValue::Number(JsonNumber::PosInt(0))));
    assert!(!is_truthy(&JsonValue::Number(JsonNumber::Float(0.0f64.to_bits(), "0.0".to_string()))));
    assert!(!is_truthy(&JsonValue::String(String::new())));
    assert!(is_truthy(&JsonValue::Number(JsonNumber::PosInt(1))));
    assert!(is_truthy(&JsonValue::Array(vec![])));
    assert!(is_truthy(&to_json(&serde_json::Value::Object(serde_json::Map::new()))));
}
