use wtch::config::{Conditions, Display, DisplayStyle, WatchType};
use wtch::expr::eval::eval_field;
use wtch::expr::lexer::NumberLit;
use wtch::expr::parser::{parse, BinOp, Expr, Literal};
use wtch::expr::ExprError;
use wtch::json::{JsonNumber, JsonValue};
use wtch::path::json_value_at_path;
use wtch::provider::ProviderResult;
use wtch::state::WatchStatus;
use wtch::watcher::{checked_resolve_template, default_status, resolve_display, resolve_number, status_from_conditions};

fn number_debug(n: &wtch::expr::lexer::NumberLit) -> String {
    let v: f64 = n.text.parse().unwrap();
    format!("{:?}", if n.negative { -v } else { v })
}


fn to_json(v: &serde_json::Value) -> JsonValue {
    match v {
        serde_json::Value::Null => JsonValue::Null,
        serde_json::Value::Bool(b) => JsonValue::Bool(*b),
        serde_json::Value::Number(n) => JsonValue::Number(if let Some(u) = n.as_u64() {
            JsonNumber::PosInt(u)
        } else if let Some(i) = n.as_i64() {
            JsonNumber::NegInt(i)
        } else {
            JsonNumber::Float(n.as_f64().unwrap().to_bits(), n.to_string())
        }),
        serde_json::Value::String(s) => JsonValue::String(s.clone()),
        serde_json::Value::Array(a) => JsonValue::Array(a.iter().map(to_json).collect()),
        serde_json::Value::Object(o) => {
            JsonValue::Object(o.iter().map(|(k, v)| (k.clone(), to_json(v))).collect())
        }
    }
}

fn from_json(v: &JsonValue) -> serde_json::Value {
    match v {
        JsonValue::Null => serde_json::Value::Null,
        JsonValue::Bool(b) => serde_json::Value::Bool(*b),
        JsonValue::Number(JsonNumber::PosInt(u)) => serde_json::Value::from(*u),
        JsonValue::Number(JsonNumber::NegInt(i)) => serde_json::Value::from(*i),
        JsonValue::Number(JsonNumber::Float(bits, _)) => serde_json::Value::from(f64::from_bits(*bits)),
        JsonValue::String(s) => serde_json::Value::String(s.clone()),
        JsonValue::Array(a) => serde_json::Value::Array(a.iter().map(from_json).collect()),
        JsonValue::Object(o) => {
            serde_json::Value::Object(o.iter().map(|(k, v)| (k.clone(), from_json(v))).collect())
        }
    }
}

fn j(text: &str) -> JsonValue {
    to_json(&serde_json::from_str(text).unwrap())
}

fn as_f64(v: &JsonValue) -> Option<f64> {
    from_json(v).as_f64()
}

fn number_f64(n: &JsonNumber) -> f64 {
    match n {
        JsonNumber::PosInt(u) => *u as f64,
        JsonNumber::NegInt(i) => *i as f64,
        JsonNumber::Float(bits, _) => f64::from_bits(*bits),
    }
}

fn literal_f64(n: &NumberLit) -> f64 {
    let v: f64 = n.text.parse().unwrap();
    if n.negative {
        -v
    } else {
        v
    }
}

fn show(v: &JsonValue) -> String {
    from_json(v).to_string()
}

/// A small evaluator for the expressions these tests use: field paths,
/// number literals and numeric comparisons.
fn eval(expr: &str, data: &JsonValue) -> Result<JsonValue, ExprError> {
    eval_ast(&parse(expr, &number_debug)?, data)
}

fn eval_ast(e: &Expr, data: &JsonValue) -> Result<JsonValue, ExprError> {
    match e {
        Expr::Field(steps) => eval_field(steps, data, &show).map(|v| to_json(&from_json(v))),
        Expr::Literal(Literal::Number(n)) => Ok(to_json(&serde_json::Value::from(literal_f64(n)))),
        Expr::BinaryOp { op, left, right } => {
            let l = as_f64(&eval_ast(left, data)?).ok_or(ExprError::TypeError("number".into()))?;
            let r = as_f64(&eval_ast(right, data)?).ok_or(ExprError::TypeError("number".into()))?;
            let b = match op {
                BinOp::Gt => l > r,
                BinOp::Lt => l < r,
                BinOp::Gte => l >= r,
                BinOp::Lte => l <= r,
                _ => return Err(ExprError::TypeError("operator".into())),
            };
            Ok(JsonValue::Bool(b))
        }
        _ => Err(ExprError::TypeError("unsupported".into())),
    }
}

fn literal(text: &str) -> Option<JsonNumber> {
    text.trim().parse::<f64>().ok().map(|f| JsonNumber::Float(f.to_bits(), serde_json::Value::from(f).to_string()))
}

/// Renders `{{ .path }}` placeholders, writing whole numbers without a
/// fraction, as the display templates do.
fn float_text(bits: u64) -> String {
    let f = f64::from_bits(bits);
    if f.fract() == 0.0 && f.abs() < 1e15 {
        (f as i64).to_string()
    } else {
        f.to_string()
    }
}

fn render(template: &str, data: &JsonValue) -> String {
    checked_resolve_template(template, data, &float_text).expect("well-formed template paths")
}

fn conditions(error: &str, warning: &str, success: &str) -> Conditions {
    Conditions {
        error: Some(error.to_string()),
        warning: Some(warning.to_string()),
        maintenance: None,
        success: Some(success.to_string()),
    }
}

#[test]
fn test_json_value_at_path_top_level() {
    let data = j(r#"{"a": 1}"#);
    assert_eq!(json_value_at_path(".a", &data), Some(&j("1")));
}

#[test]
fn test_json_value_at_path_nested() {
    let data = j(r#"{"a": {"b": {"c": "deep"}}}"#);
    assert_eq!(json_value_at_path(".a.b.c", &data), Some(&j(r#""deep""#)));
}

#[test]
fn test_json_value_at_path_missing() {
    let data = j(r#"{"a": 1}"#);
    assert_eq!(json_value_at_path(".b", &data), None);
}

#[test]
fn test_json_value_at_path_array_index() {
    let data = j(r#"{"bars": [{"percentage": 62}, {"percentage": 13}]}"#);
    let val = json_value_at_path(".bars[0].percentage", &data);
    assert_eq!(val, Some(&j("62")));
}

#[test]
fn test_json_value_at_path_second_index() {
    let data = j(r#"{"bars": [{"label": "a"}, {"label": "b"}]}"#);
    let val = json_value_at_path(".bars[1].label", &data);
    assert_eq!(val, Some(&j(r#""b""#)));
}

#[test]
fn test_status_error_condition_wins() {
    let c = conditions(".cost > 100", ".cost > 80", ".cost <= 80");
    let data = j(r#"{"cost": 110}"#);
    assert_eq!(status_from_conditions(&c, &data, &eval), WatchStatus::Error);
}

#[test]
fn test_status_warning_when_not_error() {
    let c = conditions(".cost > 100", ".cost > 80", ".cost <= 80");
    let data = j(r#"{"cost": 90}"#);
    assert_eq!(status_from_conditions(&c, &data, &eval), WatchStatus::Warning);
}

#[test]
fn test_status_success_when_all_clear() {
    let c = conditions(".cost > 100", ".cost > 80", ".cost <= 80");
    let data = j(r#"{"cost": 50}"#);
    assert_eq!(status_from_conditions(&c, &data, &eval), WatchStatus::Success);
}

#[test]
fn test_status_unknown_when_no_condition_matches() {
    let c = conditions(".missing > 100", ".missing > 80", ".missing <= 80");
    let data = j(r#"{"cost": 50}"#);
    assert_eq!(status_from_conditions(&c, &data, &eval), WatchStatus::Unknown);
}

#[test]
fn test_default_status_script_exit_0_is_success() {
    let result = ProviderResult { data: j("{}"), exit_code: Some(0), latency_ms: None };
    assert_eq!(default_status(&result, &WatchType::Script), WatchStatus::Success);
}

#[test]
fn test_default_status_script_nonzero_exit_is_error() {
    let result = ProviderResult { data: j("{}"), exit_code: Some(1), latency_ms: None };
    assert_eq!(default_status(&result, &WatchType::Script), WatchStatus::Error);
}

#[test]
fn test_default_status_http_up_is_success() {
    let result = ProviderResult { data: j(r#"{"up": true, "status": 200}"#), exit_code: None, latency_ms: Some(50) };
    assert_eq!(default_status(&result, &WatchType::Http), WatchStatus::Success);
}

#[test]
fn test_default_status_http_down_is_error() {
    let result = ProviderResult { data: j(r#"{"up": false, "status": 503}"#), exit_code: None, latency_ms: Some(100) };
    assert_eq!(default_status(&result, &WatchType::Http), WatchStatus::Error);
}

#[test]
fn test_resolve_display_templates_interpolated() {
    let display = Display {
        style: Some(DisplayStyle::Progress),
        title: Some("Usage".to_string()),
        description: Some("${{ .cost }} / ${{ .limit }}".to_string()),
        value: Some(".cost".to_string()),
        max: Some(".limit".to_string()),
        ..Default::default()
    };
    let data = j(r#"{"cost": 45.0, "limit": 100.0}"#);
    let state = resolve_display(&display, &data, &eval, &literal, &render);

    assert_eq!(state.style, "progress");
    assert_eq!(state.title.as_deref(), Some("Usage"));
    assert_eq!(state.description.as_deref(), Some("$45 / $100"));
    assert_eq!(state.value.as_ref().and_then(as_f64), Some(45.0));
    assert_eq!(state.max.as_ref().map(number_f64), Some(100.0));
}

#[test]
fn test_resolve_display_missing_data_produces_empty_strings() {
    let display = Display {
        style: Some(DisplayStyle::Text),
        title: Some("{{ .missing }}".to_string()),
        ..Default::default()
    };
    let data = j("{}");
    let state = resolve_display(&display, &data, &eval, &literal, &render);
    assert_eq!(state.title.as_deref(), Some(""));
}

#[test]
fn test_resolve_f64_literal() {
    assert_eq!(resolve_number("100", &j("{}"), &eval, &literal).as_ref().map(number_f64), Some(100.0));
}

#[test]
fn test_resolve_f64_field_path() {
    assert_eq!(resolve_number(".limit", &j(r#"{"limit": 50.0}"#), &eval, &literal).as_ref().map(number_f64), Some(50.0));
}

#[test]
fn test_resolve_f64_missing_returns_none() {
    assert_eq!(resolve_number(".missing", &j("{}"), &eval, &literal), None);
}

#[test]
fn test_resolve_template_simple_field() {
    let data = j(r#"{"cost": 42}"#);
    assert_eq!(render("Cost: {{ .cost }}", &data), "Cost: 42");
}

#[test]
fn test_resolve_template_nested_field() {
    let data = j(r#"{"billing": {"cost": 99.5}}"#);
    assert_eq!(render("Amount: {{ .billing.cost }}", &data), "Amount: 99.5");
}

#[test]
fn test_resolve_template_multiple_placeholders() {
    let data = j(r#"{"cost": 10, "limit": 100}"#);
    assert_eq!(render("${{ .cost }} / ${{ .limit }}", &data), "$10 / $100");
}

#[test]
fn test_resolve_template_missing_field_becomes_empty() {
    let data = j(r#"{"cost": 10}"#);
    assert_eq!(render("Val: {{ .missing }}", &data), "Val: ");
}

#[test]
fn test_resolve_template_string_value() {
    let data = j(r#"{"status": "operational"}"#);
    assert_eq!(render("Status: {{ .status }}", &data), "Status: operational");
}

#[test]
fn test_resolve_template_bool_value() {
    let data = j(r#"{"up": true}"#);
    assert_eq!(render("Up: {{ .up }}", &data), "Up: true");
}

#[test]
fn test_resolve_template_null_value_becomes_empty() {
    let data = j(r#"{"val": null}"#);
    assert_eq!(render("{{ .val }}", &data), "");
}

#[test]
fn test_resolve_template_no_placeholders() {
    let data = j("{}");
    assert_eq!(render("Hello world", &data), "Hello world");
}

#[test]
fn test_resolve_template_extra_whitespace_in_placeholder() {
    let data = j(r#"{"x": 7}"#);
    assert_eq!(render("{{  .x  }}", &data), "7");
}

#[test]
fn test_template_with_array_index() {
    let data = j(r#"{"bars": [{"percentage": 62, "reset": "in 30 min"}]}"#);
    assert_eq!(render("{{ .bars[0].percentage }}% ({{ .bars[0].reset }})", &data), "62% (in 30 min)");
}

#[test]
fn template_with_a_misordered_path_is_refused() {
    let data = j(r#"{"a": [[1]]}"#);
    assert_eq!(checked_resolve_template("x {{ .a[0]][0] }}", &data, &float_text), None);
    assert_eq!(checked_resolve_template("x {{ .a[0][0] }}", &data, &float_text), Some("x 1".to_string()));
}
