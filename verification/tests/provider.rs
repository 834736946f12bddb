use wtch::config::{Conditions, General, ScriptFormat, ShellConfig, Watch};
use wtch::json::{JsonNumber, JsonValue};
use wtch::provider::http::{build_result, request_url};
use wtch::provider::script::{parse_output, prepare};
use wtch::provider::ProviderError;
use wtch::shell::ShellOutput;
use wtch::strmap::StrMap;

fn to_json(v: &serde_json::Value) -> JsonValue {
    match v {
        serde_json::Value::Null => JsonValue::Null,
        serde_json::Value::Bool(b) => JsonValue::Bool(*b),
        serde_json::Value::Number(n) => JsonValue::Number(if let Some(u) = n.as_u64() {
            JsonNumber::PosInt(u)
        } else if let Some(i) = n.as_i64() {
            JsonNumber::NegInt(i)
        } else {
            JsonNumber::Float(n.as_f64().unwrap().to_bits(), n.to_string())
        }),
        serde_json::Value::String(s) => JsonValue::String(s.clone()),
        serde_json::Value::Array(a) => JsonValue::Array(a.iter().map(to_json).collect()),
        serde_json::Value::Object(o) => {
            JsonValue::Object(o.iter().map(|(k, v)| (k.clone(), to_json(v))).collect())
        }
    }
}

fn parse_json(text: &str) -> Result<JsonValue, String> {
    serde_json::from_str::<serde_json::Value>(text).map(|v| to_json(&v)).map_err(|e| e.to_string())
}

fn parse_number(text: &str) -> Option<JsonValue> {
    text.parse::<f64>().ok().map(|f| to_json(&serde_json::Value::from(f)))
}

fn parse(output: ShellOutput, format: &ScriptFormat) -> Result<wtch::provider::ProviderResult, ProviderError> {
    parse_output(output, format, parse_json, parse_number)
}

fn num(v: &JsonValue) -> Option<f64> {
    match v {
        JsonValue::Number(JsonNumber::PosInt(u)) => Some(*u as f64),
        JsonValue::Number(JsonNumber::NegInt(i)) => Some(*i as f64),
        JsonValue::Number(JsonNumber::Float(bits, _)) => Some(f64::from_bits(*bits)),
        _ => None,
    }
}

fn member<'a>(v: &'a JsonValue, key: &str) -> &'a JsonValue {
    v.get(key).unwrap_or(&JsonValue::Null)
}

fn make_output(stdout: &str, exit_code: i32) -> ShellOutput {
    ShellOutput { stdout: stdout.to_string(), stderr: String::new(), exit_code }
}

#[test]
fn test_build_result_200_is_up() {
    let r = build_result(200, 42);
    assert_eq!(num(member(&r.data, "status")), Some(200.0));
    assert_eq!(num(member(&r.data, "latency_ms")), Some(42.0));
    assert_eq!(member(&r.data, "up"), &JsonValue::Bool(true));
    assert_eq!(r.latency_ms, Some(42));
    assert!(r.exit_code.is_none());
}

#[test]
fn test_build_result_204_is_up() {
    let r = build_result(204, 10);
    assert_eq!(member(&r.data, "up"), &JsonValue::Bool(true));
}

#[test]
fn test_build_result_299_is_up() {
    let r = build_result(299, 10);
    assert_eq!(member(&r.data, "up"), &JsonValue::Bool(true));
}

#[test]
fn test_build_result_300_is_not_up() {
    let r = build_result(300, 10);
    assert_eq!(member(&r.data, "up"), &JsonValue::Bool(false));
}

#[test]
fn test_build_result_404_is_not_up() {
    let r = build_result(404, 55);
    assert_eq!(num(member(&r.data, "status")), Some(404.0));
    assert_eq!(member(&r.data, "up"), &JsonValue::Bool(false));
}

#[test]
fn test_build_result_500_is_not_up() {
    let r = build_result(500, 200);
    assert_eq!(num(member(&r.data, "status")), Some(500.0));
    assert_eq!(member(&r.data, "up"), &JsonValue::Bool(false));
}

#[test]
fn test_build_result_latency_is_propagated() {
    let r = build_result(200, 123);
    assert_eq!(r.latency_ms, Some(123));
    assert_eq!(num(member(&r.data, "latency_ms")), Some(123.0));
}

#[test]
fn test_build_result_199_is_not_up() {
    let r = build_result(199, 5);
    assert_eq!(member(&r.data, "up"), &JsonValue::Bool(false));
}

#[test]
fn test_parse_json_object() {
    let output = make_output(r#"{"cost": 1.5, "limit": 10}"#, 0);
    let result = parse(output, &ScriptFormat::Json).unwrap();
    assert_eq!(num(member(&result.data, "cost")), Some(1.5));
    assert_eq!(num(member(&result.data, "limit")), Some(10.0));
    assert_eq!(result.exit_code, Some(0));
    assert!(result.latency_ms.is_none());
}

#[test]
fn test_parse_json_array() {
    let output = make_output(r#"[1, 2, 3]"#, 0);
    let result = parse(output, &ScriptFormat::Json).unwrap();
    assert!(matches!(result.data, JsonValue::Array(_)));
}

#[test]
fn test_parse_json_trims_whitespace() {
    let output = make_output("  {\"key\": \"val\"}  \n", 0);
    let result = parse(output, &ScriptFormat::Json).unwrap();
    assert_eq!(member(&result.data, "key"), &JsonValue::String("val".to_string()));
}

#[test]
fn test_parse_json_invalid_returns_parse_error() {
    let output = make_output("not json at all", 0);
    let err = parse(output, &ScriptFormat::Json).unwrap_err();
    assert!(matches!(err, ProviderError::ParseError(_)));
}

#[test]
fn test_parse_value_numeric_string() {
    let output = make_output("42.5", 0);
    let result = parse(output, &ScriptFormat::Value).unwrap();
    assert_eq!(num(member(&result.data, "value")), Some(42.5_f64));
}

#[test]
fn test_parse_value_integer_string() {
    let output = make_output("100", 0);
    let result = parse(output, &ScriptFormat::Value).unwrap();
    assert_eq!(num(member(&result.data, "value")), Some(100.0_f64));
}

#[test]
fn test_parse_value_text_string() {
    let output = make_output("203.0.113.42", 0);
    let result = parse(output, &ScriptFormat::Value).unwrap();
    assert_eq!(member(&result.data, "value"), &JsonValue::String("203.0.113.42".to_string()));
}

#[test]
fn test_parse_value_trims_whitespace() {
    let output = make_output("  hello world  \n", 0);
    let result = parse(output, &ScriptFormat::Value).unwrap();
    assert_eq!(member(&result.data, "value"), &JsonValue::String("hello world".to_string()));
}

#[test]
fn test_parse_exit_code_success() {
    let output = make_output("", 0);
    let result = parse(output, &ScriptFormat::ExitCode).unwrap();
    assert_eq!(num(member(&result.data, "exit_code")), Some(0.0));
    assert_eq!(result.exit_code, Some(0));
}

#[test]
fn test_parse_exit_code_failure() {
    let output = make_output("something failed", 1);
    let result = parse(output, &ScriptFormat::ExitCode).unwrap();
    assert_eq!(num(member(&result.data, "exit_code")), Some(1.0));
    assert_eq!(result.exit_code, Some(1));
}

#[test]
fn test_parse_exit_code_ignores_stdout() {
    let output = make_output(r#"{"irrelevant": true}"#, 2);
    let result = parse(output, &ScriptFormat::ExitCode).unwrap();
    assert_eq!(num(member(&result.data, "exit_code")), Some(2.0));
    assert!(result.data.get("irrelevant").is_none());
}

#[test]
fn parse_json_error_message_is_prefixed() {
    let err = parse(make_output("{", 0), &ScriptFormat::Json).unwrap_err();
    match err {
        ProviderError::ParseError(m) => assert!(m.starts_with("invalid JSON from script: ")),
        other => panic!("unexpected {other:?}"),
    }
}

#[test]
fn negative_exit_code_is_kept() {
    let result = parse(make_output("", -1), &ScriptFormat::ExitCode).unwrap();
    assert_eq!(member(&result.data, "exit_code"), &JsonValue::Number(JsonNumber::NegInt(-1)));
}

#[test]
fn provider_error_messages() {
    assert_eq!(ProviderError::Timeout.message(), "provider timed out");
    assert_eq!(ProviderError::ExecutionFailed("x".into()).message(), "execution failed: x");
    assert_eq!(ProviderError::ParseError("y".into()).message(), "parse error: y");
    assert_eq!(ProviderError::HttpError("z".into()).message(), "HTTP error: z");
}

fn empty_watch() -> Watch {
    Watch {
        name: None,
        watch_type: None,
        command: None,
        shell: None,
        format: None,
        interval: None,
        url: None,
        link: None,
        expand: false,
        notify: None,
        preset: None,
        conditions: Conditions::default(),
        display: None,
        details: vec![],
        headers: StrMap::new(),
        adapter: None,
        adapter_config: None,
    }
}

#[test]
fn script_preparation_checks_command_and_shell() {
    let mut shells = StrMap::new();
    shells.insert("sh".to_string(), ShellConfig { command: "sh".to_string(), args: vec!["-c".to_string()] });
    let mut general = General::default();
    general.allow_scripts = true;
    let mut w = empty_watch();
    assert_eq!(
        prepare(&w, &general, &shells).unwrap_err(),
        ProviderError::ExecutionFailed("watch has no command field".to_string())
    );
    w.command = Some("uptime".to_string());
    assert_eq!(
        prepare(&w, &general, &shells).unwrap_err(),
        ProviderError::ExecutionFailed("watch has no shell field".to_string())
    );
    w.shell = Some("fish".to_string());
    assert_eq!(
        prepare(&w, &general, &shells).unwrap_err(),
        ProviderError::ExecutionFailed("unknown shell: fish".to_string())
    );
    w.shell = Some("sh".to_string());
    let (argv, format) = prepare(&w, &general, &shells).unwrap();
    assert_eq!(argv, vec!["sh", "-c", "uptime"]);
    assert_eq!(format, ScriptFormat::Value);
}

#[test]
fn scripts_stay_off_unless_allowed() {
    let mut shells = StrMap::new();
    shells.insert("sh".to_string(), ShellConfig { command: "sh".to_string(), args: vec!["-c".to_string()] });
    let mut w = empty_watch();
    w.command = Some("uptime".to_string());
    w.shell = Some("sh".to_string());
    let general = General::default();
    assert!(!general.allow_scripts);
    assert_eq!(
        prepare(&w, &general, &shells).unwrap_err(),
        ProviderError::ExecutionFailed("script execution is disabled (set general.allow_scripts to true)".to_string())
    );
}

#[test]
fn scripts_fall_back_to_the_default_shell() {
    let mut shells = StrMap::new();
    shells.insert("sh".to_string(), ShellConfig { command: "sh".to_string(), args: vec!["-c".to_string()] });
    let mut w = empty_watch();
    w.command = Some("uptime".to_string());
    let mut general = General::default();
    general.allow_scripts = true;
    general.default_shell = Some("sh".to_string());
    let (argv, _) = prepare(&w, &general, &shells).unwrap();
    assert_eq!(argv, vec!["sh", "-c", "uptime"]);
    w.shell = Some("bash".to_string());
    assert_eq!(
        prepare(&w, &general, &shells).unwrap_err(),
        ProviderError::ExecutionFailed("unknown shell: bash".to_string())
    );
}

#[test]
fn http_watch_needs_url() {
    let mut w = empty_watch();
    assert_eq!(
        request_url(&w).unwrap_err(),
        ProviderError::ExecutionFailed("watch has no url field".to_string())
    );
    w.url = Some("https://example.com".to_string());
    assert_eq!(request_url(&w).unwrap(), "https://example.com");
}
