use wtch::adapter::resolve_env_vars;
use wtch::strmap::StrMap;

fn env(pairs: &[(&str, &str)]) -> StrMap<String> {
    let mut m = StrMap::new();
    for (k, v) in pairs {
        m.insert(k.to_string(), v.to_string());
    }
    m
}

#[test]
fn test_resolve_env_vars_no_placeholders() {
    assert_eq!(resolve_env_vars("plain-value", &env(&[])), "plain-value");
}

#[test]
fn test_resolve_env_vars_braced_present() {
    let e = env(&[("WTCH_TEST_TOKEN", "secret123")]);
    assert_eq!(resolve_env_vars("Bearer ${WTCH_TEST_TOKEN}", &e), "Bearer secret123");
}

#[test]
fn test_resolve_env_vars_simple_present() {
    let e = env(&[("WTCH_TEST_KEY", "mykey")]);
    assert_eq!(resolve_env_vars("$WTCH_TEST_KEY", &e), "mykey");
}

#[test]
fn test_resolve_env_vars_braced_missing_becomes_empty() {
    assert_eq!(resolve_env_vars("Bearer ${WTCH_MISSING_VAR_XYZ}", &env(&[])), "Bearer ");
}

#[test]
fn test_resolve_env_vars_simple_missing_becomes_empty() {
    assert_eq!(resolve_env_vars("$WTCH_MISSING_SIMPLE_XYZ", &env(&[])), "");
}

#[test]
fn test_resolve_env_vars_braced_takes_priority_over_simple() {
    let e = env(&[("WTCH_PRIO_VAR", "braced")]);
    assert_eq!(resolve_env_vars("${WTCH_PRIO_VAR}", &e), "braced");
}

#[test]
fn lowercase_bare_names_are_left_alone() {
    let e = env(&[("home", "/x"), ("A", "1")]);
    assert_eq!(resolve_env_vars("$home-$A-${home}", &e), "$home-1-/x");
}
