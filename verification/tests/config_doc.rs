use wtch::config::ConfigError;
use wtch::config_file::{add_preset_to_doc, remove_preset_from_doc, reorder_doc, yaml_entry_key};
use wtch::yaml::YamlValue;

fn to_plain(v: serde_yaml::Value) -> YamlValue {
    match v {
        serde_yaml::Value::Null => YamlValue::Null,
        serde_yaml::Value::Bool(b) => YamlValue::Bool(b),
        serde_yaml::Value::Number(n) => YamlValue::Number(n.to_string()),
        serde_yaml::Value::String(s) => YamlValue::String(s),
        serde_yaml::Value::Sequence(seq) => YamlValue::Sequence(seq.into_iter().map(to_plain).collect()),
        serde_yaml::Value::Mapping(m) => {
            YamlValue::Mapping(m.into_iter().map(|(k, v)| (to_plain(k), to_plain(v))).collect())
        }
        serde_yaml::Value::Tagged(t) => YamlValue::Tagged(t.tag.to_string(), Box::new(to_plain(t.value))),
    }
}

fn doc(text: &str) -> YamlValue {
    to_plain(serde_yaml::from_str(text).unwrap())
}

fn render(v: &YamlValue) -> String {
    format!("{v:?}")
}

fn watch_keys(d: &YamlValue) -> Vec<String> {
    match d {
        YamlValue::Mapping(m) => match m.iter().find(|(k, _)| matches!(k, YamlValue::String(s) if s == "watch")) {
            Some((_, YamlValue::Sequence(es))) => es.iter().map(yaml_entry_key).collect(),
            _ => vec![],
        },
        _ => vec![],
    }
}

#[test]
fn adding_a_preset_appends_an_entry_and_keeps_other_keys() {
    let d = doc("general:\n  debug: true\nwatch:\n  - name: Keep Me\n");
    let out = add_preset_to_doc(d, "github").unwrap().unwrap();
    assert_eq!(watch_keys(&out), vec!["Keep Me", "github"]);
    assert!(render(&out).starts_with("Mapping([(String(\"general\")"));
}

#[test]
fn adding_a_preset_twice_changes_nothing() {
    let d = doc("watch:\n  - preset: github\n");
    assert!(add_preset_to_doc(d, "github").unwrap().is_none());
}

#[test]
fn adding_a_preset_creates_the_watch_list() {
    let out = add_preset_to_doc(YamlValue::Mapping(vec![]), "github").unwrap().unwrap();
    assert_eq!(watch_keys(&out), vec!["github"]);
}

#[test]
fn adding_needs_a_mapping_and_a_sequence() {
    assert_eq!(
        add_preset_to_doc(doc("- a\n- b\n"), "x").unwrap_err(),
        ConfigError::Parse("config root is not a mapping".to_string())
    );
    assert_eq!(
        add_preset_to_doc(doc("watch: 3\n"), "x").unwrap_err(),
        ConfigError::Parse("watch is not a sequence".to_string())
    );
}

#[test]
fn removing_a_preset_keeps_the_others_in_order() {
    let d = doc("watch:\n  - name: Keep Me\n  - preset: github\n  - preset: github\n  - preset: other\n");
    let out = remove_preset_from_doc(d, "github").unwrap();
    assert_eq!(watch_keys(&out), vec!["Keep Me", "other"]);
}

#[test]
fn reordering_follows_the_names_case_insensitively() {
    let d = doc("watch:\n  - name: Alpha\n  - preset: beta\n  - name: Gamma\n");
    let out = reorder_doc(d, &["gamma".to_string(), "ALPHA".to_string()]).unwrap();
    assert_eq!(watch_keys(&out), vec!["Gamma", "Alpha", "beta"]);
}
