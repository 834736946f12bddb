use wtch::config_file::{debug_flag_edit, DebugEdit, GeneralShape};
use wtch::config::ConfigError;
use wtch::config_file::{is_blank, reorder_entries};

fn strings(v: &[&str]) -> Vec<String> {
    v.iter().map(|s| s.to_string()).collect()
}

#[test]
fn blank_file_counts_as_empty() {
    assert!(is_blank(""));
    assert!(is_blank("  \n\t "));
    assert!(!is_blank(" watch: [] "));
}

#[test]
fn reorder_follows_requested_order_then_rest() {
    let entries = strings(&["a", "b", "c", "d"]);
    let keys = strings(&["Alpha", "beta", "Gamma", "delta"]);
    let order = strings(&["gamma", "ALPHA", "missing"]);
    let r = reorder_entries(entries, &keys, &order);
    assert_eq!(r, strings(&["c", "a", "b", "d"]));
}

#[test]
fn reorder_moves_each_entry_once() {
    let entries = strings(&["x1", "x2", "y"]);
    let keys = strings(&["dup", "dup", "y"]);
    let order = strings(&["dup", "y", "dup", "dup"]);
    let r = reorder_entries(entries, &keys, &order);
    assert_eq!(r, strings(&["x1", "y", "x2"]));
}

#[test]
fn reorder_with_empty_order_keeps_entries() {
    let entries = strings(&["a", "b"]);
    let keys = strings(&["a", "b"]);
    assert_eq!(reorder_entries(entries, &keys, &[]), strings(&["a", "b"]));
}

#[test]
fn config_error_messages() {
    assert_eq!(ConfigError::HomeDirNotFound.message(), "could not determine home directory");
    assert_eq!(ConfigError::Io("disk full".into()).message(), "IO error: disk full");
    assert_eq!(ConfigError::Parse("bad".into()).message(), "YAML parse error: bad");
}

#[test]
fn debug_flag_goes_into_general() {
    assert_eq!(debug_flag_edit(GeneralShape::Missing), DebugEdit::AddGeneral);
    assert_eq!(debug_flag_edit(GeneralShape::Mapping), DebugEdit::SetInGeneral);
    assert_eq!(debug_flag_edit(GeneralShape::Other), DebugEdit::Unchanged);
    assert_eq!(debug_flag_edit(GeneralShape::NotMapping), DebugEdit::Unchanged);
}
