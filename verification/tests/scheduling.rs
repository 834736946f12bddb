use wtch::scheduler::{parse_interval_secs, poll_interval_secs, state_order};

fn strings(v: &[&str]) -> Vec<String> {
    v.iter().map(|s| s.to_string()).collect()
}

#[test]
fn states_follow_configuration_order() {
    let names = strings(&["api", "db", "web"]);
    let states = strings(&["web", "api", "db"]);
    assert_eq!(state_order(&names, &states), vec![1, 2, 0]);
}

#[test]
fn unknown_states_come_last_in_their_order() {
    let names = strings(&["api"]);
    let states = strings(&["x", "api", "y"]);
    assert_eq!(state_order(&names, &states), vec![1, 0, 2]);
}

#[test]
fn equal_names_keep_evaluation_order() {
    let names = strings(&["a", "a", "b"]);
    let states = strings(&["b", "a", "a"]);
    assert_eq!(state_order(&names, &states), vec![1, 2, 0]);
}

#[test]
fn poll_interval_falls_back_to_a_minute() {
    assert_eq!(poll_interval_secs("2m"), 120);
    assert_eq!(poll_interval_secs("soon"), 60);
}

#[test]
fn ordering_shows_every_state_once() {
    let names = strings(&["db", "api", "db"]);
    let states = strings(&["web", "db", "api", "db", "zzz", "api"]);
    let mut order = state_order(&names, &states);
    assert_eq!(order, vec![1, 3, 2, 5, 0, 4]);
    order.sort();
    assert_eq!(order, vec![0, 1, 2, 3, 4, 5]);
}

#[test]
fn decimal_intervals_scale_by_their_unit() {
    for n in [0u64, 7, 45, 1234] {
        assert_eq!(parse_interval_secs(&format!("{n}s")), Some(n));
        assert_eq!(parse_interval_secs(&format!("{n}m")), Some(60 * n));
        assert_eq!(parse_interval_secs(&format!(" {n}h\t")), Some(3600 * n));
    }
}
