use wtch::config::{Conditions, Display, DisplayStyle, Watch, WatchType};
use wtch::preset::{apply_preset, merge_watch};
use wtch::strmap::StrMap;

fn empty_watch() -> Watch {
    Watch {
        name: None,
        watch_type: None,
        command: None,
        shell: None,
        format: None,
        interval: None,
        url: None,
        link: None,
        expand: false,
        notify: None,
        preset: None,
        conditions: Conditions::default(),
        display: None,
        details: vec![],
        headers: StrMap::new(),
        adapter: None,
        adapter_config: None,
    }
}

/// The GitHub preset as it is shipped: an adapter watch of githubstatus.com
/// with error, warning and success conditions and a status display.
fn github_preset() -> Watch {
    let mut w = empty_watch();
    w.name = Some("GitHub".to_string());
    w.watch_type = Some(WatchType::Adapter);
    w.url = Some("https://www.githubstatus.com".to_string());
    w.interval = Some("60s".to_string());
    w.adapter = Some("urn:wtch:adapter:statuspage".to_string());
    w.conditions = Conditions {
        error: Some(r#".status.indicator == "major" or .status.indicator == "critical""#.to_string()),
        warning: Some(r#".status.indicator == "minor""#.to_string()),
        maintenance: None,
        success: Some(r#".status.indicator == "none""#.to_string()),
    };
    w.display = Some(Display {
        style: Some(DisplayStyle::Status),
        title: Some("GitHub".to_string()),
        ..Default::default()
    });
    w
}

#[test]
fn test_user_override_takes_priority() {
    let mut user_watch = empty_watch();
    user_watch.preset = Some("github".to_string());
    user_watch.name = Some("My GitHub".to_string());
    user_watch.interval = Some("2m".to_string());

    let resolved = apply_preset(user_watch, Some(github_preset()));

    assert_eq!(resolved.name.as_deref(), Some("My GitHub"));
    assert_eq!(resolved.interval.as_deref(), Some("2m"));
    assert_eq!(resolved.watch_type, Some(WatchType::Adapter));
    assert_eq!(resolved.url.as_deref(), Some("https://www.githubstatus.com"));
}

#[test]
fn test_preset_fills_missing_fields() {
    let mut user_watch = empty_watch();
    user_watch.preset = Some("github".to_string());

    let resolved = apply_preset(user_watch, Some(github_preset()));

    assert_eq!(resolved.name.as_deref(), Some("GitHub"));
    assert_eq!(resolved.watch_type, Some(WatchType::Adapter));
    assert_eq!(resolved.url.as_deref(), Some("https://www.githubstatus.com"));
    assert_eq!(resolved.interval.as_deref(), Some("60s"));
    assert!(resolved.conditions.error.is_some());
    assert!(resolved.display.is_some());
}

#[test]
fn test_conditions_override_is_all_or_nothing() {
    let mut user_watch = empty_watch();
    user_watch.preset = Some("github".to_string());
    user_watch.conditions = Conditions {
        error: Some(".status == \"critical\"".to_string()),
        warning: None,
        success: None,
        maintenance: None,
    };

    let resolved = apply_preset(user_watch, Some(github_preset()));

    assert_eq!(resolved.conditions.error.as_deref(), Some(".status == \"critical\""));
    assert!(resolved.conditions.warning.is_none());
    assert!(resolved.conditions.success.is_none());
}

#[test]
fn test_conditions_fallback_to_preset_when_user_has_none() {
    let mut user_watch = empty_watch();
    user_watch.preset = Some("github".to_string());

    let resolved = apply_preset(user_watch, Some(github_preset()));

    assert!(resolved.conditions.error.is_some());
    assert!(resolved.conditions.warning.is_some());
    assert!(resolved.conditions.success.is_some());
}

#[test]
fn test_headers_are_merged() {
    let mut user_watch = empty_watch();
    user_watch.preset = Some("github".to_string());
    user_watch.headers.insert("X-User".to_string(), "user-value".to_string());
    user_watch.headers.insert("X-Shared".to_string(), "user-shared".to_string());

    let mut preset_with_base_headers = github_preset();
    preset_with_base_headers.headers.insert("X-Base".to_string(), "base-value".to_string());
    preset_with_base_headers.headers.insert("X-Shared".to_string(), "base-shared".to_string());

    let resolved = merge_watch(preset_with_base_headers, user_watch);

    assert_eq!(resolved.headers.get("X-Base").map(String::as_str), Some("base-value"));
    assert_eq!(resolved.headers.get("X-User").map(String::as_str), Some("user-value"));
    assert_eq!(resolved.headers.get("X-Shared").map(String::as_str), Some("user-shared"));
}

#[test]
fn test_no_preset_returns_watch_as_is() {
    let mut watch = empty_watch();
    watch.name = Some("My Watch".to_string());
    watch.interval = Some("10s".to_string());

    let resolved = apply_preset(watch, None);

    assert_eq!(resolved.name.as_deref(), Some("My Watch"));
    assert_eq!(resolved.interval.as_deref(), Some("10s"));
    assert!(resolved.watch_type.is_none());
}

#[test]
fn test_unknown_preset_returns_watch_as_is() {
    let mut watch = empty_watch();
    watch.preset = Some("totally-unknown".to_string());
    watch.name = Some("Fallback".to_string());

    let resolved = apply_preset(watch, None);

    assert_eq!(resolved.name.as_deref(), Some("Fallback"));
    assert!(resolved.watch_type.is_none());
}

#[test]
fn test_expand_uses_override_value() {
    let mut user_watch = empty_watch();
    user_watch.preset = Some("github".to_string());
    user_watch.expand = true;

    let resolved = apply_preset(user_watch, Some(github_preset()));

    assert!(resolved.expand);
}

#[test]
fn details_come_from_the_preset_when_the_watch_has_none() {
    let mut preset = github_preset();
    preset.details = vec![Display { title: Some("Uptime".to_string()), ..Default::default() }];
    let resolved = apply_preset(empty_watch(), Some(preset));
    assert_eq!(resolved.details.len(), 1);
    assert_eq!(resolved.details[0].title.as_deref(), Some("Uptime"));
}
