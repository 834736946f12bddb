use wtch::config::{Config, ShellConfig};
use wtch::logging::{debug, error, format_line, info, init, warn, write_log, Logger};
use wtch::state::{pick_worse, WatchStatus};
use wtch::text::{join_url, trim};

const ALL: [WatchStatus; 5] =
    [WatchStatus::Success, WatchStatus::Warning, WatchStatus::Error, WatchStatus::Maintenance, WatchStatus::Unknown];

#[test]
fn pick_worse_is_commutative_and_associative() {
    for a in ALL {
        for b in ALL {
            assert_eq!(pick_worse(a, b), pick_worse(b, a));
            for c in ALL {
                assert_eq!(pick_worse(pick_worse(a, b), c), pick_worse(a, pick_worse(b, c)));
            }
        }
    }
}

#[test]
fn pick_worse_orders_by_severity() {
    assert_eq!(pick_worse(WatchStatus::Success, WatchStatus::Maintenance), WatchStatus::Maintenance);
    assert_eq!(pick_worse(WatchStatus::Maintenance, WatchStatus::Unknown), WatchStatus::Unknown);
    assert_eq!(pick_worse(WatchStatus::Unknown, WatchStatus::Warning), WatchStatus::Warning);
    assert_eq!(pick_worse(WatchStatus::Warning, WatchStatus::Error), WatchStatus::Error);
    for a in ALL {
        assert_eq!(pick_worse(a, WatchStatus::Success), a);
        assert_eq!(pick_worse(a, WatchStatus::Error), WatchStatus::Error);
    }
}

#[test]
fn builtin_shells_fill_in_but_never_override() {
    let mut config = Config::default();
    assert_eq!(config.shells.get("bash").unwrap().command, "bash");
    assert_eq!(config.shells.get("wsl").unwrap().args, vec!["-e", "bash", "-ic"]);
    config.shells.insert("bash".to_string(), ShellConfig { command: "/bin/zsh".to_string(), args: vec![] });
    config.apply_builtin_shells();
    assert_eq!(config.shells.get("bash").unwrap().command, "/bin/zsh");
    assert_eq!(config.shells.get("powershell").unwrap().args, vec!["-NoProfile", "-Command"]);
    assert_eq!(config.shells.len(), 5);
}

#[test]
fn log_lines_pad_the_level() {
    assert_eq!(format_line("12:00:00.000", "INFO", "hello"), "[12:00:00.000] INFO  hello\n");
    assert_eq!(format_line("t", "ERROR", "x"), "[t] ERROR x\n");
    assert_eq!(format_line("t", "VERBOSE", "x"), "[t] VERBOSE x\n");
}

#[test]
fn logging_writes_only_when_enabled() {
    let (logger, line) = init(true, "/tmp/wtch.log".to_string(), "t");
    assert_eq!(line.as_deref(), Some("[t] INFO  debug logging started\n"));
    assert_eq!(debug(&logger, "t", "m").as_deref(), Some("[t] DEBUG m\n"));
    assert_eq!(info(&logger, "t", "m").as_deref(), Some("[t] INFO  m\n"));
    assert_eq!(warn(&logger, "t", "m").as_deref(), Some("[t] WARN  m\n"));
    assert_eq!(error(&logger, "t", "m").as_deref(), Some("[t] ERROR m\n"));
    let (quiet, line) = init(false, "/tmp/wtch.log".to_string(), "t");
    assert!(line.is_none());
    assert!(write_log(&quiet, "t", "INFO", "m").is_none());
    let off = Logger { enabled: false, path: String::new() };
    assert!(debug(&off, "t", "m").is_none());
}

#[test]
fn trimming_and_urls() {
    assert_eq!(trim("\u{3000} x y \n"), "x y");
    assert_eq!(trim("   "), "");
    assert_eq!(join_url("https://a.example/", "/x.json"), "https://a.example/x.json");
    assert_eq!(join_url("https://a.example", "/x.json"), "https://a.example/x.json");
}
