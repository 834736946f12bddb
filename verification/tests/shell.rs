use wtch::config::ShellConfig;
use wtch::provider::ProviderError;
use wtch::shell::{RunOutcome, ShellRunner};
use wtch::strmap::StrMap;

fn make_shells() -> StrMap<ShellConfig> {
    let mut map = StrMap::new();
    map.insert(
        "bash".to_string(),
        ShellConfig { command: "bash".to_string(), args: vec!["-c".to_string()] },
    );
    map.insert(
        "wsl".to_string(),
        ShellConfig {
            command: "wsl.exe".to_string(),
            args: vec!["-e".to_string(), "bash".to_string(), "-ic".to_string()],
        },
    );
    map
}

#[test]
fn test_build_argv_no_prefix_args() {
    let shell = ShellConfig { command: "sh".to_string(), args: vec![] };
    let argv = ShellRunner::build_argv(&shell, "echo hello");
    assert_eq!(argv, vec!["sh", "echo hello"]);
}

#[test]
fn test_build_argv_with_prefix_args() {
    let shells = make_shells();
    let shell = shells.get("bash").unwrap();
    let argv = ShellRunner::build_argv(shell, "echo hello");
    assert_eq!(argv, vec!["bash", "-c", "echo hello"]);
}

#[test]
fn test_build_argv_multi_prefix_args() {
    let shells = make_shells();
    let shell = shells.get("wsl").unwrap();
    let argv = ShellRunner::build_argv(shell, "uptime");
    assert_eq!(argv, vec!["wsl.exe", "-e", "bash", "-ic", "uptime"]);
}

#[test]
fn test_run_returns_error_on_unknown_shell() {
    let shells = make_shells();
    let result = ShellRunner::command_line("nonexistent", "echo hi", &shells);
    assert!(matches!(result, Err(ProviderError::ExecutionFailed(_))));
    if let Err(ProviderError::ExecutionFailed(msg)) = result {
        assert!(msg.contains("unknown shell: nonexistent"));
    }
}

#[test]
fn command_line_for_known_shell() {
    let shells = make_shells();
    let argv = ShellRunner::command_line("bash", "uptime", &shells).unwrap();
    assert_eq!(argv, vec!["bash", "-c", "uptime"]);
}

#[test]
fn finish_maps_outcomes() {
    assert_eq!(ShellRunner::finish(RunOutcome::TimedOut).unwrap_err(), ProviderError::Timeout);
    assert_eq!(
        ShellRunner::finish(RunOutcome::SpawnFailed("no such file".to_string())).unwrap_err(),
        ProviderError::ExecutionFailed("no such file".to_string())
    );
    let out = ShellRunner::finish(RunOutcome::Finished {
        stdout: "ok".to_string(),
        stderr: String::new(),
        code: None,
    })
    .unwrap();
    assert_eq!(out.exit_code, -1);
    assert_eq!(out.stdout, "ok");
    let out = ShellRunner::finish(RunOutcome::Finished {
        stdout: String::new(),
        stderr: "bad".to_string(),
        code: Some(3),
    })
    .unwrap();
    assert_eq!(out.exit_code, 3);
    assert_eq!(out.stderr, "bad");
}
