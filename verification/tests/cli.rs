use codex_stop_notify::cli::{notification_kind, parse_cli_args, CliArgs};
use codex_stop_notify::event::NotificationKind;

fn args(v: &[&str]) -> Vec<String> {
    v.iter().map(|s| s.to_string()).collect()
}

fn parsed(v: &[&str]) -> (Option<String>, Option<String>) {
    let c = parse_cli_args(&args(v)).unwrap();
    (c.env_file, c.notify_payload)
}

#[test]
fn empty_command_line() {
    assert_eq!(parsed(&[]), (None, None));
}

#[test]
fn env_file_and_bare_payload() {
    assert_eq!(
        parsed(&["--env-file", "/home/u/.codex/notify/x.env", "{\"type\":\"agent-turn-complete\"}"]),
        (
            Some("/home/u/.codex/notify/x.env".to_string()),
            Some("{\"type\":\"agent-turn-complete\"}".to_string())
        )
    );
}

#[test]
fn bare_payload_may_start_with_white_space_and_is_kept_as_given() {
    assert_eq!(parsed(&["  \n{}"]), (None, Some("  \n{}".to_string())));
}

#[test]
fn first_bare_payload_wins() {
    assert_eq!(parsed(&["{\"a\":1}", "{\"b\":2}"]), (None, Some("{\"a\":1}".to_string())));
}

#[test]
fn explicit_payload_overrides_bare_one() {
    assert_eq!(
        parsed(&["{\"a\":1}", "--notify-payload", "{\"b\":2}"]),
        (None, Some("{\"b\":2}".to_string()))
    );
}

#[test]
fn explicit_payload_takes_any_next_argument() {
    assert_eq!(parsed(&["--notify-payload", "--env-file"]), (None, Some("--env-file".to_string())));
}

#[test]
fn later_env_file_wins_and_unknown_arguments_are_ignored() {
    assert_eq!(
        parsed(&["--verbose", "--env-file", "a", "x", "--env-file", "b"]),
        (Some("b".to_string()), None)
    );
}

#[test]
fn missing_env_file_path() {
    assert_eq!(
        parse_cli_args(&args(&["{}", "--env-file"])).unwrap_err(),
        "--env-file 缺少路径参数"
    );
}

#[test]
fn missing_notify_payload() {
    assert_eq!(
        parse_cli_args(&args(&["--notify-payload"])).unwrap_err(),
        "--notify-payload 缺少 JSON 参数"
    );
}

#[test]
fn kind_follows_payload() {
    let with = CliArgs { env_file: None, notify_payload: Some("{}".to_string()) };
    let without = CliArgs { env_file: Some("e".to_string()), notify_payload: None };
    assert_eq!(notification_kind(&with), NotificationKind::Codex);
    assert_eq!(notification_kind(&without), NotificationKind::LegacyHook);
}
