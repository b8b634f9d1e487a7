use codex_stop_notify::event::{CodexNotifyInput, HookInput, NotificationKind};
use codex_stop_notify::subject::{
    build_codex_subject, build_legacy_subject, codex_email_context, legacy_email_context,
    notification_source_name,
};

fn hook(timestamp: Option<&str>, session: Option<&str>) -> HookInput {
    HookInput {
        timestamp: timestamp.map(|s| s.to_string()),
        cwd: None,
        session_id: session.map(|s| s.to_string()),
        hook_event_name: "Stop".to_string(),
        transcript_path: Some("/t".to_string()),
        stop_hook_active: None,
    }
}

fn codex(thread: Option<&str>, turn: Option<&str>) -> CodexNotifyInput {
    CodexNotifyInput {
        event_type: "agent-turn-complete".to_string(),
        thread_id: thread.map(|s| s.to_string()),
        turn_id: turn.map(|s| s.to_string()),
        cwd: None,
        input_messages: Vec::new(),
        last_assistant_message: None,
    }
}

#[test]
fn legacy_subject_with_all_parts() {
    let s = build_legacy_subject(&hook(Some("2026-04-03T10:00:00.000Z"), Some("test-session-123")));
    assert_eq!(s, "[兼容会话回顾] 2026-04-03 (test-ses)");
}

#[test]
fn legacy_subject_without_parts() {
    assert_eq!(build_legacy_subject(&hook(None, None)), "[兼容会话回顾] 未知时间 (未知)");
    assert_eq!(build_legacy_subject(&hook(Some(""), Some("ab"))), "[兼容会话回顾]  (ab)");
}

#[test]
fn codex_subject_with_thread_and_turn() {
    let s = build_codex_subject(&codex(Some("thread-123456"), Some("turn-456789")), "2026-04-03T18:00:00+08:00");
    assert_eq!(s, "[Codex 任务通知] 2026-04-03 (thread-1/turn-456)");
}

#[test]
fn codex_subject_without_identifiers() {
    let s = build_codex_subject(&codex(None, None), "2026-04-03T18:00:00+08:00");
    assert_eq!(s, "[Codex 任务通知] 2026-04-03 (未知线程)");
    let s = build_codex_subject(&codex(None, Some("t")), "no-time");
    assert_eq!(s, "[Codex 任务通知] no-time (未知线程/t)");
}

#[test]
fn source_names() {
    assert_eq!(notification_source_name(NotificationKind::Codex), "Codex");
    assert_eq!(notification_source_name(NotificationKind::LegacyHook), "兼容 Hook 模式");
}

#[test]
fn codex_context_fields() {
    let mut input = codex(Some("thread-abcdefgh"), Some("turn-1"));
    input.cwd = Some("D:/workspace".to_string());
    let c = codex_email_context(&input, "2026-04-03T18:00:00+08:00");
    assert_eq!(c.kind, NotificationKind::Codex);
    assert_eq!(c.identifier.as_deref(), Some("thread-abcdefgh"));
    assert_eq!(c.timestamp, "2026-04-03T18:00:00+08:00");
    assert_eq!(c.cwd.as_deref(), Some("D:/workspace"));
    assert_eq!(c.subject, "[Codex 任务通知] 2026-04-03 (thread-a/turn-1)");
}

#[test]
fn codex_context_falls_back_to_turn_id() {
    let c = codex_email_context(&codex(None, Some("turn-9")), "t");
    assert_eq!(c.identifier.as_deref(), Some("turn-9"));
    assert_eq!(c.cwd, None);
    let c = codex_email_context(&codex(None, None), "t");
    assert_eq!(c.identifier, None);
}

#[test]
fn legacy_context_fields() {
    let mut input = hook(Some("2026-04-03T10:00:00.000Z"), Some("test-session-123"));
    input.cwd = Some("/workspace".to_string());
    let c = legacy_email_context(&input);
    assert_eq!(c.kind, NotificationKind::LegacyHook);
    assert_eq!(c.identifier.as_deref(), Some("test-session-123"));
    assert_eq!(c.timestamp, "2026-04-03T10:00:00.000Z");
    assert_eq!(c.cwd.as_deref(), Some("/workspace"));
    assert_eq!(c.subject, "[兼容会话回顾] 2026-04-03 (test-ses)");
    let c = legacy_email_context(&hook(None, None));
    assert_eq!(c.timestamp, "未知时间");
    assert_eq!(c.identifier, None);
}
