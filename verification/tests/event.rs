use codex_stop_notify::event::{
    build_codex_dedup_key, build_codex_turns, check_hook_input_size, should_process,
    should_process_codex, CodexNotifyInput, HookInput, MAX_STDIN_SIZE,
};

fn make_input(event: &str, stop_active: Option<bool>, transcript: Option<&str>) -> HookInput {
    HookInput {
        timestamp: Some("2026-04-03T10:00:00.000Z".to_string()),
        cwd: Some("/workspace".to_string()),
        session_id: Some("test-session-123".to_string()),
        hook_event_name: event.to_string(),
        transcript_path: transcript.map(|s| s.to_string()),
        stop_hook_active: stop_active,
    }
}

fn codex_input(
    thread_id: Option<&str>,
    turn_id: Option<&str>,
    messages: &[&str],
    last: Option<&str>,
) -> CodexNotifyInput {
    CodexNotifyInput {
        event_type: "agent-turn-complete".to_string(),
        thread_id: thread_id.map(|s| s.to_string()),
        turn_id: turn_id.map(|s| s.to_string()),
        cwd: None,
        input_messages: messages.iter().map(|s| s.to_string()).collect(),
        last_assistant_message: last.map(|s| s.to_string()),
    }
}

#[test]
fn test_should_process_stop_event() {
    let input = make_input("Stop", None, Some("/path/to/transcript.json"));
    assert!(should_process(&input).unwrap());
}

#[test]
fn test_should_skip_subagent_stop() {
    let input = make_input("SubagentStop", None, Some("/path/to/transcript.json"));
    assert!(!should_process(&input).unwrap());
}

#[test]
fn test_should_skip_other_events() {
    for event in &["SessionStart", "PreToolUse", "PostToolUse", "UserPromptSubmit"] {
        let input = make_input(event, None, Some("/path"));
        assert!(!should_process(&input).unwrap());
    }
}

#[test]
fn test_should_skip_when_stop_hook_active() {
    let input = make_input("Stop", Some(true), Some("/path/to/transcript.json"));
    assert!(!should_process(&input).unwrap());
}

#[test]
fn test_should_error_without_transcript_path() {
    let input = make_input("Stop", None, None);
    assert!(should_process(&input).is_err());
}

#[test]
fn test_should_process_codex_event() {
    let input = CodexNotifyInput {
        event_type: "agent-turn-complete".to_string(),
        thread_id: Some("thread-123".to_string()),
        turn_id: Some("turn-456".to_string()),
        cwd: Some("D:/workspace".to_string()),
        input_messages: vec!["请修复测试".to_string()],
        last_assistant_message: Some("已修复并完成验证。".to_string()),
    };

    assert!(should_process_codex(&input));
}

#[test]
fn test_should_skip_non_completion_codex_event() {
    let input = CodexNotifyInput {
        event_type: "approval-requested".to_string(),
        thread_id: Some("thread-123".to_string()),
        turn_id: None,
        cwd: None,
        input_messages: Vec::new(),
        last_assistant_message: None,
    };

    assert!(!should_process_codex(&input));
}

#[test]
fn test_build_codex_turns() {
    let input = CodexNotifyInput {
        event_type: "agent-turn-complete".to_string(),
        thread_id: Some("thread-123".to_string()),
        turn_id: Some("turn-456".to_string()),
        cwd: None,
        input_messages: vec!["请分析失败原因".to_string(), "再补一个最小测试".to_string()],
        last_assistant_message: Some("已经修复完成。".to_string()),
    };

    let turns = build_codex_turns(&input);
    assert_eq!(turns.len(), 3);
    assert_eq!(turns[0].role, "user");
    assert_eq!(turns[1].content, "再补一个最小测试");
    assert_eq!(turns[2].role, "assistant");
    assert_eq!(turns[2].content, "已经修复完成。");
}

#[test]
fn test_build_codex_turns_without_last_assistant_message() {
    let input = CodexNotifyInput {
        event_type: "agent-turn-complete".to_string(),
        thread_id: None,
        turn_id: None,
        cwd: None,
        input_messages: Vec::new(),
        last_assistant_message: None,
    };

    let turns = build_codex_turns(&input);
    assert_eq!(turns.len(), 1);
    assert_eq!(turns[0].role, "assistant");
    assert!(turns[0].content.contains("Codex 未附带 last-assistant-message"));
}

#[test]
fn test_build_codex_dedup_key() {
    let input = CodexNotifyInput {
        event_type: "agent-turn-complete".to_string(),
        thread_id: Some("thread-123".to_string()),
        turn_id: Some("turn-456".to_string()),
        cwd: None,
        input_messages: Vec::new(),
        last_assistant_message: None,
    };

    assert_eq!(
        build_codex_dedup_key(&input).as_deref(),
        Some("codex:thread-123:turn-456")
    );
}

#[test]
fn stop_event_with_inactive_flag_is_processed() {
    let input = make_input("Stop", Some(false), Some("/t.json"));
    assert_eq!(should_process(&input), Ok(true));
}

#[test]
fn stop_event_name_is_case_sensitive() {
    let input = make_input("stop", None, Some("/t.json"));
    assert_eq!(should_process(&input), Ok(false));
    let input = make_input(" Stop", None, Some("/t.json"));
    assert_eq!(should_process(&input), Ok(false));
}

#[test]
fn missing_transcript_error_text() {
    let input = make_input("Stop", Some(false), None);
    assert_eq!(
        should_process(&input),
        Err("Stop 事件缺少 transcript_path".to_string())
    );
}

#[test]
fn active_stop_hook_without_transcript_is_skipped_not_an_error() {
    let input = make_input("Stop", Some(true), None);
    assert_eq!(should_process(&input), Ok(false));
}

#[test]
fn codex_event_type_must_match_exactly() {
    let mut input = codex_input(None, None, &[], None);
    input.event_type = "agent-turn-complete ".to_string();
    assert!(!should_process_codex(&input));
    input.event_type = "Agent-Turn-Complete".to_string();
    assert!(!should_process_codex(&input));
}

#[test]
fn blank_messages_are_dropped_and_others_trimmed() {
    let input = codex_input(
        None,
        None,
        &["  第一条  ", "   ", "\t\n", "\u{3000}second\u{00a0}", ""],
        Some("  done \n"),
    );
    let turns = build_codex_turns(&input);
    assert_eq!(turns.len(), 3);
    assert_eq!(turns[0].role, "user");
    assert_eq!(turns[0].content, "第一条");
    assert_eq!(turns[1].role, "user");
    assert_eq!(turns[1].content, "second");
    assert_eq!(turns[2].role, "assistant");
    assert_eq!(turns[2].content, "done");
}

#[test]
fn blank_assistant_message_gives_notice() {
    let input = codex_input(None, None, &["hi"], Some(" \u{2003} "));
    let turns = build_codex_turns(&input);
    assert_eq!(turns.len(), 2);
    assert_eq!(
        turns[1].content,
        "任务已完成，Codex 未附带 last-assistant-message。"
    );
}

#[test]
fn inner_white_space_is_kept() {
    let input = codex_input(None, None, &["  a  b  "], Some("x\ty"));
    let turns = build_codex_turns(&input);
    assert_eq!(turns[0].content, "a  b");
    assert_eq!(turns[1].content, "x\ty");
}

#[test]
fn dedup_key_forms() {
    let k = |t: Option<&str>, u: Option<&str>| build_codex_dedup_key(&codex_input(t, u, &[], None));
    assert_eq!(k(Some("t1"), None).as_deref(), Some("codex:t1"));
    assert_eq!(k(None, Some("u1")).as_deref(), Some("codex-turn:u1"));
    assert_eq!(k(None, None), None);
    assert_eq!(k(Some("   "), Some("")), None);
    assert_eq!(k(Some("  "), Some("u2")).as_deref(), Some("codex-turn:u2"));
    assert_eq!(k(Some(" t3\n"), Some("\tu3 ")).as_deref(), Some("codex:t3:u3"));
}

#[test]
fn dedup_key_ignores_padding_of_identifiers() {
    let a = build_codex_dedup_key(&codex_input(Some("th"), Some("tu"), &[], None));
    let b = build_codex_dedup_key(&codex_input(Some("  th "), Some("\u{3000}tu"), &[], None));
    assert_eq!(a, b);
}

#[test]
fn dedup_keys_differ_for_different_identifiers() {
    let a = build_codex_dedup_key(&codex_input(Some("ab"), Some("c"), &[], None));
    let b = build_codex_dedup_key(&codex_input(Some("a"), Some("bc"), &[], None));
    let c = build_codex_dedup_key(&codex_input(Some("abc"), None, &[], None));
    let d = build_codex_dedup_key(&codex_input(None, Some("abc"), &[], None));
    assert_ne!(a, b);
    assert_ne!(a, c);
    assert_ne!(c, d);
}

#[test]
fn colon_in_identifiers_can_collide() {
    let a = build_codex_dedup_key(&codex_input(Some("a:b"), Some("c"), &[], None));
    let b = build_codex_dedup_key(&codex_input(Some("a"), Some("b:c"), &[], None));
    assert_eq!(a, b);
}

#[test]
fn hook_input_size_limits() {
    assert_eq!(
        check_hook_input_size(0),
        Err("stdin 为空，没有接收到 Hook 输入".to_string())
    );
    assert_eq!(check_hook_input_size(1), Ok(()));
    assert_eq!(check_hook_input_size(MAX_STDIN_SIZE - 1), Ok(()));
    assert_eq!(
        check_hook_input_size(MAX_STDIN_SIZE),
        Err("stdin 超过大小限制 (10485760 bytes)".to_string())
    );
    assert_eq!(MAX_STDIN_SIZE, 10 * 1024 * 1024);
}
