use codex_stop_notify::event::{CodexNotifyInput, HookInput};
use codex_stop_notify::flow::{
    content_ready, legacy_content_ready, plan_codex_notification, plan_legacy_notification,
    CodexPlan, Delivery, DeliveryAction, DeliveryEvent, DeliveryPhase, LegacyPlan,
};

fn run(events: &[DeliveryEvent]) -> (Delivery, Vec<DeliveryAction>) {
    let mut d = Delivery::new();
    let mut actions = Vec::new();
    for e in events {
        let (next, a) = d.step(*e);
        d = next;
        actions.push(a);
    }
    (d, actions)
}

fn codex(event_type: &str, thread: Option<&str>) -> CodexNotifyInput {
    CodexNotifyInput {
        event_type: event_type.to_string(),
        thread_id: thread.map(|s| s.to_string()),
        turn_id: None,
        cwd: None,
        input_messages: vec!["  问题  ".to_string()],
        last_assistant_message: Some("答复".to_string()),
    }
}

#[test]
fn keyless_notification_is_sent_without_store() {
    let (d, a) = run(&[
        DeliveryEvent::ContentReady { has_turns: true, has_key: false },
        DeliveryEvent::EmailSent,
    ]);
    assert_eq!(a, vec![DeliveryAction::SendEmail, DeliveryAction::Finish]);
    assert_eq!(d.phase, DeliveryPhase::Finished);
}

#[test]
fn keyed_notification_is_checked_sent_and_recorded() {
    let (d, a) = run(&[
        DeliveryEvent::ContentReady { has_turns: true, has_key: true },
        DeliveryEvent::DuplicateChecked { duplicate: false },
        DeliveryEvent::EmailSent,
        DeliveryEvent::SentRecorded,
    ]);
    assert_eq!(
        a,
        vec![
            DeliveryAction::CheckDuplicate,
            DeliveryAction::SendEmail,
            DeliveryAction::RecordSent,
            DeliveryAction::Finish
        ]
    );
    assert_eq!(d.phase, DeliveryPhase::Finished);
}

#[test]
fn duplicate_is_skipped() {
    let (_, a) = run(&[
        DeliveryEvent::ContentReady { has_turns: true, has_key: true },
        DeliveryEvent::DuplicateChecked { duplicate: true },
        DeliveryEvent::EmailSent,
    ]);
    assert_eq!(a, vec![DeliveryAction::CheckDuplicate, DeliveryAction::Skip, DeliveryAction::Ignore]);
}

#[test]
fn nothing_to_show_is_skipped() {
    let (_, a) = run(&[DeliveryEvent::ContentReady { has_turns: false, has_key: true }]);
    assert_eq!(a, vec![DeliveryAction::Skip]);
}

#[test]
fn out_of_order_events_change_nothing() {
    let (d, a) = run(&[DeliveryEvent::EmailSent, DeliveryEvent::SentRecorded]);
    assert_eq!(a, vec![DeliveryAction::Ignore, DeliveryAction::Ignore]);
    assert_eq!(d.phase, DeliveryPhase::Start);
}

#[test]
fn at_most_one_email_however_events_repeat() {
    let (_, a) = run(&[
        DeliveryEvent::ContentReady { has_turns: true, has_key: false },
        DeliveryEvent::ContentReady { has_turns: true, has_key: false },
        DeliveryEvent::EmailSent,
        DeliveryEvent::EmailSent,
        DeliveryEvent::DuplicateChecked { duplicate: false },
    ]);
    assert_eq!(a.iter().filter(|x| **x == DeliveryAction::SendEmail).count(), 1);
    assert_eq!(a.iter().filter(|x| **x == DeliveryAction::RecordSent).count(), 0);
}

#[test]
fn codex_plan_skips_other_events() {
    assert!(matches!(plan_codex_notification(&codex("approval-requested", Some("t"))), CodexPlan::Skip));
}

#[test]
fn codex_plan_delivers_turns_and_key() {
    match plan_codex_notification(&codex("agent-turn-complete", Some(" t9 "))) {
        CodexPlan::Deliver { turns, dedup_key } => {
            assert_eq!(turns.len(), 2);
            assert_eq!(turns[0].content, "问题");
            assert_eq!(turns[1].content, "答复");
            assert_eq!(dedup_key.as_deref(), Some("codex:t9"));
            assert_eq!(
                content_ready(&turns, &dedup_key),
                DeliveryEvent::ContentReady { has_turns: true, has_key: true }
            );
        }
        CodexPlan::Skip => panic!("expected delivery"),
    }
}

#[test]
fn legacy_content_event() {
    assert_eq!(
        legacy_content_ready(3, false, &Some("s".to_string())),
        DeliveryEvent::ContentReady { has_turns: true, has_key: true }
    );
    assert_eq!(
        legacy_content_ready(3, true, &None),
        DeliveryEvent::ContentReady { has_turns: false, has_key: false }
    );
    assert_eq!(
        legacy_content_ready(0, false, &None),
        DeliveryEvent::ContentReady { has_turns: false, has_key: false }
    );
}

fn hook(event: &str, active: Option<bool>, path: Option<&str>) -> HookInput {
    HookInput {
        timestamp: Some("2026-04-03T10:00:00.000Z".to_string()),
        cwd: None,
        session_id: Some("session-0001".to_string()),
        hook_event_name: event.to_string(),
        transcript_path: path.map(|s| s.to_string()),
        stop_hook_active: active,
    }
}

#[test]
fn legacy_plan_cases() {
    assert!(matches!(plan_legacy_notification(&hook("SubagentStop", None, Some("/t"))), Ok(LegacyPlan::Skip)));
    assert!(matches!(plan_legacy_notification(&hook("Stop", Some(true), None)), Ok(LegacyPlan::Skip)));
    assert_eq!(
        plan_legacy_notification(&hook("Stop", None, None)).unwrap_err(),
        "Stop 事件缺少 transcript_path"
    );
    match plan_legacy_notification(&hook("Stop", Some(false), Some("/tmp/t.json"))) {
        Ok(LegacyPlan::Deliver { transcript_path, context }) => {
            assert_eq!(transcript_path, "/tmp/t.json");
            assert_eq!(context.subject, "[兼容会话回顾] 2026-04-03 (session-)");
            assert_eq!(context.identifier.as_deref(), Some("session-0001"));
            assert_eq!(context.timestamp, "2026-04-03T10:00:00.000Z");
        }
        other => panic!("unexpected {:?}", other),
    }
}
