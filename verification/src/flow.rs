//! The order in which a notification's side effects happen. The driver
//! (reading input, the deduplication store, the mail server) reports what
//! happened as a [`DeliveryEvent`]; [`Delivery::step`] answers with the next
//! [`DeliveryAction`]. A notification with nothing to show is skipped; one
//! with a deduplication key is sent only when the store has no record of it,
//! and recorded once it has been sent.

use vstd::prelude::*;
use crate::event::{
    build_codex_dedup_key, build_codex_turns, codex_dedup_key, codex_turns, is_active_stop,
    missing_transcript_text, opt_chars, should_process, should_process_codex, strings_chars,
    turns_view, CodexNotifyInput, HookInput, NotificationKind, Turn,
};
use crate::subject::{legacy_email_context, legacy_subject, EmailContext};

verus! {

/// How far a notification has got.
#[derive(Debug, Clone, Copy, PartialEq, Eq, Structural)]
pub enum DeliveryPhase {
    Start,
    AwaitingDuplicateCheck,
    AwaitingSend,
    AwaitingRecord,
    Finished,
}

/// What the driver reports.
#[derive(Debug, Clone, Copy, PartialEq, Eq, Structural)]
pub enum DeliveryEvent {
    /// The turns to show are known: whether there is any, and whether the
    /// notification has a deduplication key.
    ContentReady { has_turns: bool, has_key: bool },
    /// The store answered whether the key was already notified with the same
    /// number of turns and the same content.
    DuplicateChecked { duplicate: bool },
    /// The e-mail went out.
    EmailSent,
    /// The store recorded the key as notified.
    SentRecorded,
}

/// What the driver does next.
#[derive(Debug, Clone, Copy, PartialEq, Eq, Structural)]
pub enum DeliveryAction {
    /// Send nothing: there is nothing to show, or it was sent before.
    Skip,
    /// Ask the store whether the key was already notified.
    CheckDuplicate,
    /// Render and send the e-mail.
    SendEmail,
    /// Record the key as notified.
    RecordSent,
    /// The notification is complete.
    Finish,
    /// The event is not one the current phase waits for; nothing changes.
    Ignore,
}

/// The state of one notification.
#[derive(Debug, Clone, Copy, PartialEq, Eq, Structural)]
pub struct Delivery {
    pub phase: DeliveryPhase,
    pub has_key: bool,
}

/// The transition table: the next state and the action for `event` in `d`.
pub open spec fn delivery_step(d: Delivery, event: DeliveryEvent) -> (Delivery, DeliveryAction) {
    match (d.phase, event) {
        (DeliveryPhase::Start, DeliveryEvent::ContentReady { has_turns, has_key }) => {
            if !has_turns {
                (Delivery { phase: DeliveryPhase::Finished, has_key }, DeliveryAction::Skip)
            } else if has_key {
                (
                    Delivery { phase: DeliveryPhase::AwaitingDuplicateCheck, has_key },
                    DeliveryAction::CheckDuplicate,
                )
            } else {
                (
                    Delivery { phase: DeliveryPhase::AwaitingSend, has_key },
                    DeliveryAction::SendEmail,
                )
            }
        },
        (DeliveryPhase::AwaitingDuplicateCheck, DeliveryEvent::DuplicateChecked { duplicate }) => {
            if duplicate {
                (
                    Delivery { phase: DeliveryPhase::Finished, has_key: d.has_key },
                    DeliveryAction::Skip,
                )
            } else {
                (
                    Delivery { phase: DeliveryPhase::AwaitingSend, has_key: d.has_key },
                    DeliveryAction::SendEmail,
                )
            }
        },
        (DeliveryPhase::AwaitingSend, DeliveryEvent::EmailSent) => {
            if d.has_key {
                (
                    Delivery { phase: DeliveryPhase::AwaitingRecord, has_key: d.has_key },
                    DeliveryAction::RecordSent,
                )
            } else {
                (
                    Delivery { phase: DeliveryPhase::Finished, has_key: d.has_key },
                    DeliveryAction::Finish,
                )
            }
        },
        (DeliveryPhase::AwaitingRecord, DeliveryEvent::SentRecorded) => {
            (Delivery { phase: DeliveryPhase::Finished, has_key: d.has_key }, DeliveryAction::Finish)
        },
        _ => (d, DeliveryAction::Ignore),
    }
}

impl Delivery {
    /// A notification before anything is known of it.
    pub fn new() -> (d: Delivery)
        ensures
            d == initial_delivery(),
    {
        Delivery { phase: DeliveryPhase::Start, has_key: false }
    }

    /// Takes `event` into account and says what to do next.
    pub fn step(&self, event: DeliveryEvent) -> (r: (Delivery, DeliveryAction))
        ensures
            r == delivery_step(*self, event),
    {
        match (self.phase, event) {
            (DeliveryPhase::Start, DeliveryEvent::ContentReady { has_turns, has_key }) => {
                if !has_turns {
                    (Delivery { phase: DeliveryPhase::Finished, has_key }, DeliveryAction::Skip)
                } else if has_key {
                    (
                        Delivery { phase: DeliveryPhase::AwaitingDuplicateCheck, has_key },
                        DeliveryAction::CheckDuplicate,
                    )
                } else {
                    (
                        Delivery { phase: DeliveryPhase::AwaitingSend, has_key },
                        DeliveryAction::SendEmail,
                    )
                }
            },
            (
                DeliveryPhase::AwaitingDuplicateCheck,
                DeliveryEvent::DuplicateChecked { duplicate },
            ) => {
                if duplicate {
                    (
                        Delivery { phase: DeliveryPhase::Finished, has_key: self.has_key },
                        DeliveryAction::Skip,
                    )
                } else {
                    (
                        Delivery { phase: DeliveryPhase::AwaitingSend, has_key: self.has_key },
                        DeliveryAction::SendEmail,
                    )
                }
            },
            (DeliveryPhase::AwaitingSend, DeliveryEvent::EmailSent) => {
                if self.has_key {
                    (
                        Delivery { phase: DeliveryPhase::AwaitingRecord, has_key: self.has_key },
                        DeliveryAction::RecordSent,
                    )
                } else {
                    (
                        Delivery { phase: DeliveryPhase::Finished, has_key: self.has_key },
                        DeliveryAction::Finish,
                    )
                }
            },
            (DeliveryPhase::AwaitingRecord, DeliveryEvent::SentRecorded) => {
                (
                    Delivery { phase: DeliveryPhase::Finished, has_key: self.has_key },
                    DeliveryAction::Finish,
                )
            },
            _ => (*self, DeliveryAction::Ignore),
        }
    }
}

/// What is done with a Codex event before any side effect.
#[derive(Debug)]
pub enum CodexPlan {
    /// The event is not the end of an agent turn.
    Skip,
    /// Notify these turns, deduplicated under this key where there is one.
    Deliver { turns: Vec<Turn>, dedup_key: Option<String> },
}

/// Decides, for a Codex event, whether to notify and with which turns and
/// deduplication key.
pub fn plan_codex_notification(input: &CodexNotifyInput) -> (r: CodexPlan)
    ensures
        r is Skip <==> input.event_type@ != "agent-turn-complete"@,
        r matches CodexPlan::Deliver { turns, dedup_key } ==> {
            &&& turns_view(turns@) == codex_turns(
                strings_chars(input.input_messages@),
                opt_chars(input.last_assistant_message),
            )
            &&& opt_chars(dedup_key) == codex_dedup_key(
                opt_chars(input.thread_id),
                opt_chars(input.turn_id),
            )
        },
{
    if !should_process_codex(input) {
        return CodexPlan::Skip;
    }
    let turns = build_codex_turns(input);
    let dedup_key = build_codex_dedup_key(input);
    CodexPlan::Deliver { turns, dedup_key }
}

/// What is done with a legacy hook record before its transcript is read.
#[derive(Debug)]
pub enum LegacyPlan {
    /// The record is not an active `Stop` event.
    Skip,
    /// Read the transcript at this path and notify with this e-mail context.
    Deliver { transcript_path: String, context: EmailContext },
}

/// Decides, for a legacy hook record, whether to notify, from which
/// transcript and with which e-mail context; a `Stop` event without a
/// transcript path is an error.
pub fn plan_legacy_notification(input: &HookInput) -> (r: Result<LegacyPlan, String>)
    ensures
        match r {
            Err(e) => is_active_stop(*input) && input.transcript_path is None && e@
                == missing_transcript_text(),
            Ok(LegacyPlan::Skip) => !is_active_stop(*input) && (input.hook_event_name@ != "Stop"@
                || input.stop_hook_active == Some(true)),
            Ok(LegacyPlan::Deliver { transcript_path, context }) => {
                &&& is_active_stop(*input)
                &&& input.hook_event_name@ == "Stop"@
                &&& opt_chars(input.transcript_path) == Some(transcript_path@)
                &&& context.kind == NotificationKind::LegacyHook
                &&& opt_chars(context.identifier) == opt_chars(input.session_id)
                &&& context.timestamp@ == (match opt_chars(input.timestamp) {
                    Some(t) => t,
                    None => "未知时间"@,
                })
                &&& opt_chars(context.cwd) == opt_chars(input.cwd)
                &&& context.subject@ == legacy_subject(
                    opt_chars(input.timestamp),
                    opt_chars(input.session_id),
                )
            },
        },
{
    match should_process(input) {
        Err(e) => Err(e),
        Ok(false) => Ok(LegacyPlan::Skip),
        Ok(true) => match &input.transcript_path {
            Some(p) => Ok(
                LegacyPlan::Deliver {
                    transcript_path: p.clone(),
                    context: legacy_email_context(input),
                },
            ),
            None => Err(String::from_str("Stop 事件缺少 transcript_path")),
        },
    }
}

/// The event that reports the turns to show and the deduplication key.
pub fn content_ready(turns: &Vec<Turn>, dedup_key: &Option<String>) -> (e: DeliveryEvent)
    ensures
        e == (DeliveryEvent::ContentReady { has_turns: turns@.len() > 0, has_key: dedup_key is Some }),
{
    DeliveryEvent::ContentReady { has_turns: turns.len() > 0, has_key: dedup_key.is_some() }
}

/// The event that reports the content of a legacy hook notification: the
/// transcript's turns count only where there is at least one and they do not
/// end a sub-agent's iteration; the session id is the deduplication key.
pub fn legacy_content_ready(
    turn_count: usize,
    subagent_iteration: bool,
    session_id: &Option<String>,
) -> (e: DeliveryEvent)
    ensures
        e == (DeliveryEvent::ContentReady {
            has_turns: turn_count > 0 && !subagent_iteration,
            has_key: session_id is Some,
        }),
{
    DeliveryEvent::ContentReady {
        has_turns: turn_count > 0 && !subagent_iteration,
        has_key: session_id.is_some(),
    }
}

/// The actions answered to `events`, one by one, starting from `d`.
pub open spec fn run_actions(d: Delivery, events: Seq<DeliveryEvent>) -> Seq<DeliveryAction>
    decreases events.len(),
{
    if events.len() == 0 {
        seq![]
    } else {
        let (next, action) = delivery_step(d, events[0]);
        seq![action] + run_actions(next, events.drop_first())
    }
}

/// How often `a` occurs in `actions`.
pub open spec fn count_action(actions: Seq<DeliveryAction>, a: DeliveryAction) -> nat
    decreases actions.len(),
{
    if actions.len() == 0 {
        0
    } else {
        (if actions[0] == a {
            1nat
        } else {
            0nat
        }) + count_action(actions.drop_first(), a)
    }
}

/// The state every notification starts from.
pub open spec fn initial_delivery() -> Delivery {
    Delivery { phase: DeliveryPhase::Start, has_key: false }
}

spec fn phase_rank(p: DeliveryPhase) -> nat {
    match p {
        DeliveryPhase::Start => 0,
        DeliveryPhase::AwaitingDuplicateCheck => 1,
        DeliveryPhase::AwaitingSend => 2,
        DeliveryPhase::AwaitingRecord => 3,
        DeliveryPhase::Finished => 4,
    }
}

proof fn lemma_run_unfold(d: Delivery, events: Seq<DeliveryEvent>)
    requires
        events.len() > 0,
    ensures
        ({
            let (next, action) = delivery_step(d, events[0]);
            let rest = run_actions(next, events.drop_first());
            &&& forall|a: DeliveryAction|
                #![trigger count_action(run_actions(d, events), a)]
                count_action(run_actions(d, events), a) == (if action == a {
                    1nat
                } else {
                    0nat
                }) + count_action(rest, a)
        }),
{
    let (next, action) = delivery_step(d, events[0]);
    let rest = run_actions(next, events.drop_first());
    let all = run_actions(d, events);
    assert(all == seq![action] + rest);
    assert(all.drop_first() =~= rest);
}

proof fn lemma_at_most_one_send_from(d: Delivery, events: Seq<DeliveryEvent>)
    ensures
        count_action(run_actions(d, events), DeliveryAction::SendEmail) <= (if phase_rank(d.phase)
            < 2 {
            1nat
        } else {
            0nat
        }),
    decreases events.len(),
{
    if events.len() > 0 {
        lemma_run_unfold(d, events);
        let (next, action) = delivery_step(d, events[0]);
        lemma_at_most_one_send_from(next, events.drop_first());
    }
}

/// However the driver's reports come, a notification sends at most one
/// e-mail.
pub proof fn lemma_at_most_one_email(events: Seq<DeliveryEvent>)
    ensures
        count_action(run_actions(initial_delivery(), events), DeliveryAction::SendEmail) <= 1,
{
    lemma_at_most_one_send_from(initial_delivery(), events);
}

proof fn lemma_record_after_send_from(d: Delivery, events: Seq<DeliveryEvent>)
    ensures
        count_action(run_actions(d, events), DeliveryAction::RecordSent) <= count_action(
            run_actions(d, events),
            DeliveryAction::SendEmail,
        ) + (if d.phase == DeliveryPhase::AwaitingSend {
            1nat
        } else {
            0nat
        }),
    decreases events.len(),
{
    if events.len() > 0 {
        lemma_run_unfold(d, events);
        let (next, action) = delivery_step(d, events[0]);
        lemma_record_after_send_from(next, events.drop_first());
    }
}

/// A notification is recorded as sent no more often than an e-mail was sent.
pub proof fn lemma_recorded_only_when_sent(events: Seq<DeliveryEvent>)
    ensures
        count_action(run_actions(initial_delivery(), events), DeliveryAction::RecordSent)
            <= count_action(run_actions(initial_delivery(), events), DeliveryAction::SendEmail),
{
    lemma_record_after_send_from(initial_delivery(), events);
}

proof fn lemma_keyless_from(d: Delivery, events: Seq<DeliveryEvent>)
    requires
        d.phase != DeliveryPhase::Start,
        !d.has_key,
    ensures
        count_action(run_actions(d, events), DeliveryAction::CheckDuplicate) == 0,
        count_action(run_actions(d, events), DeliveryAction::RecordSent) == 0,
    decreases events.len(),
{
    if events.len() > 0 {
        lemma_run_unfold(d, events);
        let (next, action) = delivery_step(d, events[0]);
        lemma_keyless_from(next, events.drop_first());
    }
}

/// A notification whose content arrives without a deduplication key never
/// consults nor writes the deduplication store.
pub proof fn lemma_keyless_never_touches_store(has_turns: bool, events: Seq<DeliveryEvent>)
    ensures
        ({
            let all = seq![DeliveryEvent::ContentReady { has_turns, has_key: false }] + events;
            &&& count_action(run_actions(initial_delivery(), all), DeliveryAction::CheckDuplicate)
                == 0
            &&& count_action(run_actions(initial_delivery(), all), DeliveryAction::RecordSent)
                == 0
        }),
{
    let all = seq![DeliveryEvent::ContentReady { has_turns, has_key: false }] + events;
    lemma_run_unfold(initial_delivery(), all);
    assert(all.drop_first() =~= events);
    let (next, action) = delivery_step(initial_delivery(), all[0]);
    lemma_keyless_from(next, events);
}

/// An e-mail is asked for only when there is something to show and either
/// there is no deduplication key or the store found no earlier notification.
pub proof fn lemma_send_needs_clearance(d: Delivery, event: DeliveryEvent)
    ensures
        delivery_step(d, event).1 == DeliveryAction::SendEmail ==> {
            ||| d.phase == DeliveryPhase::Start && event == (DeliveryEvent::ContentReady {
                has_turns: true,
                has_key: false,
            })
            ||| d.phase == DeliveryPhase::AwaitingDuplicateCheck && event
                == (DeliveryEvent::DuplicateChecked { duplicate: false })
        },
{
}

/// One entry of a deduplication store: a key, a number of turns and a
/// content fingerprint.
pub type StoreEntry = (Seq<char>, nat, Seq<char>);

/// One notification driven honestly against a deduplication store holding
/// `store`: the check is answered with whether the entry of `key`,
/// `turn_count` and `fingerprint` is stored, and that entry is added once
/// the e-mail went out. The store afterwards, and whether an e-mail went out.
pub open spec fn drive_with_store(
    store: Set<StoreEntry>,
    key: Option<Seq<char>>,
    turn_count: nat,
    fingerprint: Seq<char>,
    has_turns: bool,
) -> (Set<StoreEntry>, bool) {
    let k = match key {
        Some(k) => k,
        None => Seq::<char>::empty(),
    };
    let entry = (k, turn_count, fingerprint);
    let (d1, a1) = delivery_step(
        initial_delivery(),
        DeliveryEvent::ContentReady { has_turns, has_key: key is Some },
    );
    let (d2, a2) = if a1 == DeliveryAction::CheckDuplicate {
        delivery_step(d1, DeliveryEvent::DuplicateChecked { duplicate: store.contains(entry) })
    } else {
        (d1, a1)
    };
    if a2 == DeliveryAction::SendEmail {
        let (d3, a3) = delivery_step(d2, DeliveryEvent::EmailSent);
        (
            if a3 == DeliveryAction::RecordSent {
                store.insert(entry)
            } else {
                store
            },
            true,
        )
    } else {
        (store, false)
    }
}

/// A notification with a deduplication key that was sent and recorded is
/// not sent again while its key, number of turns and content fingerprint
/// stay the same.
pub proof fn lemma_repeat_is_not_resent(
    store: Set<StoreEntry>,
    key: Seq<char>,
    turn_count: nat,
    fingerprint: Seq<char>,
    has_turns_again: bool,
)
    requires
        drive_with_store(store, Some(key), turn_count, fingerprint, true).1,
    ensures
        !drive_with_store(
            drive_with_store(store, Some(key), turn_count, fingerprint, true).0,
            Some(key),
            turn_count,
            fingerprint,
            has_turns_again,
        ).1,
{
    let after = drive_with_store(store, Some(key), turn_count, fingerprint, true).0;
    assert(after.contains((key, turn_count, fingerprint)));
}

/// A Codex event that was notified is not notified again when the same
/// event arrives with the same number of turns and content fingerprint.
pub proof fn lemma_codex_repeat_not_resent(
    store: Set<StoreEntry>,
    thread: Option<Seq<char>>,
    turn: Option<Seq<char>>,
    turn_count: nat,
    fingerprint: Seq<char>,
)
    requires
        codex_dedup_key(thread, turn) is Some,
        drive_with_store(store, codex_dedup_key(thread, turn), turn_count, fingerprint, true).1,
    ensures
        !drive_with_store(
            drive_with_store(
                store,
                codex_dedup_key(thread, turn),
                turn_count,
                fingerprint,
                true,
            ).0,
            codex_dedup_key(thread, turn),
            turn_count,
            fingerprint,
            true,
        ).1,
{
    lemma_repeat_is_not_resent(
        store,
        codex_dedup_key(thread, turn)->0,
        turn_count,
        fingerprint,
        true,
    );
}

/// A legacy session that was notified is not notified again while its
/// number of turns and content fingerprint stay the same.
pub proof fn lemma_legacy_repeat_not_resent(
    store: Set<StoreEntry>,
    session_id: Seq<char>,
    turn_count: nat,
    fingerprint: Seq<char>,
)
    requires
        drive_with_store(store, Some(session_id), turn_count, fingerprint, true).1,
    ensures
        !drive_with_store(
            drive_with_store(store, Some(session_id), turn_count, fingerprint, true).0,
            Some(session_id),
            turn_count,
            fingerprint,
            true,
        ).1,
{
    lemma_repeat_is_not_resent(store, session_id, turn_count, fingerprint, true);
}

/// A changed number of turns or content fingerprint is notified again.
pub proof fn lemma_changed_content_is_sent(
    store: Set<StoreEntry>,
    key: Seq<char>,
    turn_count: nat,
    fingerprint: Seq<char>,
)
    requires
        !store.contains((key, turn_count, fingerprint)),
    ensures
        drive_with_store(store, Some(key), turn_count, fingerprint, true).1,
{
}

} // verus!
