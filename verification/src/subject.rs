//! E-mail subjects and the name of the notification's source.

use vstd::prelude::*;
use crate::event::{opt_chars, CodexNotifyInput, HookInput, NotificationKind};
use crate::text::{char_prefix, first_segment, first_segment_of, safe_prefix};

verus! {

/// How many characters of an identifier a subject shows.
pub const SUBJECT_ID_CHARS: usize = 8;

/// The subject of a legacy hook notification: the date part of the event's
/// time stamp (before the first `T`) and the start of the session id.
pub open spec fn legacy_subject(timestamp: Option<Seq<char>>, session: Option<Seq<char>>) -> Seq<
    char,
> {
    let time_part = match timestamp {
        Some(t) => first_segment(t, 'T'),
        None => "未知时间"@,
    };
    let session_part = match session {
        Some(s) => char_prefix(s, SUBJECT_ID_CHARS as nat),
        None => "未知"@,
    };
    "[兼容会话回顾] "@ + time_part + " ("@ + session_part + ")"@
}

/// The subject of a Codex notification sent at `timestamp` (RFC 3339): its
/// date part and the starts of the thread and turn identifiers.
pub open spec fn codex_subject(
    timestamp: Seq<char>,
    thread: Option<Seq<char>>,
    turn: Option<Seq<char>>,
) -> Seq<char> {
    let thread_part = match thread {
        Some(t) => char_prefix(t, SUBJECT_ID_CHARS as nat),
        None => "未知线程"@,
    };
    let turn_part = match turn {
        Some(t) => "/"@ + char_prefix(t, SUBJECT_ID_CHARS as nat),
        None => Seq::<char>::empty(),
    };
    "[Codex 任务通知] "@ + first_segment(timestamp, 'T') + " ("@ + thread_part + turn_part + ")"@
}

/// `a` begins with `b`.
pub open spec fn starts_with(a: Seq<char>, b: Seq<char>) -> bool {
    b.len() <= a.len() && a.take(b.len() as int) == b
}

/// `a` ends with `b`.
pub open spec fn ends_with(a: Seq<char>, b: Seq<char>) -> bool {
    b.len() <= a.len() && a.skip(a.len() - b.len()) == b
}

/// The first eight characters of `s`, or all of it where it is shorter.
pub open spec fn first_eight(s: Seq<char>) -> Seq<char> {
    s.take(if s.len() < 8 {
        s.len() as int
    } else {
        8
    })
}

proof fn lemma_concat_ends(p: Seq<char>, q: Seq<char>)
    ensures
        starts_with(p + q, p),
        ends_with(p + q, q),
{
    assert((p + q).take(p.len() as int) =~= p);
    assert((p + q).skip((p + q).len() - q.len()) =~= q);
}

/// Each part of a legacy subject depends on its own field alone: it starts
/// with the date part of the time stamp (or `未知时间`) whatever the session
/// id, and ends with the first eight characters of the session id (or
/// `未知`) in brackets whatever the time stamp.
pub proof fn lemma_legacy_subject_parts(timestamp: Option<Seq<char>>, session: Option<Seq<char>>)
    ensures
        timestamp matches Some(t) ==> starts_with(
            legacy_subject(timestamp, session),
            "[兼容会话回顾] "@ + first_segment(t, 'T') + " ("@,
        ),
        timestamp is None ==> starts_with(
            legacy_subject(timestamp, session),
            "[兼容会话回顾] "@ + "未知时间"@ + " ("@,
        ),
        session matches Some(s) ==> ends_with(
            legacy_subject(timestamp, session),
            " ("@ + first_eight(s) + ")"@,
        ),
        session is None ==> ends_with(legacy_subject(timestamp, session), " ("@ + "未知"@ + ")"@),
{
    let time_part = match timestamp {
        Some(t) => first_segment(t, 'T'),
        None => "未知时间"@,
    };
    let session_part = match session {
        Some(s) => char_prefix(s, SUBJECT_ID_CHARS as nat),
        None => "未知"@,
    };
    let head = "[兼容会话回顾] "@ + time_part + " ("@;
    let subj = legacy_subject(timestamp, session);
    assert(subj =~= head + (session_part + ")"@));
    lemma_concat_ends(head, session_part + ")"@);
    assert(subj =~= "[兼容会话回顾] "@ + time_part + (" ("@ + session_part + ")"@));
    lemma_concat_ends("[兼容会话回顾] "@ + time_part, " ("@ + session_part + ")"@);
    if let Some(s) = session {
        assert(char_prefix(s, SUBJECT_ID_CHARS as nat) =~= first_eight(s));
    }
}

/// Each part of a Codex subject depends on its own field alone: after the
/// date part of the time stamp comes the first eight characters of the
/// thread id (or `未知线程`) whatever the turn id, and the subject ends with
/// `/`, the first eight characters of the turn id and `)` where there is a
/// turn id; without one it ends right after the thread part.
pub proof fn lemma_codex_subject_parts(
    timestamp: Seq<char>,
    thread: Option<Seq<char>>,
    turn: Option<Seq<char>>,
)
    ensures
        thread matches Some(t) ==> starts_with(
            codex_subject(timestamp, thread, turn),
            "[Codex 任务通知] "@ + first_segment(timestamp, 'T') + " ("@ + first_eight(t),
        ),
        thread is None ==> starts_with(
            codex_subject(timestamp, thread, turn),
            "[Codex 任务通知] "@ + first_segment(timestamp, 'T') + " ("@ + "未知线程"@,
        ),
        turn matches Some(u) ==> ends_with(
            codex_subject(timestamp, thread, turn),
            "/"@ + first_eight(u) + ")"@,
        ),
        turn is None ==> codex_subject(timestamp, thread, turn) == "[Codex 任务通知] "@
            + first_segment(timestamp, 'T') + " ("@ + (match thread {
            Some(t) => first_eight(t),
            None => "未知线程"@,
        }) + ")"@,
{
    let thread_part = match thread {
        Some(t) => char_prefix(t, SUBJECT_ID_CHARS as nat),
        None => "未知线程"@,
    };
    let turn_part = match turn {
        Some(t) => "/"@ + char_prefix(t, SUBJECT_ID_CHARS as nat),
        None => Seq::<char>::empty(),
    };
    if let Some(t) = thread {
        assert(char_prefix(t, SUBJECT_ID_CHARS as nat) =~= first_eight(t));
    }
    if let Some(u) = turn {
        assert(char_prefix(u, SUBJECT_ID_CHARS as nat) =~= first_eight(u));
    }
    let head = "[Codex 任务通知] "@ + first_segment(timestamp, 'T') + " ("@ + thread_part;
    let subj = codex_subject(timestamp, thread, turn);
    assert(subj =~= head + (turn_part + ")"@));
    lemma_concat_ends(head, turn_part + ")"@);
    if turn is Some {
        assert(turn_part + ")"@ =~= "/"@ + first_eight(turn->0) + ")"@);
    } else {
        assert(turn_part + ")"@ =~= ")"@);
    }
}

/// The subject of a legacy hook notification.
pub fn build_legacy_subject(input: &HookInput) -> (r: String)
    ensures
        r@ == legacy_subject(opt_chars(input.timestamp), opt_chars(input.session_id)),
{
    let mut s = String::from_str("[兼容会话回顾] ");
    match &input.timestamp {
        Some(t) => s.append(first_segment_of(t.as_str(), 'T')),
        None => s.append("未知时间"),
    }
    s.append(" (");
    match &input.session_id {
        Some(id) => {
            let p = safe_prefix(id.as_str(), SUBJECT_ID_CHARS);
            s.append(p.as_str());
        },
        None => s.append("未知"),
    }
    s.append(")");
    s
}

/// The subject of a Codex notification sent at `timestamp`.
pub fn build_codex_subject(input: &CodexNotifyInput, timestamp: &str) -> (r: String)
    ensures
        r@ == codex_subject(timestamp@, opt_chars(input.thread_id), opt_chars(input.turn_id)),
{
    let mut s = String::from_str("[Codex 任务通知] ");
    s.append(first_segment_of(timestamp, 'T'));
    s.append(" (");
    match &input.thread_id {
        Some(t) => {
            let p = safe_prefix(t.as_str(), SUBJECT_ID_CHARS);
            s.append(p.as_str());
        },
        None => s.append("未知线程"),
    }
    match &input.turn_id {
        Some(t) => {
            let p = safe_prefix(t.as_str(), SUBJECT_ID_CHARS);
            s.append("/");
            s.append(p.as_str());
        },
        None => {},
    }
    s.append(")");
    proof {
        let thread_part = match opt_chars(input.thread_id) {
            Some(t) => char_prefix(t, SUBJECT_ID_CHARS as nat),
            None => "未知线程"@,
        };
        assert(thread_part + Seq::<char>::empty() =~= thread_part);
    }
    s
}

/// What an e-mail is built with besides its turns: the source, the
/// identifier shown, the time stamp, the working directory and the subject.
#[derive(Debug)]
pub struct EmailContext {
    pub kind: NotificationKind,
    pub identifier: Option<String>,
    pub timestamp: String,
    pub cwd: Option<String>,
    pub subject: String,
}

/// The first of two optional values that is present.
pub open spec fn first_present(a: Option<Seq<char>>, b: Option<Seq<char>>) -> Option<Seq<char>> {
    match a {
        Some(x) => Some(x),
        None => b,
    }
}

fn clone_opt(o: &Option<String>) -> (r: Option<String>)
    ensures
        opt_chars(r) == opt_chars(*o),
{
    match o {
        Some(s) => Some(s.clone()),
        None => None,
    }
}

/// The e-mail context of a Codex event notified at `timestamp` (the local
/// time as RFC 3339): identified by its thread id, else its turn id.
pub fn codex_email_context(input: &CodexNotifyInput, timestamp: &str) -> (c: EmailContext)
    ensures
        c.kind == NotificationKind::Codex,
        opt_chars(c.identifier) == first_present(
            opt_chars(input.thread_id),
            opt_chars(input.turn_id),
        ),
        c.timestamp@ == timestamp@,
        opt_chars(c.cwd) == opt_chars(input.cwd),
        c.subject@ == codex_subject(
            timestamp@,
            opt_chars(input.thread_id),
            opt_chars(input.turn_id),
        ),
{
    let identifier = match &input.thread_id {
        Some(t) => Some(t.clone()),
        None => clone_opt(&input.turn_id),
    };
    EmailContext {
        kind: NotificationKind::Codex,
        identifier,
        timestamp: String::from_str(timestamp),
        cwd: clone_opt(&input.cwd),
        subject: build_codex_subject(input, timestamp),
    }
}

/// The e-mail context of a legacy hook record: identified by its session
/// id, stamped with its own time stamp or `未知时间`.
pub fn legacy_email_context(input: &HookInput) -> (c: EmailContext)
    ensures
        c.kind == NotificationKind::LegacyHook,
        opt_chars(c.identifier) == opt_chars(input.session_id),
        c.timestamp@ == (match opt_chars(input.timestamp) {
            Some(t) => t,
            None => "未知时间"@,
        }),
        opt_chars(c.cwd) == opt_chars(input.cwd),
        c.subject@ == legacy_subject(opt_chars(input.timestamp), opt_chars(input.session_id)),
{
    let timestamp = match &input.timestamp {
        Some(t) => t.clone(),
        None => String::from_str("未知时间"),
    };
    EmailContext {
        kind: NotificationKind::LegacyHook,
        identifier: clone_opt(&input.session_id),
        timestamp,
        cwd: clone_opt(&input.cwd),
        subject: build_legacy_subject(input),
    }
}

/// The name under which the source of a notification is reported.
pub open spec fn source_name(kind: NotificationKind) -> Seq<char> {
    match kind {
        NotificationKind::Codex => "Codex"@,
        NotificationKind::LegacyHook => "兼容 Hook 模式"@,
    }
}

/// The name under which the source of a notification is reported.
pub fn notification_source_name(kind: NotificationKind) -> (r: String)
    ensures
        r@ == source_name(kind),
{
    match kind {
        NotificationKind::Codex => String::from_str("Codex"),
        NotificationKind::LegacyHook => String::from_str("兼容 Hook 模式"),
    }
}

} // verus!
