//! The two kinds of incoming events (a Codex `notify` payload and a legacy
//! hook record), whether each is processed, the conversation turns shown for
//! a Codex event and the key under which a Codex event is deduplicated.

use vstd::prelude::*;
use crate::text::{
    is_white_space, lemma_trim_idempotent, lemma_trim_strips_only_outer_space, str_eq,
    strips_outer_space, trim, trim_seq,
};

verus! {

/// Upper bound, in bytes, of the hook record read from standard input.
pub const MAX_STDIN_SIZE: usize = 10 * 1024 * 1024;

/// Where a notification comes from.
#[derive(Debug, Clone, Copy, PartialEq, Eq, Structural)]
pub enum NotificationKind {
    Codex,
    LegacyHook,
}

/// A record of the legacy hook interface. The working directory is not
/// trusted and takes part in no decision.
#[derive(Debug)]
pub struct HookInput {
    pub timestamp: Option<String>,
    pub cwd: Option<String>,
    pub session_id: Option<String>,
    pub hook_event_name: String,
    pub transcript_path: Option<String>,
    pub stop_hook_active: Option<bool>,
}

/// A Codex `notify` event.
#[derive(Debug)]
pub struct CodexNotifyInput {
    pub event_type: String,
    pub thread_id: Option<String>,
    pub turn_id: Option<String>,
    pub cwd: Option<String>,
    pub input_messages: Vec<String>,
    pub last_assistant_message: Option<String>,
}

/// One turn of a conversation as shown in the e-mail.
#[derive(Debug)]
pub struct Turn {
    pub role: String,
    pub content: String,
}

/// The mathematical value of a [`Turn`].
pub struct TurnView {
    pub role: Seq<char>,
    pub content: Seq<char>,
}

impl View for Turn {
    type V = TurnView;

    open spec fn view(&self) -> TurnView {
        TurnView { role: self.role@, content: self.content@ }
    }
}

/// The characters of an optional string.
pub open spec fn opt_chars(o: Option<String>) -> Option<Seq<char>> {
    match o {
        Some(s) => Some(s@),
        None => None,
    }
}

/// The characters of each string of `v`.
pub open spec fn strings_chars(v: Seq<String>) -> Seq<Seq<char>> {
    v.map_values(|m: String| m@)
}

/// The value of each turn of `v`.
pub open spec fn turns_view(v: Seq<Turn>) -> Seq<TurnView> {
    v.map_values(|t: Turn| t@)
}

/// The error text for a legacy `Stop` record without a transcript path.
pub open spec fn missing_transcript_text() -> Seq<char> {
    "Stop 事件缺少 transcript_path"@
}

/// The error text for an empty standard input.
pub open spec fn empty_stdin_text() -> Seq<char> {
    "stdin 为空，没有接收到 Hook 输入"@
}

/// The error text for a standard input that reaches the size limit.
pub open spec fn oversized_stdin_text() -> Seq<char> {
    "stdin 超过大小限制 (10485760 bytes)"@
}

/// The reply shown when a Codex event carries no usable assistant message.
pub open spec fn missing_reply_text() -> Seq<char> {
    "任务已完成，Codex 未附带 last-assistant-message。"@
}

/// A legacy record asks for a notification: it is a `Stop` event that was
/// not itself triggered by an earlier stop hook.
pub open spec fn is_active_stop(input: HookInput) -> bool {
    &&& input.hook_event_name@ == "Stop"@
    &&& input.stop_hook_active != Some(true)
}

/// Only a `Stop` event asks for a notification, and never one raised while a
/// stop hook is active: every other event name, `SubagentStop` and
/// `SessionEnd` among them, is ignored.
pub proof fn lemma_only_stop_asks(input: HookInput)
    ensures
        is_active_stop(input) ==> input.hook_event_name@ == "Stop"@,
        is_active_stop(input) ==> input.stop_hook_active != Some(true),
        input.hook_event_name@ == "Stop"@ && input.stop_hook_active != Some(true)
            ==> is_active_stop(input),
{
}

/// Checks how many bytes were read for a hook record: none, or as many as
/// the limit allows, is an error.
pub fn check_hook_input_size(bytes_read: usize) -> (r: Result<(), String>)
    ensures
        bytes_read == 0 ==> (r matches Err(e) && e@ == empty_stdin_text()),
        0 < bytes_read < MAX_STDIN_SIZE ==> r is Ok,
        bytes_read >= MAX_STDIN_SIZE ==> (r matches Err(e) && e@ == oversized_stdin_text()),
{
    if bytes_read == 0 {
        return Err(String::from_str("stdin 为空，没有接收到 Hook 输入"));
    }
    if bytes_read >= MAX_STDIN_SIZE {
        return Err(String::from_str("stdin 超过大小限制 (10485760 bytes)"));
    }
    Ok(())
}

/// Whether a legacy hook record is processed: only a `Stop` event, and not
/// one raised while a stop hook is already active (which would loop). Such a
/// `Stop` event without a transcript path is an error.
pub fn should_process(input: &HookInput) -> (r: Result<bool, String>)
    ensures
        r is Err <==> is_active_stop(*input) && input.transcript_path is None,
        r matches Ok(b) ==> (b <==> is_active_stop(*input) && input.transcript_path is Some),
        r matches Err(e) ==> e@ == missing_transcript_text(),
        input.hook_event_name@ != "Stop"@ ==> (r matches Ok(b) && !b),
        input.stop_hook_active == Some(true) ==> (r matches Ok(b) && !b),
{
    if !str_eq(input.hook_event_name.as_str(), "Stop") {
        return Ok(false);
    }
    let active = match input.stop_hook_active {
        Some(b) => b,
        None => false,
    };
    if active {
        return Ok(false);
    }
    if input.transcript_path.is_none() {
        return Err(String::from_str("Stop 事件缺少 transcript_path"));
    }
    Ok(true)
}

/// Whether a Codex event is processed: only the end of an agent turn.
pub fn should_process_codex(input: &CodexNotifyInput) -> (r: bool)
    ensures
        r == (input.event_type@ == "agent-turn-complete"@),
{
    str_eq(input.event_type.as_str(), "agent-turn-complete")
}

/// The user turns shown for the input messages `msgs`: each message without
/// its surrounding white space, in order, leaving out those that are blank.
pub open spec fn user_turns(msgs: Seq<Seq<char>>) -> Seq<TurnView>
    decreases msgs.len(),
{
    if msgs.len() == 0 {
        seq![]
    } else {
        let earlier = user_turns(msgs.drop_last());
        let t = trim_seq(msgs.last());
        if t.len() == 0 {
            earlier
        } else {
            earlier.push(TurnView { role: "user"@, content: t })
        }
    }
}

/// The assistant reply shown: the last assistant message without its
/// surrounding white space, or a fixed notice where it is missing or blank.
pub open spec fn assistant_reply(last: Option<Seq<char>>) -> Seq<char> {
    match last {
        Some(m) => if trim_seq(m).len() > 0 {
            trim_seq(m)
        } else {
            missing_reply_text()
        },
        None => missing_reply_text(),
    }
}

/// The turns shown for a Codex event: the user turns, then one assistant turn.
pub open spec fn codex_turns(msgs: Seq<Seq<char>>, last: Option<Seq<char>>) -> Seq<TurnView> {
    user_turns(msgs).push(TurnView { role: "assistant"@, content: assistant_reply(last) })
}

/// Turns a Codex event into the conversation turns shown in the e-mail.
pub fn build_codex_turns(input: &CodexNotifyInput) -> (turns: Vec<Turn>)
    ensures
        turns_view(turns@) == codex_turns(
            strings_chars(input.input_messages@),
            opt_chars(input.last_assistant_message),
        ),
{
    let ghost msgs = strings_chars(input.input_messages@);
    let mut turns: Vec<Turn> = Vec::new();
    let n = input.input_messages.len();
    let mut i: usize = 0;
    while i < n
        invariant
            0 <= i <= n,
            n == input.input_messages@.len(),
            msgs == strings_chars(input.input_messages@),
            turns_view(turns@) == user_turns(msgs.take(i as int)),
        decreases n - i,
    {
        let trimmed = trim(input.input_messages[i].as_str());
        let ghost before = turns@;
        assert(msgs.take(i + 1).drop_last() =~= msgs.take(i as int));
        assert(msgs.take(i + 1).last() == input.input_messages@[i as int]@);
        if !trimmed.is_empty() {
            turns.push(Turn { role: String::from_str("user"), content: String::from_str(trimmed) });
            assert(turns_view(turns@) =~= turns_view(before).push(turns@.last()@));
        }
        i = i + 1;
    }
    assert(msgs.take(n as int) =~= msgs);
    let ghost users = turns@;
    let reply = match &input.last_assistant_message {
        Some(m) => {
            let t = trim(m.as_str());
            if t.is_empty() {
                String::from_str("任务已完成，Codex 未附带 last-assistant-message。")
            } else {
                String::from_str(t)
            }
        },
        None => String::from_str("任务已完成，Codex 未附带 last-assistant-message。"),
    };
    turns.push(Turn { role: String::from_str("assistant"), content: reply });
    assert(turns_view(turns@) =~= turns_view(users).push(turns@.last()@));
    turns
}

/// The user turns keep the order of the messages and leave out only blank
/// ones: each is a `user` turn whose content is non-empty and already
/// trimmed, there are no more of them than messages, and where no message is
/// blank there is exactly one per message, holding that message trimmed.
pub proof fn lemma_user_turns_shape(msgs: Seq<Seq<char>>)
    ensures
        user_turns(msgs).len() <= msgs.len(),
        forall|i: int|
            0 <= i < user_turns(msgs).len() ==> {
                &&& (#[trigger] user_turns(msgs)[i]).role == "user"@
                &&& user_turns(msgs)[i].content.len() > 0
                &&& trim_seq(user_turns(msgs)[i].content) == user_turns(msgs)[i].content
            },
        (forall|j: int| 0 <= j < msgs.len() ==> (#[trigger] trim_seq(msgs[j])).len() > 0) ==> {
            &&& user_turns(msgs).len() == msgs.len()
            &&& forall|i: int|
                0 <= i < msgs.len() ==> (#[trigger] user_turns(msgs)[i]).content == trim_seq(
                    msgs[i],
                )
        },
    decreases msgs.len(),
{
    if msgs.len() > 0 {
        let init = msgs.drop_last();
        lemma_user_turns_shape(init);
        lemma_trim_idempotent(msgs.last());
        if forall|j: int| 0 <= j < msgs.len() ==> (#[trigger] trim_seq(msgs[j])).len() > 0 {
            assert forall|j: int| 0 <= j < init.len() implies (#[trigger] trim_seq(init[j])).len()
                > 0 by {
                assert(init[j] == msgs[j]);
                assert(trim_seq(msgs[j]).len() > 0);
            }
            assert(trim_seq(msgs[msgs.len() - 1]).len() > 0);
            assert forall|i: int| 0 <= i < msgs.len() implies (#[trigger] user_turns(
                msgs,
            )[i]).content == trim_seq(msgs[i]) by {
                if i < msgs.len() - 1 {
                    assert(init[i] == msgs[i]);
                }
            }
        }
    }
}

/// The turns of a Codex event: at least one, at most one more than there are
/// messages; all but the last are non-empty, trimmed `user` turns; the last
/// is the only `assistant` turn, non-empty, and holds the trimmed last
/// assistant message where that is not blank.
pub proof fn lemma_codex_turns_shape(msgs: Seq<Seq<char>>, last: Option<Seq<char>>)
    ensures
        ({
            let ts = codex_turns(msgs, last);
            &&& 1 <= ts.len() <= msgs.len() + 1
            &&& ts.last().role == "assistant"@
            &&& ts.last().content.len() > 0
            &&& forall|i: int|
                0 <= i < ts.len() - 1 ==> {
                    &&& (#[trigger] ts[i]).role == "user"@
                    &&& ts[i].role != "assistant"@
                    &&& ts[i].content.len() > 0
                    &&& trim_seq(ts[i].content) == ts[i].content
                }
            &&& last matches Some(m) ==> (trim_seq(m).len() > 0 ==> ts.last().content == trim_seq(m))
        }),
{
    reveal_strlit("user");
    reveal_strlit("assistant");
    reveal_strlit("任务已完成，Codex 未附带 last-assistant-message。");
    lemma_user_turns_shape(msgs);
    let ts = codex_turns(msgs, last);
    let us = user_turns(msgs);
    assert forall|i: int| 0 <= i < ts.len() - 1 implies {
        &&& (#[trigger] ts[i]).role == "user"@
        &&& ts[i].role != "assistant"@
        &&& ts[i].content.len() > 0
        &&& trim_seq(ts[i].content) == ts[i].content
    } by {
        assert(ts[i] == us[i]);
        assert(us[i].role == "user"@);
        assert(us[i].role[0] != "assistant"@[0]);
    }
}

/// A text holding a character other than white space.
pub open spec fn has_content(m: Seq<char>) -> bool {
    exists|k: int| 0 <= k < m.len() && !is_white_space(#[trigger] m[k])
}

proof fn lemma_content_survives_trim(m: Seq<char>)
    ensures
        has_content(m) <==> trim_seq(m).len() > 0,
{
    lemma_trim_strips_only_outer_space(m);
    if trim_seq(m).len() > 0 {
        let (a, b) = choose|a: int, b: int|
            #![trigger m.subrange(a, b)]
            {
                &&& 0 <= a <= b <= m.len()
                &&& trim_seq(m) == m.subrange(a, b)
                &&& forall|k: int| 0 <= k < a ==> is_white_space(#[trigger] m[k])
                &&& forall|k: int| b <= k < m.len() ==> is_white_space(#[trigger] m[k])
                &&& a < b ==> !is_white_space(m[a]) && !is_white_space(m[b - 1])
            };
        assert(!is_white_space(m[a]));
    }
    if has_content(m) && trim_seq(m).len() == 0 {
        let k = choose|k: int| 0 <= k < m.len() && !is_white_space(#[trigger] m[k]);
        let (a, b) = choose|a: int, b: int|
            #![trigger m.subrange(a, b)]
            {
                &&& 0 <= a <= b <= m.len()
                &&& trim_seq(m) == m.subrange(a, b)
                &&& forall|k: int| 0 <= k < a ==> is_white_space(#[trigger] m[k])
                &&& forall|k: int| b <= k < m.len() ==> is_white_space(#[trigger] m[k])
                &&& a < b ==> !is_white_space(m[a]) && !is_white_space(m[b - 1])
            };
        assert(m.subrange(a, b).len() == 0);
        if k < a {
        } else {
            assert(b <= k);
        }
    }
}

/// How many of `msgs` hold content.
pub open spec fn count_with_content(msgs: Seq<Seq<char>>) -> nat
    decreases msgs.len(),
{
    if msgs.len() == 0 {
        0
    } else {
        count_with_content(msgs.drop_last()) + if has_content(msgs.last()) {
            1nat
        } else {
            0nat
        }
    }
}

/// Blank messages are dropped and no other: there is one turn per message
/// with content, plus the assistant's.
pub proof fn lemma_one_turn_per_message_with_content(
    msgs: Seq<Seq<char>>,
    last: Option<Seq<char>>,
)
    ensures
        codex_turns(msgs, last).len() == count_with_content(msgs) + 1,
    decreases msgs.len(),
{
    if msgs.len() > 0 {
        lemma_one_turn_per_message_with_content(msgs.drop_last(), last);
        lemma_content_survives_trim(msgs.last());
    }
}

/// Each message with content gives one `user` turn, in order, holding the
/// whole message with only the white space at its two ends taken off (line
/// breaks inside are kept); the last turn is the assistant's, and where the
/// last assistant message has content it is that message with only its
/// outer white space taken off.
pub proof fn lemma_turns_keep_whole_messages(msgs: Seq<Seq<char>>, last: Option<Seq<char>>)
    ensures
        ({
            let ts = codex_turns(msgs, last);
            &&& ts.last().role == "assistant"@
            &&& (forall|j: int| 0 <= j < msgs.len() ==> has_content(#[trigger] msgs[j])) ==> {
                &&& ts.len() == msgs.len() + 1
                &&& forall|i: int|
                    0 <= i < msgs.len() ==> (#[trigger] ts[i]).role == "user"@
                        && strips_outer_space(msgs[i], ts[i].content)
            }
            &&& last matches Some(m) ==> (has_content(m) ==> strips_outer_space(
                m,
                ts.last().content,
            ))
        }),
{
    let ts = codex_turns(msgs, last);
    lemma_user_turns_shape(msgs);
    if forall|j: int| 0 <= j < msgs.len() ==> has_content(#[trigger] msgs[j]) {
        assert forall|j: int| 0 <= j < msgs.len() implies (#[trigger] trim_seq(msgs[j])).len()
            > 0 by {
            lemma_content_survives_trim(msgs[j]);
        }
        assert forall|i: int| 0 <= i < msgs.len() implies (#[trigger] ts[i]).role == "user"@
            && strips_outer_space(msgs[i], ts[i].content) by {
            assert(ts[i] == user_turns(msgs)[i]);
            lemma_trim_strips_only_outer_space(msgs[i]);
        }
    }
    if let Some(m) = last {
        lemma_content_survives_trim(m);
        lemma_trim_strips_only_outer_space(m);
    }
}

/// An identifier without its surrounding white space, where that leaves
/// anything.
pub open spec fn nonblank(o: Option<Seq<char>>) -> Option<Seq<char>> {
    match o {
        Some(v) => if trim_seq(v).len() > 0 {
            Some(trim_seq(v))
        } else {
            None
        },
        None => None,
    }
}

/// The deduplication key of a Codex event with thread and turn identifiers
/// `thread` and `turn`; none where both are missing or blank.
pub open spec fn codex_dedup_key(thread: Option<Seq<char>>, turn: Option<Seq<char>>) -> Option<
    Seq<char>,
> {
    match (nonblank(thread), nonblank(turn)) {
        (Some(a), Some(b)) => Some("codex:"@ + a + ":"@ + b),
        (Some(a), None) => Some("codex:"@ + a),
        (None, Some(b)) => Some("codex-turn:"@ + b),
        (None, None) => None,
    }
}

/// An optional identifier without its surrounding white space.
pub open spec fn trimmed(o: Option<Seq<char>>) -> Option<Seq<char>> {
    match o {
        Some(v) => Some(trim_seq(v)),
        None => None,
    }
}

/// Identifiers that differ only in surrounding white space give the same
/// deduplication key.
pub proof fn lemma_dedup_key_ignores_padding(
    thread1: Option<Seq<char>>,
    turn1: Option<Seq<char>>,
    thread2: Option<Seq<char>>,
    turn2: Option<Seq<char>>,
)
    requires
        trimmed(thread1) == trimmed(thread2),
        trimmed(turn1) == trimmed(turn2),
    ensures
        codex_dedup_key(thread1, turn1) == codex_dedup_key(thread2, turn2),
{
    assert(nonblank(thread1) == nonblank(thread2));
    assert(nonblank(turn1) == nonblank(turn2));
}

/// An identifier that holds no `:` once trimmed (or is absent or blank).
pub open spec fn colon_free(o: Option<Seq<char>>) -> bool {
    match nonblank(o) {
        Some(v) => !v.contains(':'),
        None => true,
    }
}

proof fn lemma_colon_position(p: Seq<char>, a: Seq<char>, rest: Seq<char>, i: int)
    requires
        !a.contains(':'),
        0 <= i < a.len(),
    ensures
        (p + a + rest)[p.len() as int + i] == a[i],
        (p + a + rest)[p.len() as int + i] != ':',
{
    assert((p + a + rest)[p.len() as int + i] == a[i]);
    if a[i] == ':' {
        assert(a.contains(':'));
    }
}

proof fn lemma_same_head(p: Seq<char>, a: Seq<char>, x: Seq<char>, a2: Seq<char>, y: Seq<char>)
    requires
        !a.contains(':'),
        !a2.contains(':'),
        x.len() > 0 && x[0] == ':',
        y.len() > 0 && y[0] == ':',
        p + a + x == p + a2 + y,
    ensures
        a == a2,
        x == y,
{
    let k = p + a + x;
    if a.len() < a2.len() {
        lemma_colon_position(p, a2, y, a.len() as int);
        assert(k[(p.len() + a.len()) as int] == x[0]);
    } else if a2.len() < a.len() {
        lemma_colon_position(p, a, x, a2.len() as int);
        assert((p + a2 + y)[(p.len() + a2.len()) as int] == y[0]);
    }
    assert forall|i: int| 0 <= i < a.len() implies a[i] == a2[i] by {
        assert(k[p.len() as int + i] == a[i]);
        assert((p + a2 + y)[p.len() as int + i] == a2[i]);
    }
    assert(a =~= a2);
    assert(x =~= k.subrange((p.len() + a.len()) as int, k.len() as int));
    assert(y =~= (p + a2 + y).subrange((p.len() + a2.len()) as int, k.len() as int));
}

/// Where no identifier holds a `:`, equal deduplication keys come from the
/// same trimmed identifiers: distinct events are never taken for each other.
pub proof fn lemma_dedup_key_distinguishes(
    thread1: Option<Seq<char>>,
    turn1: Option<Seq<char>>,
    thread2: Option<Seq<char>>,
    turn2: Option<Seq<char>>,
)
    requires
        colon_free(thread1),
        colon_free(turn1),
        colon_free(thread2),
        colon_free(turn2),
        codex_dedup_key(thread1, turn1) is Some,
        codex_dedup_key(thread1, turn1) == codex_dedup_key(thread2, turn2),
    ensures
        nonblank(thread1) == nonblank(thread2),
        nonblank(turn1) == nonblank(turn2),
{
    reveal_strlit("codex:");
    reveal_strlit("codex-turn:");
    reveal_strlit(":");
    let p = "codex:"@;
    let q = "codex-turn:"@;
    let c = ":"@;
    let k = codex_dedup_key(thread1, turn1)->0;
    assert(p[5] == ':' && q[5] == '-' && c[0] == ':');
    match (nonblank(thread1), nonblank(turn1), nonblank(thread2), nonblank(turn2)) {
        (Some(a), Some(b), Some(a2), Some(b2)) => {
            assert(p + a + c + b == p + a + (c + b));
            assert(p + a2 + c + b2 == p + a2 + (c + b2));
            lemma_same_head(p, a, c + b, a2, c + b2);
            assert(b =~= (c + b).drop_first());
            assert(b2 =~= (c + b2).drop_first());
        },
        (Some(a), Some(b), Some(a2), None) => {
            assert(k == p + a + (c + b));
            assert(k[(p.len() + a.len()) as int] == ':');
            lemma_colon_position(p, a2, Seq::<char>::empty(), a.len() as int);
            assert(p + a2 + Seq::<char>::empty() =~= p + a2);
        },
        (Some(a), None, Some(a2), Some(b2)) => {
            assert(k == p + a2 + (c + b2));
            assert(k[(p.len() + a2.len()) as int] == ':');
            lemma_colon_position(p, a, Seq::<char>::empty(), a2.len() as int);
            assert(p + a + Seq::<char>::empty() =~= p + a);
        },
        (Some(a), None, Some(a2), None) => {
            assert(a =~= k.subrange(6, k.len() as int));
            assert(a2 =~= k.subrange(6, k.len() as int));
        },
        (None, Some(b), None, Some(b2)) => {
            assert(b =~= k.subrange(11, k.len() as int));
            assert(b2 =~= k.subrange(11, k.len() as int));
        },
        (Some(a), _, None, _) => {
            assert(k[5] == ':');
        },
        (None, _, Some(a2), _) => {
            assert(k[5] == '-');
        },
        _ => {},
    }
}

fn nonblank_id(o: &Option<String>) -> (r: Option<&str>)
    ensures
        match r {
            Some(s) => nonblank(opt_chars(*o)) == Some(s@),
            None => nonblank(opt_chars(*o)) is None,
        },
{
    match o {
        Some(v) => {
            let t = trim(v.as_str());
            if t.is_empty() {
                None
            } else {
                Some(t)
            }
        },
        None => None,
    }
}

/// The key under which a Codex event is recorded as notified, made of its
/// thread and turn identifiers.
pub fn build_codex_dedup_key(input: &CodexNotifyInput) -> (r: Option<String>)
    ensures
        opt_chars(r) == codex_dedup_key(opt_chars(input.thread_id), opt_chars(input.turn_id)),
{
    let thread = nonblank_id(&input.thread_id);
    let turn = nonblank_id(&input.turn_id);
    match (thread, turn) {
        (Some(a), Some(b)) => {
            let mut k = String::from_str("codex:");
            k.append(a);
            k.append(":");
            k.append(b);
            Some(k)
        },
        (Some(a), None) => {
            let mut k = String::from_str("codex:");
            k.append(a);
            Some(k)
        },
        (None, Some(b)) => {
            let mut k = String::from_str("codex-turn:");
            k.append(b);
            Some(k)
        },
        (None, None) => None,
    }
}

} // verus!
