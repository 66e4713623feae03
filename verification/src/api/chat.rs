//! The chat endpoints' rules: which client messages are used, conversation
//! modes and their reply schedule, and the mapping of backend failures.
pub mod chunk;
pub mod sse;
pub mod util;

use crate::api::chat::util::{filter_client_messages, msg_view, msg_views, usable_messages};
use crate::config::DEFAULT_SYSTEM_PROMPT;
use crate::db::error::DbError;
use crate::db::user_data::{is_mode_name, ChatMessageRecord};
use crate::openrouter::{ChatCompletionResponse, HttpError, Message};
use crate::text::{
    ascii_lower, chars_eq_str, copy_str, is_trim_empty, lower_chars, str_eq, trim, trim_chars,
    trim_str,
};
use vstd::prelude::*;

verus! {

pub const MODE_INSTANT: &'static str = "instant";

pub const MODE_HOURLY: &'static str = "hourly";

pub const MODE_DAILY: &'static str = "daily";

pub const MODE_WEEKLY: &'static str = "weekly";

/// The history length a chat request reads.
pub const HISTORY_LIMIT: usize = 2000;

/// The mode a request names: trimmed, lower-cased, one of the four modes.
pub open spec fn chat_mode(mode: Seq<char>) -> Option<Seq<char>> {
    if is_mode_name(ascii_lower(trim(mode))) {
        Some(ascii_lower(trim(mode)))
    } else {
        None
    }
}

pub fn normalize_mode(mode: &str) -> (r: Option<&'static str>)
    ensures
        match r {
            Some(m) => chat_mode(mode@) == Some(m@),
            None => chat_mode(mode@) is None,
        },
{
    let t = trim_chars(mode);
    let m = lower_chars(t.as_slice());
    if chars_eq_str(m.as_slice(), MODE_INSTANT) {
        Some(MODE_INSTANT)
    } else if chars_eq_str(m.as_slice(), MODE_HOURLY) {
        Some(MODE_HOURLY)
    } else if chars_eq_str(m.as_slice(), MODE_DAILY) {
        Some(MODE_DAILY)
    } else if chars_eq_str(m.as_slice(), MODE_WEEKLY) {
        Some(MODE_WEEKLY)
    } else {
        None
    }
}

/// The mode a new conversation gets: instant when none is named.
pub open spec fn creation_mode_of(mode: Seq<char>) -> Option<Seq<char>> {
    if trim(mode).len() == 0 {
        Some("instant"@)
    } else {
        chat_mode(mode)
    }
}

pub fn creation_mode(mode: &str) -> (r: Option<&'static str>)
    ensures
        match r {
            Some(m) => creation_mode_of(mode@) == Some(m@),
            None => creation_mode_of(mode@) is None,
        },
{
    if is_trim_empty(mode) {
        Some(MODE_INSTANT)
    } else {
        normalize_mode(mode)
    }
}

/// How long a scheduled mode waits between replies.
pub open spec fn interval_of(mode: Seq<char>) -> Option<i64> {
    if mode == "hourly"@ {
        Some(3_600_000)
    } else if mode == "daily"@ {
        Some(86_400_000)
    } else if mode == "weekly"@ {
        Some(604_800_000)
    } else {
        None
    }
}

pub fn mode_interval_ms(mode: &str) -> (r: Option<i64>)
    ensures
        r == interval_of(mode@),
{
    if str_eq(mode, MODE_HOURLY) {
        Some(3_600_000)
    } else if str_eq(mode, MODE_DAILY) {
        Some(86_400_000)
    } else if str_eq(mode, MODE_WEEKLY) {
        Some(604_800_000)
    } else {
        None
    }
}

/// When the assistant last answered in `rows`.
pub open spec fn last_saelora_at(rows: Seq<ChatMessageRecord>) -> Option<i64>
    decreases rows.len(),
{
    if rows.len() == 0 {
        None
    } else if rows.last().role@ == "saelora"@ {
        Some(rows.last().created_at)
    } else {
        last_saelora_at(rows.drop_last())
    }
}

/// The user messages still waiting for an answer: those after the last
/// answer (all of them when there is none).
pub open spec fn pending_count(rows: Seq<ChatMessageRecord>, last: Option<i64>) -> nat
    decreases rows.len(),
{
    if rows.len() == 0 {
        0
    } else {
        pending_count(rows.drop_last(), last) + if rows.last().role@ == "user"@ && (match last {
            Some(t) => rows.last().created_at > t,
            None => true,
        }) {
            1nat
        } else {
            0nat
        }
    }
}

proof fn lemma_pending_bound(rows: Seq<ChatMessageRecord>, last: Option<i64>)
    ensures
        pending_count(rows, last) <= rows.len(),
    decreases rows.len(),
{
    if rows.len() > 0 {
        lemma_pending_bound(rows.drop_last(), last);
    }
}

pub fn pending_after_last_saelora(rows: &[ChatMessageRecord]) -> (r: (usize, Option<i64>))
    ensures
        r.1 == last_saelora_at(rows@),
        r.0 == pending_count(rows@, last_saelora_at(rows@)),
{
    let mut last: Option<i64> = None;
    let mut j: usize = rows.len();
    proof {
        assert(rows@.subrange(0, rows@.len() as int) =~= rows@);
    }
    while j > 0
        invariant
            j <= rows@.len(),
            last_saelora_at(rows@) == (match last {
                Some(t) => Some(t),
                None => last_saelora_at(rows@.subrange(0, j as int)),
            }),
        decreases j,
    {
        proof {
            assert(rows@.subrange(0, j as int).drop_last() =~= rows@.subrange(0, j - 1));
        }
        if last.is_none() && str_eq(rows[j - 1].role.as_str(), "saelora") {
            last = Some(rows[j - 1].created_at);
        }
        j = j - 1;
    }
    proof {
        assert(rows@.subrange(0, 0) =~= Seq::<ChatMessageRecord>::empty());
    }
    let n = rows.len();
    let mut count: usize = 0;
    let mut i: usize = 0;
    while i < n
        invariant
            n == rows@.len(),
            i <= n,
            count == pending_count(rows@.subrange(0, i as int), last),
        decreases n - i,
    {
        proof {
            assert(rows@.subrange(0, i + 1).drop_last() =~= rows@.subrange(0, i as int));
            lemma_pending_bound(rows@.subrange(0, i as int), last);
        }
        if str_eq(rows[i].role.as_str(), "user") {
            let newer = match last {
                Some(t) => rows[i].created_at > t,
                None => true,
            };
            if newer {
                count = count + 1;
            }
        }
        i = i + 1;
    }
    proof {
        assert(rows@.subrange(0, n as int) =~= rows@);
    }
    (count, last)
}

/// The stored messages as model context: answers become `assistant`
/// messages, user messages stay, anything else is left out.
pub open spec fn history_of(rows: Seq<ChatMessageRecord>) -> Seq<(Seq<char>, Seq<char>)>
    decreases rows.len(),
{
    if rows.len() == 0 {
        Seq::empty()
    } else {
        let p = history_of(rows.drop_last());
        let m = rows.last();
        if m.role@ == "saelora"@ {
            p.push(("assistant"@, m.content@))
        } else if m.role@ == "user"@ {
            p.push(("user"@, m.content@))
        } else {
            p
        }
    }
}

pub fn history_messages(rows: &[ChatMessageRecord]) -> (r: Vec<Message>)
    ensures
        msg_views(r@) == history_of(rows@),
{
    let mut out: Vec<Message> = Vec::new();
    let mut i: usize = 0;
    while i < rows.len()
        invariant
            i <= rows@.len(),
            msg_views(out@) == history_of(rows@.subrange(0, i as int)),
        decreases rows@.len() - i,
    {
        proof {
            assert(rows@.subrange(0, i + 1).drop_last() =~= rows@.subrange(0, i as int));
        }
        let ghost before = out@;
        if str_eq(rows[i].role.as_str(), "saelora") {
            out.push(Message { role: copy_str("assistant"), content: rows[i].content.clone() });
            proof {
                assert(msg_views(out@) =~= msg_views(before).push(("assistant"@, rows@[i as int].content@)));
            }
        } else if str_eq(rows[i].role.as_str(), "user") {
            out.push(Message { role: copy_str("user"), content: rows[i].content.clone() });
            proof {
                assert(msg_views(out@) =~= msg_views(before).push(("user"@, rows@[i as int].content@)));
            }
        }
        i = i + 1;
    }
    proof {
        assert(rows@.subrange(0, rows@.len() as int) =~= rows@);
    }
    out
}

/// The content of the last message with role `role` in `s`, if any.
pub open spec fn last_with_role(s: Seq<(Seq<char>, Seq<char>)>, role: Seq<char>) -> Option<Seq<char>>
    decreases s.len(),
{
    if s.len() == 0 {
        None
    } else if s.last().0 == role {
        Some(s.last().1)
    } else {
        last_with_role(s.drop_last(), role)
    }
}

fn last_user_index(msgs: &Vec<Message>) -> (r: Option<usize>)
    ensures
        match r {
            Some(i) => i < msgs@.len() && last_with_role(msg_views(msgs@), "user"@) == Some(
                msgs@[i as int].content@,
            ),
            None => last_with_role(msg_views(msgs@), "user"@) is None,
        },
{
    let mut j: usize = msgs.len();
    proof {
        assert(msgs@.subrange(0, msgs@.len() as int) =~= msgs@);
    }
    while j > 0
        invariant
            j <= msgs@.len(),
            last_with_role(msg_views(msgs@), "user"@) == last_with_role(
                msg_views(msgs@.subrange(0, j as int)),
                "user"@,
            ),
        decreases j,
    {
        proof {
            assert(msg_views(msgs@.subrange(0, j as int)).drop_last() =~= msg_views(
                msgs@.subrange(0, j - 1),
            ));
        }
        if str_eq(msgs[j - 1].role.as_str(), "user") {
            return Some(j - 1);
        }
        j = j - 1;
    }
    None
}

/// Why a chat request was refused before anything was stored.
#[derive(Debug, Clone, Copy, PartialEq, Eq, Structural)]
pub enum ChatRequestError {
    MissingMessages,
    NoUsableMessages,
    MissingUserMessage,
    MissingConversationId,
}

impl ChatRequestError {
    /// The text the client is told.
    pub fn message(&self) -> (s: &'static str)
        ensures
            s@ == match *self {
                ChatRequestError::MissingMessages => "missing messages"@,
                ChatRequestError::NoUsableMessages => "no usable messages"@,
                ChatRequestError::MissingUserMessage => "missing user message"@,
                ChatRequestError::MissingConversationId => "missing conversation_id"@,
            },
    {
        match self {
            ChatRequestError::MissingMessages => "missing messages",
            ChatRequestError::NoUsableMessages => "no usable messages",
            ChatRequestError::MissingUserMessage => "missing user message",
            ChatRequestError::MissingConversationId => "missing conversation_id",
        }
    }
}

/// A chat request that passed the checks: the usable messages, the latest
/// user text (trimmed) and the conversation id (trimmed).
#[derive(Debug)]
pub struct ChatTurn {
    pub messages: Vec<Message>,
    pub latest_user_content: String,
    pub conversation_id: String,
}

/// The checks of a chat request, in order: some messages, some usable ones,
/// a non-blank latest user message, a conversation id.
pub open spec fn chat_request_error(
    messages: Seq<Message>,
    conversation_id: Seq<char>,
) -> Option<ChatRequestError> {
    let usable = usable_messages(messages);
    if messages.len() == 0 {
        Some(ChatRequestError::MissingMessages)
    } else if usable.len() == 0 {
        Some(ChatRequestError::NoUsableMessages)
    } else if !(last_with_role(usable, "user"@) matches Some(c) && trim(c).len() > 0) {
        Some(ChatRequestError::MissingUserMessage)
    } else if trim(conversation_id).len() == 0 {
        Some(ChatRequestError::MissingConversationId)
    } else {
        None
    }
}

pub fn validate_chat_request(messages: &[Message], conversation_id: &str) -> (r: Result<
    ChatTurn,
    ChatRequestError,
>)
    ensures
        match r {
            Ok(t) => {
                &&& chat_request_error(messages@, conversation_id@) is None
                &&& msg_views(t.messages@) == usable_messages(messages@)
                &&& (last_with_role(usable_messages(messages@), "user"@) matches Some(c)
                    && t.latest_user_content@ == trim(c))
                &&& t.conversation_id@ == trim(conversation_id@)
            },
            Err(e) => chat_request_error(messages@, conversation_id@) == Some(e),
        },
{
    if messages.len() == 0 {
        return Err(ChatRequestError::MissingMessages);
    }
    let usable = filter_client_messages(messages);
    if usable.len() == 0 {
        return Err(ChatRequestError::NoUsableMessages);
    }
    let latest = match last_user_index(&usable) {
        Some(i) => trim_str(usable[i].content.as_str()),
        None => {
            return Err(ChatRequestError::MissingUserMessage);
        },
    };
    if latest.unicode_len() == 0 {
        return Err(ChatRequestError::MissingUserMessage);
    }
    let conv = trim_str(conversation_id);
    if conv.unicode_len() == 0 {
        return Err(ChatRequestError::MissingConversationId);
    }
    Ok(ChatTurn { messages: usable, latest_user_content: latest, conversation_id: conv })
}

/// The system prompt: the configured one trimmed, or the default when blank.
pub open spec fn system_prompt_of(configured: Seq<char>) -> Seq<char> {
    if trim(configured).len() == 0 {
        trim(DEFAULT_SYSTEM_PROMPT@)
    } else {
        trim(configured)
    }
}

pub fn system_prompt(configured: &str) -> (r: String)
    ensures
        r@ == system_prompt_of(configured@),
{
    let t = trim_str(configured);
    if t.unicode_len() == 0 {
        trim_str(DEFAULT_SYSTEM_PROMPT)
    } else {
        t
    }
}

/// What is sent to the backend: the system prompt, the memory context as a
/// second system message when there is one, then the history.
pub open spec fn backend_messages_of(
    prompt: Seq<char>,
    memory: Option<Seq<char>>,
    history: Seq<(Seq<char>, Seq<char>)>,
) -> Seq<(Seq<char>, Seq<char>)> {
    let head = match memory {
        Some(ctx) => seq![("system"@, prompt), ("system"@, ctx)],
        None => seq![("system"@, prompt)],
    };
    head + history
}

pub fn backend_messages(prompt: String, memory: Option<String>, history: Vec<Message>) -> (r: Vec<
    Message,
>)
    ensures
        msg_views(r@) == backend_messages_of(
            prompt@,
            match memory {
                Some(m) => Some(m@),
                None => None,
            },
            msg_views(history@),
        ),
{
    let mut out: Vec<Message> = Vec::new();
    out.push(Message { role: copy_str("system"), content: prompt });
    match memory {
        Some(ctx) => {
            out.push(Message { role: copy_str("system"), content: ctx });
        },
        None => {},
    }
    let ghost head = out@;
    let mut i: usize = 0;
    while i < history.len()
        invariant
            i <= history@.len(),
            out@ == head + history@.subrange(0, i as int),
        decreases history@.len() - i,
    {
        out.push(history[i].clone());
        i = i + 1;
        assert(out@ == head + history@.subrange(0, i as int));
    }
    assert(history@.subrange(0, history@.len() as int) =~= history@);
    assert(msg_views(out@) =~= msg_views(head) + msg_views(history@));
    out
}

/// A request counts as one user turn when its history ends with a user message.
pub fn user_turn_delta(history: &[Message]) -> (d: i64)
    ensures
        d == if history@.len() > 0 && history@.last().role@ == "user"@ {
            1int
        } else {
            0int
        },
{
    if history.len() > 0 && str_eq(history[history.len() - 1].role.as_str(), "user") {
        1
    } else {
        0
    }
}

/// The number of history rows a history request reads: 2000 by default, at
/// most 10000.
pub fn history_limit(limit: usize) -> (r: usize)
    ensures
        r == if limit == 0 {
            2000
        } else if limit > 10_000 {
            10_000
        } else {
            limit
        },
{
    if limit == 0 {
        2000
    } else if limit > 10_000 {
        10_000
    } else {
        limit
    }
}

/// The text of the last user message in `rows`, or nothing.
pub open spec fn latest_user_text_of(rows: Seq<ChatMessageRecord>) -> Seq<char>
    decreases rows.len(),
{
    if rows.len() == 0 {
        Seq::empty()
    } else if rows.last().role@ == "user"@ {
        rows.last().content@
    } else {
        latest_user_text_of(rows.drop_last())
    }
}

pub fn latest_user_text(rows: &[ChatMessageRecord]) -> (r: String)
    ensures
        r@ == latest_user_text_of(rows@),
{
    let mut j: usize = rows.len();
    proof {
        assert(rows@.subrange(0, rows@.len() as int) =~= rows@);
    }
    while j > 0
        invariant
            j <= rows@.len(),
            latest_user_text_of(rows@) == latest_user_text_of(rows@.subrange(0, j as int)),
        decreases j,
    {
        proof {
            assert(rows@.subrange(0, j as int).drop_last() =~= rows@.subrange(0, j - 1));
        }
        if str_eq(rows[j - 1].role.as_str(), "user") {
            return rows[j - 1].content.clone();
        }
        j = j - 1;
    }
    String::new()
}

/// What a tick of a scheduled conversation does.
#[derive(Debug)]
pub enum TickPlan {
    /// Nothing to answer now; `pending` messages wait.
    Idle { pending: usize },
    /// Messages wait, but the next answer is not due before `next_due_at`.
    NotDue { pending: usize, next_due_at: i64 },
    /// Answer now, with this history as context.
    Reply { pending: usize, history: Vec<Message> },
}

/// The longest interval of a scheduled mode (a week).
/// When the next answer of a conversation in `mode` is due, if it waits.
pub open spec fn next_due(mode: Seq<char>, rows: Seq<ChatMessageRecord>) -> Option<int> {
    match (interval_of(mode), last_saelora_at(rows)) {
        (Some(interval), Some(last)) => Some(last + interval),
        _ => None,
    }
}

/// The plan of a tick at `now_ms` for a conversation in `mode` with messages
/// `rows`: instant conversations and conversations with nothing pending stay
/// idle; otherwise the answer waits until its interval since the last answer
/// has passed, and is given when there is any history to answer from.
pub fn tick_plan(mode: &str, rows: &[ChatMessageRecord], now_ms: i64) -> (r: TickPlan)
    requires
        pending_count(rows@, last_saelora_at(rows@)) > 0 && next_due(mode@, rows@) is Some
            ==> next_due(mode@, rows@)->0 <= i64::MAX,
    ensures
        ({
            let pending = pending_count(rows@, last_saelora_at(rows@));
            if mode@ == "instant"@ || pending == 0 {
                r matches TickPlan::Idle { pending: p } && p == 0
            } else if next_due(mode@, rows@) is Some && now_ms < next_due(mode@, rows@)->0 {
                r matches TickPlan::NotDue { pending: p, next_due_at: d } && p == pending && d
                    == next_due(mode@, rows@)->0
            } else if history_of(rows@).len() == 0 {
                r matches TickPlan::Idle { pending: p } && p == pending
            } else {
                r matches TickPlan::Reply { pending: p, history: h } && p == pending && msg_views(
                    h@,
                ) == history_of(rows@)
            }
        }),
{
    if str_eq(mode, MODE_INSTANT) {
        return TickPlan::Idle { pending: 0 };
    }
    let (pending, last) = pending_after_last_saelora(rows);
    if pending == 0 {
        return TickPlan::Idle { pending: 0 };
    }
    match (mode_interval_ms(mode), last) {
        (Some(interval), Some(last_at)) => {
            let due = last_at + interval;
            if now_ms < due {
                return TickPlan::NotDue { pending, next_due_at: due };
            }
        },
        _ => {},
    }
    let history = history_messages(rows);
    if history.len() == 0 {
        return TickPlan::Idle { pending };
    }
    TickPlan::Reply { pending, history }
}

/// The text of the first choice of a completion, or nothing.
pub open spec fn first_reply_of(resp: ChatCompletionResponse) -> Seq<char> {
    if resp.choices@.len() > 0 {
        resp.choices@[0].message.content@
    } else {
        Seq::empty()
    }
}

pub fn first_reply(resp: &ChatCompletionResponse) -> (r: String)
    ensures
        r@ == first_reply_of(*resp),
{
    if resp.choices.len() > 0 {
        resp.choices[0].message.content.clone()
    } else {
        String::new()
    }
}

/// The answer a tick stores: the first choice trimmed; `None` when blank.
pub fn tick_reply(resp: &ChatCompletionResponse) -> (r: Option<String>)
    ensures
        match r {
            Some(t) => t@ == trim(first_reply_of(*resp)) && t@.len() > 0,
            None => trim(first_reply_of(*resp)).len() == 0,
        },
{
    let text = first_reply(resp);
    let t = trim_str(text.as_str());
    if t.unicode_len() == 0 {
        None
    } else {
        Some(t)
    }
}

/// An error answer in the OpenAI shape.
#[derive(Debug)]
pub struct ApiError {
    pub status: u16,
    pub message: String,
    pub error_type: String,
    pub code: String,
}

/// The answer the client gets for a failed backend call with `status`.
pub open spec fn backend_error_of(status: Option<u16>) -> (u16, Seq<char>, Seq<char>, Seq<char>) {
    match status {
        Some(401u16) | Some(403u16) => (
            502,
            "backend authentication failed"@,
            "server_error"@,
            "backend_auth"@,
        ),
        Some(404u16) => (502, "backend model not found"@, "server_error"@, "backend_model_not_found"@),
        Some(429u16) => (
            429,
            "rate limited, please retry shortly"@,
            "rate_limit_error"@,
            "rate_limit_exceeded"@,
        ),
        Some(400u16) => (502, "backend rejected request"@, "server_error"@, "backend_bad_request"@),
        _ => (502, "backend error"@, "server_error"@, "backend_error"@),
    }
}

fn api_error(status: u16, message: &str, error_type: &str, code: &str) -> (r: ApiError)
    ensures
        r.status == status,
        r.message@ == message@,
        r.error_type@ == error_type@,
        r.code@ == code@,
{
    ApiError {
        status,
        message: copy_str(message),
        error_type: copy_str(error_type),
        code: copy_str(code),
    }
}

pub fn backend_error(e: &HttpError) -> (r: ApiError)
    ensures
        (r.status, r.message@, r.error_type@, r.code@) == backend_error_of(e.status),
{
    match e.status {
        Some(401u16) | Some(403u16) => api_error(
            502,
            "backend authentication failed",
            "server_error",
            "backend_auth",
        ),
        Some(404u16) => api_error(502, "backend model not found", "server_error", "backend_model_not_found"),
        Some(429u16) => api_error(
            429,
            "rate limited, please retry shortly",
            "rate_limit_error",
            "rate_limit_exceeded",
        ),
        Some(400u16) => api_error(502, "backend rejected request", "server_error", "backend_bad_request"),
        _ => api_error(502, "backend error", "server_error", "backend_error"),
    }
}

/// How a failed conversation read or change is answered: a malformed id is
/// a bad request, a missing or archived conversation is not found, and
/// anything else is a server error reported as `fallback`.
pub fn conversation_failure(e: &DbError, fallback: &'static str) -> (r: (u16, &'static str))
    ensures
        *e == DbError::InvalidConversation ==> r.0 == 400 && r.1@ == "invalid conversation id"@,
        *e == DbError::NotFound ==> r.0 == 404 && r.1@ == "conversation not found"@,
        *e != DbError::InvalidConversation && *e != DbError::NotFound ==> r.0 == 500 && r.1
            == fallback,
{
    match e {
        DbError::InvalidConversation => (400, "invalid conversation id"),
        DbError::NotFound => (404, "conversation not found"),
        _ => (500, fallback),
    }
}

proof fn lemma_none_pending_after(rows: Seq<ChatMessageRecord>, t: i64)
    requires
        forall|i: int| 0 <= i < rows.len() ==> (#[trigger] rows[i]).created_at <= t,
    ensures
        pending_count(rows, Some(t)) == 0,
    decreases rows.len(),
{
    if rows.len() > 0 {
        let p = rows.drop_last();
        assert forall|i: int| 0 <= i < p.len() implies (#[trigger] p[i]).created_at <= t by {
            assert(p[i] == rows[i]);
        }
        lemma_none_pending_after(p, t);
        assert(rows[rows.len() - 1] == rows.last());
    }
}

/// An answer stored after every message (no earlier than any of them)
/// leaves nothing pending.
pub proof fn law_answer_clears_pending(rows: Seq<ChatMessageRecord>, answer: ChatMessageRecord)
    requires
        answer.role@ == "saelora"@,
        forall|i: int| 0 <= i < rows.len() ==> (#[trigger] rows[i]).created_at <= answer.created_at,
    ensures
        last_saelora_at(rows.push(answer)) == Some(answer.created_at),
        pending_count(rows.push(answer), last_saelora_at(rows.push(answer))) == 0,
{
    let all = rows.push(answer);
    assert(all.drop_last() =~= rows);
    lemma_none_pending_after(rows, answer.created_at);
    reveal_strlit("saelora");
    reveal_strlit("user");
    assert("saelora"@[0] != "user"@[0]);
}

/// A user message newer than the last answer adds one to the pending count.
pub proof fn law_user_message_pending(rows: Seq<ChatMessageRecord>, msg: ChatMessageRecord)
    requires
        msg.role@ == "user"@,
        last_saelora_at(rows) matches Some(t) ==> msg.created_at > t,
    ensures
        last_saelora_at(rows.push(msg)) == last_saelora_at(rows),
        pending_count(rows.push(msg), last_saelora_at(rows.push(msg))) == pending_count(
            rows,
            last_saelora_at(rows),
        ) + 1,
{
    let all = rows.push(msg);
    assert(all.drop_last() =~= rows);
    reveal_strlit("saelora");
    reveal_strlit("user");
    assert("saelora"@[0] != "user"@[0]);
}

/// Normalising a mode name that normalised is a no-op.
pub proof fn law_mode_normalization_idempotent(mode: Seq<char>)
    requires
        chat_mode(mode) is Some,
    ensures
        chat_mode(chat_mode(mode)->0) == chat_mode(mode),
{
    let m = chat_mode(mode)->0;
    reveal_strlit("instant");
    reveal_strlit("hourly");
    reveal_strlit("daily");
    reveal_strlit("weekly");
    crate::text::lemma_trim_noop(m);
    assert(ascii_lower(m) =~= m);
}


/// A chat completion is refused for a conversation that is not instant:
/// `None` for an instant one, else the message of the 400 answer.
pub fn completion_mode_refusal(mode: &str) -> (r: Option<&'static str>)
    ensures
        r is None <==> mode@ == MODE_INSTANT@,
        r matches Some(m) ==> m@ == "conversation mode is not instant"@,
{
    if crate::text::str_eq(mode, MODE_INSTANT) {
        None
    } else {
        Some("conversation mode is not instant")
    }
}

} // verus!
