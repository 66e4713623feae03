//! Records of a user's conversations and messages, and the normalisation of the
//! values stored with them.
use crate::db::error::DbError;
use crate::text::{
    all_digits, ascii_lower, chars_eq_str, digits_value, is_trim_empty, lower_chars, parse_digits,
    slice_to_vec, str_chars, string_from_chars, trim, trim_chars,
};
use vstd::prelude::*;

verus! {

pub const DEFAULT_CONVERSATION_ID: i64 = 1;

pub const MEMORY_INGEST_MAX_ATTEMPTS: i64 = 10;

#[derive(Debug)]
pub struct ConversationRecord {
    pub id: i64,
    pub title: String,
    pub mode: String,
    pub created_at: i64,
    pub updated_at: i64,
    pub archived_at: Option<i64>,
}

#[derive(Debug)]
pub struct ChatMessageRecord {
    pub id: i64,
    pub conversation_id: i64,
    pub role: String,
    pub content: String,
    pub created_at: i64,
}

#[derive(Debug)]
pub struct ConversationSummaryRecord {
    pub id: i64,
    pub conversation_id: i64,
    pub start_message_id: i64,
    pub end_message_id: i64,
    pub next_start_message_id: i64,
    pub message_count: i64,
    pub token_estimate: i64,
    pub model: String,
    pub content: String,
}

/// The first `n` characters of `s` (`chars().take(n)`).
pub open spec fn take_chars(s: Seq<char>, n: nat) -> Seq<char> {
    if s.len() <= n {
        s
    } else {
        s.subrange(0, n as int)
    }
}

pub fn take_chars_exec(v: &[char], n: usize) -> (r: Vec<char>)
    ensures
        r@ == take_chars(v@, n as nat),
{
    if v.len() <= n {
        slice_to_vec(v, 0, v.len())
    } else {
        slice_to_vec(v, 0, n)
    }
}

/// A conversation id: the trimmed text is 1 to 20 ASCII digits whose value is
/// a positive `i64`.
pub open spec fn spec_conversation_id(s: Seq<char>) -> Option<int> {
    let t = trim(s);
    if t.len() > 0 && t.len() <= 20 && all_digits(t) && digits_value(t) <= i64::MAX && digits_value(t) > 0 {
        Some(digits_value(t) as int)
    } else {
        None
    }
}

pub fn normalize_conversation_id(conversation_id: &str) -> (r: Result<i64, DbError>)
    ensures
        match r {
            Ok(n) => spec_conversation_id(conversation_id@) == Some(n as int),
            Err(e) => e == DbError::InvalidConversation && spec_conversation_id(conversation_id@) is None,
        },
{
    let t = trim_chars(conversation_id);
    if t.len() == 0 || t.len() > 20 {
        return Err(DbError::InvalidConversation);
    }
    match parse_digits(t.as_slice(), 0x7FFF_FFFF_FFFF_FFFFu64) {
        Some(x) => {
            if x == 0 {
                Err(DbError::InvalidConversation)
            } else {
                Ok(x as i64)
            }
        },
        None => Err(DbError::InvalidConversation),
    }
}

/// A blank conversation id means the default conversation.
pub fn normalize_or_default_conversation_id(conversation_id: &str) -> (r: Result<i64, DbError>)
    ensures
        trim(conversation_id@).len() == 0 ==> r == Ok::<i64, DbError>(DEFAULT_CONVERSATION_ID),
        trim(conversation_id@).len() != 0 ==> match r {
            Ok(n) => spec_conversation_id(conversation_id@) == Some(n as int),
            Err(e) => e == DbError::InvalidConversation && spec_conversation_id(conversation_id@) is None,
        },
{
    if is_trim_empty(conversation_id) {
        return Ok(DEFAULT_CONVERSATION_ID);
    }
    normalize_conversation_id(conversation_id)
}

/// A title: trimmed, `fallback` when blank, at most 120 characters.
pub open spec fn spec_title(title: Seq<char>, fallback: Seq<char>) -> Seq<char> {
    let t = trim(title);
    take_chars(if t.len() == 0 { fallback } else { t }, 120)
}

pub fn normalize_title(title: &str, fallback: &str) -> (r: String)
    ensures
        r@ == spec_title(title@, fallback@),
{
    let t = trim_chars(title);
    let next = if t.len() == 0 {
        str_chars(fallback)
    } else {
        t
    };
    let out = take_chars_exec(next.as_slice(), 120);
    string_from_chars(out.as_slice())
}

/// The delivery modes of a conversation.
pub open spec fn is_mode_name(m: Seq<char>) -> bool {
    m == "instant"@ || m == "hourly"@ || m == "daily"@ || m == "weekly"@
}

pub fn is_mode_name_exec(m: &[char]) -> (b: bool)
    ensures
        b == is_mode_name(m@),
{
    chars_eq_str(m, "instant") || chars_eq_str(m, "hourly") || chars_eq_str(m, "daily")
        || chars_eq_str(m, "weekly")
}

/// A stored mode: trimmed and lower-cased, `InvalidStatus` unless it names a mode.
pub fn normalize_mode(mode: &str) -> (r: Result<String, DbError>)
    ensures
        match r {
            Ok(m) => m@ == ascii_lower(trim(mode@)) && is_mode_name(m@),
            Err(e) => e == DbError::InvalidStatus && !is_mode_name(ascii_lower(trim(mode@))),
        },
{
    let t = trim_chars(mode);
    let m = lower_chars(t.as_slice());
    if is_mode_name_exec(m.as_slice()) {
        Ok(string_from_chars(m.as_slice()))
    } else {
        Err(DbError::InvalidStatus)
    }
}

/// Trimmed text cut to `max` characters; `None` when nothing but whitespace remains.
pub open spec fn spec_bounded_text(s: Seq<char>, max: nat) -> Option<Seq<char>> {
    let m = trim(s);
    if m.len() == 0 || trim(take_chars(m, max)).len() == 0 {
        None
    } else {
        Some(take_chars(m, max))
    }
}

fn bounded_text(s: &str, max: usize, what: &str) -> (r: Result<String, DbError>)
    ensures
        match r {
            Ok(v) => spec_bounded_text(s@, max as nat) == Some(v@),
            Err(e) => spec_bounded_text(s@, max as nat) is None && (e matches DbError::InvalidData(d) && d@ == what@),
        },
{
    let m = trim_chars(s);
    if m.len() == 0 {
        return Err(DbError::InvalidData(String::from_str(what)));
    }
    let out = take_chars_exec(m.as_slice(), max);
    let out_s = string_from_chars(out.as_slice());
    if is_trim_empty(out_s.as_str()) {
        return Err(DbError::InvalidData(String::from_str(what)));
    }
    Ok(out_s)
}

/// An embedding model name: trimmed, at most 240 characters, not blank.
pub fn normalize_model(model: &str) -> (r: Result<String, DbError>)
    ensures
        match r {
            Ok(v) => spec_bounded_text(model@, 240) == Some(v@),
            Err(e) => spec_bounded_text(model@, 240) is None && (e matches DbError::InvalidData(d)
                && d@ == "embedding model is empty"@),
        },
{
    bounded_text(model, 240, "embedding model is empty")
}

/// A conversation summary: trimmed, at most 12000 characters, not blank.
pub fn normalize_conversation_summary_content(content: &str) -> (r: Result<String, DbError>)
    ensures
        match r {
            Ok(v) => spec_bounded_text(content@, 12000) == Some(v@),
            Err(e) => spec_bounded_text(content@, 12000) is None && (e matches DbError::InvalidData(d)
                && d@ == "summary content is empty"@),
        },
{
    bounded_text(content, 12000, "summary content is empty")
}


/// A message may be claimed for memory ingest when it exists, is not being
/// ingested already, and is not done with an embedding stored.
pub open spec fn ingest_claimable_of(found: bool, status: Option<Seq<char>>, embedded: bool) -> bool {
    found && status != Some("running"@) && !(status == Some("done"@) && embedded)
}

/// Whether a message may be claimed for ingest (see [`ingest_claimable_of`]):
/// `found` says whether the message exists, `status` is its ingest status,
/// `embedded` whether an embedding is stored for it.
pub fn ingest_claimable(found: bool, status: Option<&str>, embedded: bool) -> (b: bool)
    ensures
        b == ingest_claimable_of(
            found,
            match status {
                Some(s) => Some(s@),
                None => None,
            },
            embedded,
        ),
{
    proof {
        reveal_strlit("running");
        reveal_strlit("done");
    }
    if !found {
        return false;
    }
    match status {
        Some(s) => !crate::text::str_eq(s, "running") && !(crate::text::str_eq(s, "done") && embedded),
        None => true,
    }
}

/// The longest prefix of `s` whose UTF-8 encoding fits in `max` bytes has
/// `k` characters.
pub open spec fn fitting_prefix(s: Seq<char>, max: nat, k: int) -> bool {
    &&& 0 <= k <= s.len()
    &&& crate::db::util::utf8_len(s.subrange(0, k)) <= max
    &&& (k == s.len() || crate::db::util::utf8_len(s.subrange(0, k + 1)) > max)
}

/// The text a failed ingest is recorded with: the error trimmed, cut to at
/// most 1024 bytes at a character boundary.
pub fn ingest_error_text(error: &str) -> (r: String)
    ensures
        exists|k: int| fitting_prefix(trim(error@), 1024, k) && r@ == trim(error@).subrange(0, k),
{
    let v = trim_chars(error);
    let mut n: usize = 0;
    let mut k: usize = 0;
    while k < v.len()
        invariant
            k <= v@.len(),
            n == crate::db::util::utf8_len(v@.subrange(0, k as int)),
            n <= 1024,
        ensures
            k <= v@.len(),
            n == crate::db::util::utf8_len(v@.subrange(0, k as int)),
            n <= 1024,
            k == v@.len() || n + crate::db::util::utf8_width(v@[k as int]) > 1024,
        decreases v@.len() - k,
    {
        let w = crate::db::util::utf8_width_exec(v[k]);
        assert(v@.subrange(0, k + 1).drop_last() == v@.subrange(0, k as int));
        if n + w > 1024 {
            break;
        }
        n = n + w;
        k = k + 1;
    }
    proof {
        if k < v@.len() {
            assert(v@.subrange(0, k + 1).drop_last() == v@.subrange(0, k as int));
            assert(v@.subrange(0, k + 1).last() == v@[k as int]);
        } else {
            assert(v@.subrange(0, k as int) == v@);
        }
        assert(fitting_prefix(trim(error@), 1024, k as int));
    }
    string_from_chars(slice_to_vec(v.as_slice(), 0, k).as_slice())
}

} // verus!
