//! Where mail is sent: the Mailjet endpoint derived from the settings.
use crate::config::{has_http_scheme, has_http_scheme_exec, MailjetSettings};
use crate::text::{
    contains_seq, ends_with, has_substring, has_suffix_str, is_trim_empty, push_all, str_chars,
    string_from_chars, strip_trailing, strip_trailing_chars, trim, trim_chars,
};
use vstd::prelude::*;

verus! {

pub const MAILJET_DEFAULT_ENDPOINT: &'static str = "https://api.mailjet.com/v3.1/send";

/// The endpoint for a configured base URL, and whether an unusable base URL
/// was replaced by the default: a blank base means the default; otherwise
/// the base gets `https://` when it has no scheme and loses its trailing
/// slashes; a full send URL is kept, a Mailjet host gets the send path, and
/// anything else falls back to the default.
pub open spec fn endpoint_of(base_url: Seq<char>) -> (Seq<char>, bool) {
    let b = trim(base_url);
    let with_scheme = if has_http_scheme(b) {
        b
    } else {
        "https://"@ + b
    };
    let base = strip_trailing(with_scheme, '/');
    if b.len() == 0 {
        (MAILJET_DEFAULT_ENDPOINT@, false)
    } else if ends_with(base, "/v3.1/send"@) {
        (base, false)
    } else if contains_seq(base, "mailjet.com"@) {
        (base + "/v3.1/send"@, false)
    } else {
        (MAILJET_DEFAULT_ENDPOINT@, true)
    }
}

pub fn resolve_endpoint(cfg: &MailjetSettings) -> (r: (String, bool))
    ensures
        (r.0@, r.1) == endpoint_of(cfg.base_url@),
{
    let b = trim_chars(cfg.base_url.as_str());
    if b.len() == 0 {
        return (String::from_str(MAILJET_DEFAULT_ENDPOINT), false);
    }
    let with_scheme = if has_http_scheme_exec(b.as_slice()) {
        b
    } else {
        let mut v = str_chars("https://");
        push_all(&mut v, b.as_slice());
        v
    };
    let base = strip_trailing_chars(with_scheme.as_slice(), '/');
    if has_suffix_str(base.as_slice(), "/v3.1/send") {
        return (string_from_chars(base.as_slice()), false);
    }
    let host = str_chars("mailjet.com");
    if has_substring(base.as_slice(), host.as_slice()) {
        let mut v = base;
        let tail = str_chars("/v3.1/send");
        push_all(&mut v, tail.as_slice());
        return (string_from_chars(v.as_slice()), false);
    }
    (String::from_str(MAILJET_DEFAULT_ENDPOINT), true)
}

/// Mail can be sent once the key, the secret and the sender address are set.
pub open spec fn mailjet_configured(cfg: MailjetSettings) -> bool {
    trim(cfg.api_key@).len() > 0 && trim(cfg.api_secret@).len() > 0 && trim(cfg.from_email@).len()
        > 0
}

pub fn is_mailjet_configured(cfg: &MailjetSettings) -> (b: bool)
    ensures
        b == mailjet_configured(*cfg),
{
    !(is_trim_empty(cfg.api_key.as_str()) || is_trim_empty(cfg.api_secret.as_str())
        || is_trim_empty(cfg.from_email.as_str()))
}

/// Whatever the configured base URL, mail goes to a `/v3.1/send` endpoint,
/// and a fallback always means the default endpoint.
pub proof fn law_endpoint_is_send_url(base_url: Seq<char>)
    ensures
        ends_with(endpoint_of(base_url).0, "/v3.1/send"@),
        endpoint_of(base_url).1 ==> endpoint_of(base_url).0 == MAILJET_DEFAULT_ENDPOINT@,
{
    reveal_strlit("https://api.mailjet.com/v3.1/send");
    reveal_strlit("/v3.1/send");
    let d = MAILJET_DEFAULT_ENDPOINT@;
    assert(d.subrange(d.len() - 10, d.len() as int) =~= "/v3.1/send"@);
    let r = endpoint_of(base_url).0;
    let b = trim(base_url);
    let with_scheme = if has_http_scheme(b) {
        b
    } else {
        "https://"@ + b
    };
    let base = strip_trailing(with_scheme, '/');
    if b.len() != 0 && !ends_with(base, "/v3.1/send"@) && contains_seq(base, "mailjet.com"@) {
        let t = base + "/v3.1/send"@;
        assert(t.subrange(t.len() - 10, t.len() as int) =~= "/v3.1/send"@);
    }
}

} // verus!
