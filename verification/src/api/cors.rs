//! Which browser origins may call the API.
use crate::config::{spec_http_public_base, Settings};
use crate::text::{str_chars, str_eq, string_from_chars, trim, trim_str, push_str_chars, chars_eq};
use crate::uri::{http_uri, opt_text, parse_uri, parsed_view, UriParts};
use vstd::prelude::*;

verus! {

/// The origin of a parsed URI: `scheme://authority`, when it has both.
pub open spec fn origin_of_parsed(
    u: Option<(Option<Seq<char>>, Option<Seq<char>>, Option<Seq<char>>, Seq<char>)>,
) -> Option<Seq<char>> {
    match u {
        Some((Some(scheme), Some(authority), _, _)) => Some(scheme + "://"@ + authority),
        _ => None,
    }
}

/// The origin of a URI text.
pub open spec fn origin_of(s: Seq<char>) -> Option<Seq<char>> {
    origin_of_parsed(http_uri(s))
}

/// The origin of what a URI parse gave (see [`origin_of_parsed`]).
pub fn origin_from_parts(p: Option<UriParts>) -> (r: Option<String>)
    ensures
        opt_text(r) == origin_of_parsed(parsed_view(p)),
{
    match p {
        Some(p) => match (p.scheme, p.authority) {
            (Some(scheme), Some(authority)) => {
                let mut v = str_chars(scheme.as_str());
                push_str_chars(&mut v, "://");
                push_str_chars(&mut v, authority.as_str());
                Some(string_from_chars(v.as_slice()))
            },
            _ => None,
        },
        None => None,
    }
}

pub fn normalize_origin(s: &str) -> (r: Option<String>)
    ensures
        opt_text(r) == origin_of(s@),
{
    origin_from_parts(parse_uri(s))
}

/// A parsed URI of a plain-HTTP origin on the local machine.
pub open spec fn local_dev_parsed(
    u: Option<(Option<Seq<char>>, Option<Seq<char>>, Option<Seq<char>>, Seq<char>)>,
) -> bool {
    match u {
        Some((Some(scheme), Some(_), Some(host), _)) => scheme == "http"@ && (host == "localhost"@
            || host == "127.0.0.1"@ || host == "::1"@),
        _ => false,
    }
}

/// A plain-HTTP origin on the local machine.
pub open spec fn local_dev_origin(s: Seq<char>) -> bool {
    local_dev_parsed(http_uri(s))
}

/// Whether what a URI parse gave is a local development origin (see
/// [`local_dev_parsed`]).
pub fn local_dev_from_parts(p: Option<UriParts>) -> (b: bool)
    ensures
        b == local_dev_parsed(parsed_view(p)),
{
    match p {
        Some(p) => match (p.scheme, p.authority, p.host) {
            (Some(scheme), Some(_), Some(host)) => str_eq(scheme.as_str(), "http") && (str_eq(
                host.as_str(),
                "localhost",
            ) || str_eq(host.as_str(), "127.0.0.1") || str_eq(host.as_str(), "::1")),
            _ => false,
        },
        None => false,
    }
}

pub fn is_local_dev_origin(origin: &str) -> (b: bool)
    ensures
        b == local_dev_origin(origin@),
{
    local_dev_from_parts(parse_uri(origin))
}

/// An origin may call the API when it is a local development origin or the
/// origin of the configured public base URL.
pub open spec fn origin_allowed(origin: Seq<char>, public_base: Seq<char>) -> bool {
    match origin_of(origin) {
        None => false,
        Some(o) => local_dev_origin(o) || (spec_http_public_base(public_base).len() > 0
            && origin_of(spec_http_public_base(public_base)) == Some(o)),
    }
}

pub fn is_allowed_origin(origin: &str, settings: &Settings) -> (b: bool)
    ensures
        b == origin_allowed(origin@, settings.public_base@),
{
    let o = match normalize_origin(origin) {
        Some(o) => o,
        None => {
            return false;
        },
    };
    if is_local_dev_origin(o.as_str()) {
        return true;
    }
    let pub_base = settings.http_public_base();
    if pub_base.unicode_len() == 0 {
        return false;
    }
    match normalize_origin(pub_base.as_str()) {
        Some(allowed) => str_eq(o.as_str(), allowed.as_str()),
        None => false,
    }
}

/// The origin echoed back to the browser: the trimmed `Origin` header when
/// it is allowed.
pub open spec fn echoed_origin(header: Option<Seq<char>>, public_base: Seq<char>) -> Option<Seq<char>> {
    let o = match header {
        Some(h) => trim(h),
        None => Seq::empty(),
    };
    if o.len() == 0 {
        None
    } else if origin_allowed(o, public_base) {
        Some(o)
    } else {
        None
    }
}

/// The allowed origin of a request from its `Origin` header value (`None`
/// when missing or not text).
pub fn allowed_origin(header: Option<&str>, settings: &Settings) -> (r: Option<String>)
    ensures
        opt_text(r) == echoed_origin(
            match header {
                Some(h) => Some(h@),
                None => None,
            },
            settings.public_base@,
        ),
{
    let o = match header {
        Some(h) => trim_str(h),
        None => String::new(),
    };
    if o.unicode_len() == 0 {
        return None;
    }
    if is_allowed_origin(o.as_str(), settings) {
        Some(o)
    } else {
        None
    }
}

} // verus!
