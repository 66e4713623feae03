//! The parts of a URI that origin checks and asset paths read, as parsed by
//! the `http` crate's `Uri`.
use vstd::prelude::*;

verus! {

/// Scheme, authority, host and path of a parsed URI.
#[derive(Debug)]
pub struct UriParts {
    pub scheme: Option<String>,
    pub authority: Option<String>,
    pub host: Option<String>,
    pub path: String,
}

pub open spec fn opt_text(o: Option<String>) -> Option<Seq<char>> {
    match o {
        Some(s) => Some(s@),
        None => None,
    }
}

pub open spec fn parts_view(p: UriParts) -> (Option<Seq<char>>, Option<Seq<char>>, Option<Seq<char>>, Seq<char>) {
    (opt_text(p.scheme), opt_text(p.authority), opt_text(p.host), p.path@)
}

/// The view of a parse: `None`, or the parts.
pub open spec fn parsed_view(o: Option<UriParts>) -> Option<(Option<Seq<char>>, Option<Seq<char>>, Option<Seq<char>>, Seq<char>)> {
    match o {
        Some(p) => Some(parts_view(p)),
        None => None,
    }
}

/// What `http::Uri` parses from a text: `None` when it is no URI, else its
/// scheme, authority, the authority's host, and its path.
pub uninterp spec fn http_uri(s: Seq<char>) -> Option<(Option<Seq<char>>, Option<Seq<char>>, Option<Seq<char>>, Seq<char>)>;

/// Parses `s` with `http::Uri`'s `FromStr` and reads `scheme_str`,
/// `authority` (as text), `Authority::host` and `path`.  The result is named
/// by [`http_uri`]: it depends on `s` alone, and nothing more is claimed.
#[verifier::external_body]
pub(crate) fn parse_uri(s: &str) -> (r: Option<UriParts>)
    ensures
        parsed_view(r) == http_uri(s@),
{
    match s.parse::<axum::http::Uri>() {
        Ok(u) => Some(UriParts {
            scheme: u.scheme_str().map(String::from),
            authority: u.authority().map(axum::http::uri::Authority::as_str).map(String::from),
            host: u.authority().map(axum::http::uri::Authority::host).map(String::from),
            path: u.path().to_string(),
        }),
        Err(_) => None,
    }
}

} // verus!
