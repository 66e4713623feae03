//! Paths of the embedded web assets: how a requested path is cleaned, and
//! which cleaned paths are refused.
use crate::text::{contains_seq, has_substring, str_chars, string_from_chars, strip_trailing, strip_trailing_chars, slice_to_vec};
use crate::uri::{http_uri, parse_uri, parsed_view, UriParts};
use vstd::prelude::*;

verus! {

/// A `/`-separated segment of `p` starts with a dot at position `i`.
pub open spec fn dot_segment_at(p: Seq<char>, i: int) -> bool {
    0 <= i < p.len() && p[i] == '.' && (i == 0 || p[i - 1] == '/')
}

/// A path that climbs (`..`) or names a dot-file or dot-directory.
pub open spec fn unsafe_path(p: Seq<char>) -> bool {
    contains_seq(p, seq!['.', '.']) || exists|i: int| #[trigger] dot_segment_at(p, i)
}

pub fn is_unsafe_path(p: &str) -> (b: bool)
    ensures
        b == unsafe_path(p@),
{
    let v = str_chars(p);
    let mut dots: Vec<char> = Vec::new();
    dots.push('.');
    dots.push('.');
    proof {
        assert(dots@ =~= seq!['.', '.']);
    }
    if has_substring(v.as_slice(), dots.as_slice()) {
        return true;
    }
    let mut i: usize = 0;
    while i < v.len()
        invariant
            i <= v@.len(),
            v@ == p@,
            forall|j: int| 0 <= j < i ==> !#[trigger] dot_segment_at(v@, j),
        decreases v@.len() - i,
    {
        if v[i] == '.' && (i == 0 || v[i - 1] == '/') {
            proof {
                assert(dot_segment_at(v@, i as int));
            }
            return true;
        }
        i = i + 1;
    }
    false
}

/// `s` without its leading `c`s.
pub open spec fn strip_leading(s: Seq<char>, c: char) -> Seq<char>
    decreases s.len(),
{
    if s.len() > 0 && s[0] == c {
        strip_leading(s.drop_first(), c)
    } else {
        s
    }
}

proof fn lemma_strip_leading_skip(s: Seq<char>, c: char, i: int)
    requires
        0 <= i <= s.len(),
        forall|k: int| 0 <= k < i ==> s[k] == c,
    ensures
        strip_leading(s, c) == strip_leading(s.subrange(i, s.len() as int), c),
    decreases i,
{
    if i > 0 {
        let t = s.drop_first();
        assert forall|k: int| 0 <= k < i - 1 implies t[k] == c by {
            assert(t[k] == s[k + 1]);
        }
        lemma_strip_leading_skip(t, c, i - 1);
        assert(t.subrange(i - 1, t.len() as int) =~= s.subrange(i, s.len() as int));
    } else {
        assert(s.subrange(0, s.len() as int) =~= s);
    }
}

/// Backslashes read as slashes.
pub open spec fn forward_slashes(s: Seq<char>) -> Seq<char> {
    s.map_values(|c: char| if c == '\\' { '/' } else { c })
}

/// The cleaned asset path: slashes normalised, the path of `/` and the rest
/// as the URI parser reads it (`/` when it does not parse), without its
/// leading slash and trailing slashes.
/// The path of a parsed URI, `/` when the text did not parse.
pub open spec fn path_of_parsed(
    u: Option<(Option<Seq<char>>, Option<Seq<char>>, Option<Seq<char>>, Seq<char>)>,
) -> Seq<char> {
    match u {
        Some((_, _, _, path)) => path,
        None => seq!['/'],
    }
}

/// The path of what a URI parse gave (see [`path_of_parsed`]).
pub fn path_from_parts(p: Option<UriParts>) -> (r: Vec<char>)
    ensures
        r@ == path_of_parsed(parsed_view(p)),
{
    match p {
        Some(parts) => str_chars(parts.path.as_str()),
        None => {
            let mut root: Vec<char> = Vec::new();
            root.push('/');
            root
        },
    }
}

pub open spec fn cleaned_path(raw: Seq<char>) -> Seq<char> {
    let p = strip_leading(forward_slashes(raw), '/');
    let path = path_of_parsed(http_uri(seq!['/'] + p));
    let rel = if path.len() > 0 && path[0] == '/' {
        path.drop_first()
    } else {
        path
    };
    strip_trailing(rel, '/')
}

pub fn clean_path(raw: &str) -> (r: String)
    ensures
        r@ == cleaned_path(raw@),
{
    let v = str_chars(raw);
    let mut fwd: Vec<char> = Vec::new();
    let mut i: usize = 0;
    while i < v.len()
        invariant
            i <= v@.len(),
            fwd@ == forward_slashes(v@).subrange(0, i as int),
        decreases v@.len() - i,
    {
        let c = v[i];
        fwd.push(if c == '\\' { '/' } else { c });
        i = i + 1;
        assert(fwd@ =~= forward_slashes(v@).subrange(0, i as int));
    }
    assert(forward_slashes(v@).subrange(0, v@.len() as int) =~= forward_slashes(v@));
    let mut a: usize = 0;
    while a < fwd.len() && fwd[a] == '/'
        invariant
            a <= fwd@.len(),
            forall|k: int| 0 <= k < a ==> fwd@[k] == '/',
        decreases fwd@.len() - a,
    {
        a = a + 1;
    }
    proof {
        lemma_strip_leading_skip(fwd@, '/', a as int);
        let t = fwd@.subrange(a as int, fwd@.len() as int);
        if t.len() > 0 {
            assert(t[0] == fwd@[a as int]);
        }
        assert(strip_leading(t, '/') == t);
    }
    let mut slashed: Vec<char> = Vec::new();
    slashed.push('/');
    let mut k: usize = a;
    while k < fwd.len()
        invariant
            a <= k <= fwd@.len(),
            slashed@ == seq!['/'] + fwd@.subrange(a as int, k as int),
        decreases fwd@.len() - k,
    {
        slashed.push(fwd[k]);
        k = k + 1;
        assert(slashed@ =~= seq!['/'] + fwd@.subrange(a as int, k as int));
    }
    let text = string_from_chars(slashed.as_slice());
    let path: Vec<char> = path_from_parts(parse_uri(text.as_str()));
    let rel = if path.len() > 0 && path[0] == '/' {
        slice_to_vec(path.as_slice(), 1, path.len())
    } else {
        path
    };
    proof {
        assert(rel@ == (if path@.len() > 0 && path@[0] == '/' {
            path@.drop_first()
        } else {
            path@
        })) by {
            if path@.len() > 0 && path@[0] == '/' {
                assert(path@.subrange(1, path@.len() as int) =~= path@.drop_first());
            }
        }
    }
    let out = strip_trailing_chars(rel.as_slice(), '/');
    proof {
        assert(out@ =~= cleaned_path(raw@)) by {
            let root: Seq<char> = seq!['/'];
            assert(root.len() == 1);
        }
    }
    string_from_chars(out.as_slice())
}

} // verus!
