//! Input checks shared by the stores: e-mail plausibility and user ids.
use crate::db::error::DbError;
use crate::text::{find_char, has_char, is_ascii_alnum, slice_to_vec, trim, trim_chars};
use vstd::prelude::*;

verus! {

/// Bytes in the UTF-8 encoding of `c`.
pub open spec fn utf8_width(c: char) -> nat {
    let u = c as u32;
    if u < 0x80 {
        1
    } else if u < 0x800 {
        2
    } else if u < 0x10000 {
        3
    } else {
        4
    }
}

/// Bytes in the UTF-8 encoding of `s` (what `str::len` returns).
pub open spec fn utf8_len(s: Seq<char>) -> nat
    decreases s.len(),
{
    if s.len() == 0 {
        0
    } else {
        utf8_len(s.drop_last()) + utf8_width(s.last())
    }
}

pub fn utf8_width_exec(c: char) -> (w: usize)
    ensures
        w == utf8_width(c),
{
    let u = c as u32;
    if u < 0x80 {
        1
    } else if u < 0x800 {
        2
    } else if u < 0x10000 {
        3
    } else {
        4
    }
}

/// The UTF-8 byte length of `v`, or `None` when it exceeds `cap`.
pub fn utf8_len_capped(v: &[char], cap: usize) -> (r: Option<usize>)
    requires
        cap < usize::MAX - 4,
    ensures
        match r {
            Some(n) => n == utf8_len(v@) && n <= cap,
            None => utf8_len(v@) > cap,
        },
{
    let mut n: usize = 0;
    let mut i: usize = 0;
    while i < v.len()
        invariant
            i <= v@.len(),
            cap < usize::MAX - 4,
            n == utf8_len(v@.subrange(0, i as int)),
            n <= cap,
        decreases v@.len() - i,
    {
        n = n + utf8_width_exec(v[i]);
        proof {
            assert(v@.subrange(0, (i + 1) as int).drop_last() == v@.subrange(0, i as int));
        }
        i = i + 1;
        if n > cap {
            proof {
                lemma_utf8_len_prefix_mono(v@, i as int);
            }
            return None;
        }
    }
    assert(v@.subrange(0, v@.len() as int) == v@);
    Some(n)
}

pub proof fn lemma_utf8_len_prefix_mono(s: Seq<char>, i: int)
    requires
        0 <= i <= s.len(),
    ensures
        utf8_len(s.subrange(0, i)) <= utf8_len(s),
    decreases s.len() - i,
{
    if i < s.len() {
        lemma_utf8_len_prefix_mono(s.drop_last(), i);
        assert(s.drop_last().subrange(0, i) == s.subrange(0, i));
    } else {
        assert(s.subrange(0, i) == s);
    }
}

/// `i` is the first position of `c` in `s`.
pub open spec fn first_at(s: Seq<char>, c: char, i: int) -> bool {
    0 <= i < s.len() && s[i] == c && forall|k: int| 0 <= k < i ==> s[k] != c
}

/// The plausibility test for e-mail addresses: after trimming, non-empty, at
/// most 254 bytes, free of spaces, tabs and line breaks, with a first `@` that
/// is neither the first nor the last character and a `.` somewhere after it.
pub open spec fn spec_looks_like_email(s: Seq<char>) -> bool {
    let t = trim(s);
    &&& t.len() > 0
    &&& utf8_len(t) <= 254
    &&& !t.contains(' ')
    &&& !t.contains('\t')
    &&& !t.contains('\n')
    &&& !t.contains('\r')
    &&& exists|i: int|
        #![trigger first_at(t, '@', i)]
        first_at(t, '@', i) && 0 < i && i + 1 < t.len() && t.subrange(i + 1, t.len() as int).contains(
            '.',
        )
}

pub fn looks_like_email(s: &str) -> (r: bool)
    ensures
        r == spec_looks_like_email(s@),
{
    let t = trim_chars(s);
    if t.len() == 0 {
        return false;
    }
    match utf8_len_capped(t.as_slice(), 254) {
        None => {
            return false;
        },
        Some(_) => {},
    }
    if has_char(t.as_slice(), ' ') || has_char(t.as_slice(), '\t') || has_char(t.as_slice(), '\n')
        || has_char(t.as_slice(), '\r') {
        return false;
    }
    let at = match find_char(t.as_slice(), '@') {
        Some(i) => i,
        None => {
            proof {
                assert forall|i: int| !first_at(t@, '@', i) by {
                    if first_at(t@, '@', i) {
                        assert(t@.contains('@'));
                    }
                }
            }
            return false;
        },
    };
    proof {
        assert(first_at(t@, '@', at as int));
        assert forall|i: int| first_at(t@, '@', i) implies i == at by {
            if i < at {
                assert(t@[i] != '@');
            } else if i > at {
                assert(t@[at as int] != '@');
            }
        }
    }
    if at == 0 || at + 1 >= t.len() {
        return false;
    }
    let domain = slice_to_vec(t.as_slice(), at + 1, t.len());
    has_char(domain.as_slice(), '.')
}

/// A user id usable as a file name: non-blank after trimming and made of ASCII
/// letters, digits, `-` and `_`.
pub open spec fn valid_user_id(t: Seq<char>) -> bool {
    t.len() > 0 && forall|i: int|
        0 <= i < t.len() ==> is_ascii_alnum(#[trigger] t[i]) || t[i] == '-' || t[i] == '_'
}

pub fn is_user_id_char(c: char) -> (b: bool)
    ensures
        b == (is_ascii_alnum(c) || c == '-' || c == '_'),
{
    let u = c as u32;
    (48 <= u && u <= 57) || (65 <= u && u <= 90) || (97 <= u && u <= 122) || c == '-' || c == '_'
}

/// The trimmed user id, or `Unauthorized` when it is not a valid id.
pub fn normalize_user_id(user_id: &str) -> (r: Result<Vec<char>, DbError>)
    ensures
        match r {
            Ok(v) => v@ == trim(user_id@) && valid_user_id(v@),
            Err(e) => e == DbError::Unauthorized && !valid_user_id(trim(user_id@)),
        },
{
    let t = trim_chars(user_id);
    if t.len() == 0 {
        return Err(DbError::Unauthorized);
    }
    let mut i: usize = 0;
    while i < t.len()
        invariant
            i <= t@.len(),
            t@ == trim(user_id@),
            forall|k: int| 0 <= k < i ==> is_ascii_alnum(#[trigger] t@[k]) || t@[k] == '-' || t@[k]
                == '_',
        decreases t@.len() - i,
    {
        if !is_user_id_char(t[i]) {
            proof {
                let k = i as int;
                assert(!(is_ascii_alnum(t@[k]) || t@[k] == '-' || t@[k] == '_'));
                assert(!valid_user_id(t@));
            }
            return Err(DbError::Unauthorized);
        }
        i = i + 1;
    }
    Ok(t)
}

} // verus!
