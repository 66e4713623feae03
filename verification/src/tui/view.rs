//! Text the console's screens show: the status line, a model's blurb, and
//! a description wrapped at word boundaries.
use crate::openrouter::Model;
use crate::text::{is_trim_empty, is_ws, is_ws_exec, push_str_chars, str_chars, string_from_chars, trim, trim_str};
use crate::tui::console::Notice;
use vstd::prelude::*;
use vstd::utf8::encode_utf8;

verus! {

/// The status line: the error, marked, when there is one; else the message;
/// both trimmed. The flag tells an error.
pub open spec fn status_text(n: Notice) -> (Seq<char>, bool) {
    if trim(n.err@).len() > 0 {
        ("Error: "@ + trim(n.err@), true)
    } else if trim(n.info@).len() > 0 {
        (trim(n.info@), false)
    } else {
        (Seq::empty(), false)
    }
}

pub fn status_line(n: &Notice) -> (r: (String, bool))
    ensures
        (r.0@, r.1) == status_text(*n),
{
    if !is_trim_empty(n.err.as_str()) {
        let mut v = str_chars("Error: ");
        let e = trim_str(n.err.as_str());
        push_str_chars(&mut v, e.as_str());
        proof {
            reveal_strlit("Error: ");
        }
        (string_from_chars(v.as_slice()), true)
    } else if !is_trim_empty(n.info.as_str()) {
        (trim_str(n.info.as_str()), false)
    } else {
        (String::new(), false)
    }
}

/// What the details panel says of a model: its description, else its name
/// (trimmed), else that it has none.
pub open spec fn blurb(m: Model) -> Seq<char> {
    if trim(m.description@).len() > 0 {
        trim(m.description@)
    } else if trim(m.name@).len() > 0 {
        trim(m.name@)
    } else {
        "(no description)"@
    }
}

pub fn model_blurb(m: &Model) -> (r: String)
    ensures
        r@ == blurb(*m),
{
    if !is_trim_empty(m.description.as_str()) {
        trim_str(m.description.as_str())
    } else if !is_trim_empty(m.name.as_str()) {
        trim_str(m.name.as_str())
    } else {
        proof {
            reveal_strlit("(no description)");
        }
        String::from_str("(no description)")
    }
}

/// The bytes of a text in UTF-8.
pub open spec fn blen(s: Seq<char>) -> nat {
    encode_utf8(s).len()
}

/// The words of `s` from position `i` on, `cur` being the word under way:
/// the runs of non-whitespace.
pub open spec fn words_from(s: Seq<char>, i: int, cur: Seq<char>) -> Seq<Seq<char>>
    decreases s.len() - i,
{
    if i >= s.len() {
        if cur.len() == 0 {
            Seq::empty()
        } else {
            seq![cur]
        }
    } else if is_ws(s[i]) {
        (if cur.len() == 0 {
            Seq::empty()
        } else {
            seq![cur]
        }) + words_from(s, i + 1, Seq::empty())
    } else {
        words_from(s, i + 1, cur.push(s[i]))
    }
}

/// The words of `ws` from `i` on packed greedily into lines of at most
/// `width` bytes (a longer word stands alone), `cur` being the line under way.
pub open spec fn packed_from(ws: Seq<Seq<char>>, i: int, cur: Seq<char>, width: nat) -> Seq<Seq<char>>
    decreases ws.len() - i,
{
    if i >= ws.len() {
        if cur.len() == 0 {
            Seq::empty()
        } else {
            seq![cur]
        }
    } else if cur.len() == 0 {
        packed_from(ws, i + 1, ws[i], width)
    } else if blen(cur) + 1 + blen(ws[i]) > width {
        seq![cur] + packed_from(ws, i + 1, ws[i], width)
    } else {
        packed_from(ws, i + 1, cur + seq![' '] + ws[i], width)
    }
}

/// A text wrapped for a panel `width` bytes wide: under ten, the text as it
/// is; otherwise its words, single-spaced, packed greedily.
pub open spec fn wrapped(s: Seq<char>, width: nat) -> Seq<Seq<char>> {
    if width < 10 {
        seq![s]
    } else {
        packed_from(words_from(s, 0, Seq::empty()), 0, Seq::empty(), width)
    }
}

fn byte_len(v: &[char]) -> (n: usize)
    ensures
        n == blen(v@),
{
    let s = string_from_chars(v);
    s.as_str().as_bytes().len()
}

fn split_words(v: &[char]) -> (r: Vec<Vec<char>>)
    ensures
        r@.map_values(|w: Vec<char>| w@) == words_from(v@, 0, Seq::empty()),
{
    let ghost target = words_from(v@, 0, Seq::empty());
    let mut out: Vec<Vec<char>> = Vec::new();
    let mut cur: Vec<char> = Vec::new();
    let mut i: usize = 0;
    proof {
        assert(out@.map_values(|w: Vec<char>| w@) + words_from(v@, 0, cur@) =~= target);
    }
    while i < v.len()
        invariant
            i <= v@.len(),
            out@.map_values(|w: Vec<char>| w@) + words_from(v@, i as int, cur@) == target,
        decreases v@.len() - i,
    {
        let ghost before = out@.map_values(|w: Vec<char>| w@);
        let ghost cur0 = cur@;
        let c = v[i];
        if is_ws_exec(c) {
            if cur.len() > 0 {
                let w = cur;
                out.push(w);
                cur = Vec::new();
                proof {
                    assert(words_from(v@, i as int, cur0) == seq![cur0] + words_from(v@, i + 1, Seq::empty()));
                    assert(out@.map_values(|w: Vec<char>| w@) =~= before + seq![cur0]);
                    assert(before + (seq![cur0] + words_from(v@, i + 1, Seq::empty())) =~= (before
                        + seq![cur0]) + words_from(v@, i + 1, Seq::empty()));
                }
            } else {
                proof {
                    assert(cur@ =~= Seq::<char>::empty());
                    assert(words_from(v@, i as int, cur0) == Seq::<Seq<char>>::empty() + words_from(v@, i + 1, Seq::empty()));
                    assert(Seq::<Seq<char>>::empty() + words_from(v@, i + 1, Seq::empty()) =~= words_from(
                        v@,
                        i + 1,
                        Seq::empty(),
                    ));
                }
            }
        } else {
            cur.push(c);
            proof {
                assert(words_from(v@, i as int, cur0) == words_from(v@, i + 1, cur@));
            }
        }
        i = i + 1;
    }
    let ghost before = out@.map_values(|w: Vec<char>| w@);
    if cur.len() > 0 {
        let ghost cur0 = cur@;
        out.push(cur);
        proof {
            assert(out@.map_values(|w: Vec<char>| w@) =~= before + seq![cur0]);
        }
    } else {
        proof {
            assert(before + Seq::<Seq<char>>::empty() =~= before);
        }
    }
    out
}

fn joined_word(cur: &Vec<char>, w: &Vec<char>) -> (r: Vec<char>)
    ensures
        r@ == cur@ + seq![' '] + w@,
{
    let mut r = cur.clone();
    r.push(' ');
    let mut j: usize = 0;
    while j < w.len()
        invariant
            j <= w@.len(),
            r@ == cur@ + seq![' '] + w@.subrange(0, j as int),
        decreases w@.len() - j,
    {
        r.push(w[j]);
        j = j + 1;
        proof {
            assert(r@ =~= cur@ + seq![' '] + w@.subrange(0, j as int));
        }
    }
    proof {
        assert(w@.subrange(0, w@.len() as int) =~= w@);
    }
    r
}

/// A description wrapped for the details panel (see [`wrapped`]).
pub fn wrap_lines(s: &str, width: usize) -> (r: Vec<String>)
    ensures
        r@.map_values(|l: String| l@) == wrapped(s@, width as nat),
{
    if width < 10 {
        let mut r: Vec<String> = Vec::new();
        r.push(String::from_str(s));
        proof {
            assert(r@.map_values(|l: String| l@) =~= seq![s@]);
        }
        return r;
    }
    let v = str_chars(s);
    let ws = split_words(v.as_slice());
    let ghost wv = ws@.map_values(|w: Vec<char>| w@);
    let ghost target = packed_from(wv, 0, Seq::empty(), width as nat);
    let mut out: Vec<String> = Vec::new();
    let mut cur: Vec<char> = Vec::new();
    let mut i: usize = 0;
    proof {
        assert(out@.map_values(|l: String| l@) + packed_from(wv, 0, cur@, width as nat) =~= target);
    }
    while i < ws.len()
        invariant
            i <= ws@.len(),
            wv == ws@.map_values(|w: Vec<char>| w@),
            width >= 10,
            out@.map_values(|l: String| l@) + packed_from(wv, i as int, cur@, width as nat) == target,
        decreases ws@.len() - i,
    {
        let ghost before = out@.map_values(|l: String| l@);
        let ghost cur0 = cur@;
        assert(wv[i as int] == ws@[i as int]@);
        if cur.len() == 0 {
            cur = ws[i].clone();
        } else {
            let bc = byte_len(cur.as_slice());
            let bw = byte_len(ws[i].as_slice());
            if bc >= width || bw > width - bc - 1 {
                let line = string_from_chars(cur.as_slice());
                out.push(line);
                cur = ws[i].clone();
                proof {
                    assert(out@.map_values(|l: String| l@) =~= before + seq![cur0]);
                    assert(before + (seq![cur0] + packed_from(wv, i + 1, cur@, width as nat)) =~= (before
                        + seq![cur0]) + packed_from(wv, i + 1, cur@, width as nat));
                }
            } else {
                cur = joined_word(&cur, &ws[i]);
            }
        }
        i = i + 1;
    }
    let ghost before = out@.map_values(|l: String| l@);
    if cur.len() > 0 {
        let ghost cur0 = cur@;
        out.push(string_from_chars(cur.as_slice()));
        proof {
            assert(out@.map_values(|l: String| l@) =~= before + seq![cur0]);
        }
    } else {
        proof {
            assert(before + Seq::<Seq<char>>::empty() =~= before);
        }
    }
    out
}

} // verus!
