//! Server-sent-event framing of the backend's chat stream.
//!
//! Events in the byte buffer end with a blank line (`\n\n`, or `\r\n\r\n`
//! when no `\n\n` occurs); the data of an event is the payload of its `data:`
//! lines, joined by newlines.
use crate::text::{
    contains_seq, decode_lossy, has_prefix, occurs_at, utf8_lossy, slice_to_vec, starts_with, str_chars, str_eq,
    string_from_chars, trim, trim_bounds,
};
use vstd::prelude::*;
use vstd::string::StringSliceAdditionalSpecFns;
use vstd::utf8::{decode_utf8, encode_utf8, valid_utf8};

verus! {

/// `i` is where `needle` first occurs in `hay`.
pub open spec fn is_first_occurrence(hay: Seq<u8>, needle: Seq<u8>, i: int) -> bool {
    occurs_at(hay, needle, i) && forall|j: int| 0 <= j < i ==> !occurs_at(hay, needle, j)
}

fn matches_at(hay: &[u8], needle: &[u8], i: usize) -> (r: bool)
    requires
        i + needle@.len() <= hay@.len(),
    ensures
        r == occurs_at(hay@, needle@, i as int),
{
    let hl = hay.len();
    let mut k: usize = 0;
    while k < needle.len()
        invariant
            hl == hay@.len(),
            i + needle@.len() <= hay@.len(),
            k <= needle@.len(),
            forall|m: int| 0 <= m < k ==> hay@[i + m] == needle@[m],
        decreases needle@.len() - k,
    {
        if hay[i + k] != needle[k] {
            assert(hay@.subrange(i as int, i + needle@.len())[k as int] != needle@[k as int]);
            return false;
        }
        k = k + 1;
    }
    assert(hay@.subrange(i as int, i + needle@.len()) =~= needle@);
    true
}

/// The first position of `needle` in `hay` (`windows(..).position(..)`).
pub fn find_subsequence(hay: &[u8], needle: &[u8]) -> (r: Option<usize>)
    requires
        needle@.len() > 0,
    ensures
        match r {
            Some(i) => is_first_occurrence(hay@, needle@, i as int),
            None => !contains_seq(hay@, needle@),
        },
{
    if needle.len() > hay.len() {
        return None;
    }
    let last = hay.len() - needle.len();
    let mut i: usize = 0;
    while i <= last
        invariant
            last + needle@.len() == hay@.len(),
            needle@.len() > 0,
            hay@.len() == hay.len(),
            i <= last + 1,
            forall|j: int| 0 <= j < i ==> !occurs_at(hay@, needle@, j),
        decreases last + 1 - i,
    {
        if matches_at(hay, needle, i) {
            return Some(i);
        }
        i = i + 1;
    }
    None
}

pub open spec fn blank_lf() -> Seq<u8> {
    seq![10u8, 10u8]
}

pub open spec fn blank_crlf() -> Seq<u8> {
    seq![13u8, 10u8, 13u8, 10u8]
}

/// The next complete event of `buf`: its bytes and how many bytes it used up,
/// separator included.
pub open spec fn next_event_ok(buf: Seq<u8>, r: Option<(Seq<u8>, int)>) -> bool {
    match r {
        Some((event, used)) => {
            ||| contains_seq(buf, blank_lf()) && is_first_occurrence(buf, blank_lf(), used - 2)
                && event == buf.subrange(0, used - 2)
            ||| !contains_seq(buf, blank_lf()) && is_first_occurrence(buf, blank_crlf(), used - 4)
                && event == buf.subrange(0, used - 4)
        },
        None => !contains_seq(buf, blank_lf()) && !contains_seq(buf, blank_crlf()),
    }
}

fn bytes_prefix(v: &[u8], n: usize) -> (r: Vec<u8>)
    requires
        n <= v@.len(),
    ensures
        r@ == v@.subrange(0, n as int),
{
    let mut r: Vec<u8> = Vec::new();
    let mut i: usize = 0;
    while i < n
        invariant
            i <= n <= v@.len(),
            r@ == v@.subrange(0, i as int),
        decreases n - i,
    {
        r.push(v[i]);
        i = i + 1;
        assert(r@ == v@.subrange(0, i as int));
    }
    r
}

fn lf_lf() -> (r: Vec<u8>)
    ensures
        r@ == blank_lf(),
{
    let mut r: Vec<u8> = Vec::new();
    r.push(10u8);
    r.push(10u8);
    assert(r@ =~= blank_lf());
    r
}

fn crlf_crlf() -> (r: Vec<u8>)
    ensures
        r@ == blank_crlf(),
{
    let mut r: Vec<u8> = Vec::new();
    r.push(13u8);
    r.push(10u8);
    r.push(13u8);
    r.push(10u8);
    assert(r@ =~= blank_crlf());
    r
}

/// Splits the next complete event off the front of `buf`.
pub fn next_sse_event(buf: &[u8]) -> (r: Option<(Vec<u8>, usize)>)
    ensures
        next_event_ok(
            buf@,
            match r {
                Some((e, n)) => Some((e@, n as int)),
                None => None,
            },
        ),
        r matches Some((e, n)) ==> n <= buf@.len(),
{
    let bl = buf.len();
    let lf = lf_lf();
    if let Some(pos) = find_subsequence(buf, lf.as_slice()) {
        let event = bytes_prefix(buf, pos);
        proof {
            assert(contains_seq(buf@, blank_lf()));
        }
        return Some((event, pos + 2));
    }
    let crlf = crlf_crlf();
    if let Some(pos) = find_subsequence(buf, crlf.as_slice()) {
        let event = bytes_prefix(buf, pos);
        return Some((event, pos + 4));
    }
    None
}

/// The lines of `s`: the pieces between newline characters.
pub open spec fn split_lines(s: Seq<char>) -> Seq<Seq<char>>
    decreases s.len(),
{
    if s.len() == 0 {
        seq![Seq::<char>::empty()]
    } else {
        let p = split_lines(s.drop_last());
        if s.last() == '\n' {
            p.push(Seq::<char>::empty())
        } else {
            p.update(p.len() - 1, p.last().push(s.last()))
        }
    }
}

proof fn lemma_split_lines_nonempty(s: Seq<char>)
    ensures
        split_lines(s).len() >= 1,
    decreases s.len(),
{
    if s.len() > 0 {
        lemma_split_lines_nonempty(s.drop_last());
    }
}

pub open spec fn data_tag() -> Seq<char> {
    seq!['d', 'a', 't', 'a', ':']
}

/// The payload of a `data:` line, trimmed.
pub open spec fn data_payload(line: Seq<char>) -> Option<Seq<char>> {
    let t = trim(line);
    if starts_with(t, data_tag()) {
        Some(trim(t.subrange(5, t.len() as int)))
    } else {
        None
    }
}

/// The payloads of the `data:` lines among `lines`, in order.
pub open spec fn payloads(lines: Seq<Seq<char>>) -> Seq<Seq<char>>
    decreases lines.len(),
{
    if lines.len() == 0 {
        Seq::empty()
    } else {
        let p = payloads(lines.drop_last());
        match data_payload(lines.last()) {
            Some(d) => p.push(d),
            None => p,
        }
    }
}

/// `parts` joined by newline characters.
pub open spec fn join_lines(parts: Seq<Seq<char>>) -> Seq<char>
    decreases parts.len(),
{
    if parts.len() == 0 {
        Seq::empty()
    } else if parts.len() == 1 {
        parts[0]
    } else {
        join_lines(parts.drop_last()).push('\n') + parts.last()
    }
}

/// The data of an event whose text is `s`.
pub open spec fn sse_data(s: Seq<char>) -> Seq<char> {
    join_lines(payloads(split_lines(s)))
}

fn line_payload(line: &[char]) -> (r: Option<Vec<char>>)
    ensures
        match r {
            Some(v) => data_payload(line@) == Some(v@),
            None => data_payload(line@) is None,
        },
{
    let (a, b) = trim_bounds(line);
    let t = slice_to_vec(line, a, b);
    let mut tag: Vec<char> = Vec::new();
    tag.push('d');
    tag.push('a');
    tag.push('t');
    tag.push('a');
    tag.push(':');
    assert(tag@ =~= data_tag());
    if has_prefix(t.as_slice(), tag.as_slice()) {
        let rest = slice_to_vec(t.as_slice(), 5, t.len());
        let (c, d) = trim_bounds(rest.as_slice());
        Some(slice_to_vec(rest.as_slice(), c, d))
    } else {
        None
    }
}

/// Appends `d` to the joined text `out` of `done` payloads.
proof fn lemma_join_push(parts: Seq<Seq<char>>, d: Seq<char>)
    ensures
        join_lines(parts.push(d)) == if parts.len() == 0 {
            d
        } else {
            join_lines(parts).push('\n') + d
        },
{
    assert(parts.push(d).drop_last() =~= parts);
}

/// The data of an event whose text is `s` (its `data:` payloads, joined by newlines).
pub fn sse_data_of_text(s: &str) -> (r: String)
    ensures
        r@ == sse_data(s@),
{
    let v = str_chars(s);
    let n = v.len();
    let mut cur: Vec<char> = Vec::new();
    let mut out: Vec<char> = Vec::new();
    let mut any: bool = false;
    let ghost mut done: Seq<Seq<char>> = Seq::empty();
    let mut i: usize = 0;
    while i < n
        invariant
            n == v@.len(),
            v@ == s@,
            i <= n,
            split_lines(v@.subrange(0, i as int)) == done.push(cur@),
            out@ == join_lines(payloads(done)),
            any == (payloads(done).len() > 0),
        decreases n - i,
    {
        let c = v[i];
        proof {
            assert(v@.subrange(0, i + 1).drop_last() =~= v@.subrange(0, i as int));
            assert(v@.subrange(0, i + 1).last() == c);
        }
        if c == '\n' {
            let ghost before = done;
            let ghost line = cur@;
            match line_payload(cur.as_slice()) {
                Some(d) => {
                    proof {
                        lemma_join_push(payloads(before), d@);
                        assert(before.push(line).drop_last() =~= before);
                    }
                    if any {
                        out.push('\n');
                    }
                    let mut k: usize = 0;
                    let ghost base = out@;
                    while k < d.len()
                        invariant
                            k <= d@.len(),
                            out@ == base + d@.subrange(0, k as int),
                        decreases d@.len() - k,
                    {
                        out.push(d[k]);
                        k = k + 1;
                        assert(out@ == base + d@.subrange(0, k as int));
                    }
                    assert(d@.subrange(0, d@.len() as int) =~= d@);
                    any = true;
                },
                None => {
                    proof {
                        assert(before.push(line).drop_last() =~= before);
                    }
                },
            }
            proof {
                done = before.push(line);
                assert(split_lines(v@.subrange(0, i + 1)) =~= done.push(Seq::<char>::empty()));
            }
            cur = Vec::new();
        } else {
            proof {
                lemma_split_lines_nonempty(v@.subrange(0, i as int));
                assert(split_lines(v@.subrange(0, i + 1)) =~= done.push(cur@.push(c)));
            }
            cur.push(c);
        }
        i = i + 1;
    }
    proof {
        assert(v@.subrange(0, n as int) =~= v@);
    }
    let ghost before = done;
    let ghost line = cur@;
    proof {
        assert(before.push(line).drop_last() =~= before);
    }
    match line_payload(cur.as_slice()) {
        Some(d) => {
            proof {
                lemma_join_push(payloads(before), d@);
            }
            if any {
                out.push('\n');
            }
            let mut k: usize = 0;
            let ghost base = out@;
            while k < d.len()
                invariant
                    k <= d@.len(),
                    out@ == base + d@.subrange(0, k as int),
                decreases d@.len() - k,
            {
                out.push(d[k]);
                k = k + 1;
                assert(out@ == base + d@.subrange(0, k as int));
            }
            assert(d@.subrange(0, d@.len() as int) =~= d@);
        },
        None => {},
    }
    string_from_chars(out.as_slice())
}

/// The data of an event given as bytes (decoded leniently, see
/// [`utf8_lossy`]).
pub fn extract_sse_data(event: &[u8]) -> (r: String)
    ensures
        r@ == sse_data(utf8_lossy(event@)),
        valid_utf8(event@) ==> r@ == sse_data(decode_utf8(event@)),
{
    let text = decode_lossy(event);
    sse_data_of_text(text.as_str())
}

/// Removes the next complete event from the front of `buf` and returns its
/// data; `None`, with `buf` untouched, while no event is complete.
pub fn take_event(buf: &mut Vec<u8>) -> (r: Option<String>)
    ensures
        match r {
            Some(d) => exists|used: int, event: Seq<u8>|
                #![auto]
                next_event_ok(old(buf)@, Some((event, used))) && final(buf)@ == old(buf)@.subrange(
                    used,
                    old(buf)@.len() as int,
                ) && d@ == sse_data(utf8_lossy(event)),
            None => next_event_ok(old(buf)@, None) && final(buf)@ == old(buf)@,
        },
{
    match next_sse_event(buf.as_slice()) {
        Some((event, used)) => {
            let data = extract_sse_data(event.as_slice());
            let mut rest: Vec<u8> = Vec::new();
            let mut i: usize = used;
            while i < buf.len()
                invariant
                    used <= i <= buf@.len(),
                    rest@ == buf@.subrange(used as int, i as int),
                decreases buf@.len() - i,
            {
                rest.push(buf[i]);
                i = i + 1;
                assert(rest@ == buf@.subrange(used as int, i as int));
            }
            let ghost old_buf = buf@;
            *buf = rest;
            proof {
                assert(next_event_ok(old_buf, Some((event@, used as int))));
            }
            Some(data)
        },
        None => None,
    }
}

/// How the data of one event is handled.
#[derive(Debug, Clone, Copy, PartialEq, Eq, Structural)]
pub enum SseData {
    /// Nothing but whitespace: skipped.
    Blank,
    /// The `[DONE]` marker: the stream ends.
    Done,
    /// A chunk to forward.
    Chunk,
}

pub open spec fn done_marker() -> Seq<char> {
    seq!['[', 'D', 'O', 'N', 'E', ']']
}

pub open spec fn spec_classify(data: Seq<char>) -> SseData {
    if trim(data).len() == 0 {
        SseData::Blank
    } else if trim(data) == done_marker() {
        SseData::Done
    } else {
        SseData::Chunk
    }
}

pub fn classify_sse_data(data: &str) -> (r: SseData)
    ensures
        r == spec_classify(data@),
{
    let t = trim_chars_of(data);
    if t.len() == 0 {
        return SseData::Blank;
    }
    let mut marker: Vec<char> = Vec::new();
    marker.push('[');
    marker.push('D');
    marker.push('O');
    marker.push('N');
    marker.push('E');
    marker.push(']');
    assert(marker@ =~= done_marker());
    if crate::text::chars_eq(t.as_slice(), marker.as_slice()) {
        SseData::Done
    } else {
        SseData::Chunk
    }
}

fn trim_chars_of(s: &str) -> (r: Vec<char>)
    ensures
        r@ == trim(s@),
{
    crate::text::trim_chars(s)
}

/// The bytes sent downstream for one chunk: `data: `, the chunk, a blank line.
pub open spec fn framed(chunk: Seq<char>) -> Seq<u8> {
    seq![100u8, 97u8, 116u8, 97u8, 58u8, 32u8] + encode_utf8(chunk) + seq![10u8, 10u8]
}

pub fn frame_chunk(chunk: &str) -> (r: Vec<u8>)
    ensures
        r@ == framed(chunk@),
{
    let mut out: Vec<u8> = Vec::new();
    out.push(100u8);
    out.push(97u8);
    out.push(116u8);
    out.push(97u8);
    out.push(58u8);
    out.push(32u8);
    let bytes = chunk.as_bytes();
    let ghost base = out@;
    let mut i: usize = 0;
    while i < bytes.len()
        invariant
            i <= bytes@.len(),
            bytes@ == encode_utf8(chunk@),
            out@ == base + bytes@.subrange(0, i as int),
        decreases bytes@.len() - i,
    {
        out.push(bytes[i]);
        i = i + 1;
        assert(out@ == base + bytes@.subrange(0, i as int));
    }
    assert(bytes@.subrange(0, bytes@.len() as int) =~= bytes@);
    out.push(10u8);
    out.push(10u8);
    assert(out@ =~= framed(chunk@));
    out
}

/// The frame that ends every stream: `data: [DONE]` and a blank line.
pub fn done_frame() -> (r: Vec<u8>)
    ensures
        r@ == framed(done_marker()),
{
    let mut s: Vec<char> = Vec::new();
    s.push('[');
    s.push('D');
    s.push('O');
    s.push('N');
    s.push('E');
    s.push(']');
    let t = string_from_chars(s.as_slice());
    proof {
        assert(s@ =~= done_marker());
    }
    frame_chunk(t.as_str())
}

/// What to do with the assistant's text when the stream ends.
#[derive(Debug, Clone, Copy, PartialEq, Eq, Structural)]
pub enum PersistStep {
    /// It was saved (or given up on) before.
    AlreadyHandled,
    /// It is blank: nothing is saved.
    NothingToSave,
    /// It is saved as the assistant's message.
    Append,
}

pub open spec fn spec_persist_step(persisted: bool, content: Seq<char>) -> PersistStep {
    if persisted {
        PersistStep::AlreadyHandled
    } else if trim(content).len() == 0 {
        PersistStep::NothingToSave
    } else {
        PersistStep::Append
    }
}

/// Decides whether the streamed text is saved, and marks it handled.
pub fn persist_step(persisted: &mut bool, content: &str) -> (r: PersistStep)
    ensures
        *final(persisted),
        r == spec_persist_step(*old(persisted), content@),
{
    if *persisted {
        return PersistStep::AlreadyHandled;
    }
    *persisted = true;
    if trim_chars_of(content).len() == 0 {
        PersistStep::NothingToSave
    } else {
        PersistStep::Append
    }
}

/// The streamed text is saved at most once: after any decision, every later
/// decision on the same stream is `AlreadyHandled`.
pub proof fn law_persist_at_most_once(later: Seq<char>)
    ensures
        spec_persist_step(true, later) == PersistStep::AlreadyHandled,
{
}

/// An event written as its bytes and a blank line is read back whole, and
/// what follows it stays in the buffer: for any event without a blank line
/// of its own (and not ending in a newline).
pub proof fn law_event_read_back(event: Seq<u8>, rest: Seq<u8>)
    requires
        !contains_seq(event.push(10u8), blank_lf()),
    ensures
        next_event_ok(event + blank_lf() + rest, Some((event, event.len() + 2int))),
{
    let buf = event + blank_lf() + rest;
    let n = event.len() as int;
    assert(buf.subrange(n, n + 2) =~= blank_lf());
    assert(occurs_at(buf, blank_lf(), n));
    assert forall|j: int| 0 <= j < n implies !occurs_at(buf, blank_lf(), j) by {
        if occurs_at(buf, blank_lf(), j) {
            let e = event.push(10u8);
            assert(buf.subrange(j, j + 2) == blank_lf());
            assert(buf[j] == 10u8 && buf[j + 1] == 10u8) by {
                assert(buf.subrange(j, j + 2)[0] == buf[j]);
                assert(buf.subrange(j, j + 2)[1] == buf[j + 1]);
            }
            assert(e[j] == buf[j]);
            assert(e[j + 1] == buf[j + 1]);
            assert(e.subrange(j, j + 2) =~= blank_lf());
            assert(occurs_at(e, blank_lf(), j));
        }
    }
    assert(buf.subrange(0, n) =~= event);
}

} // verus!
