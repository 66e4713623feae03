//! The waitlist and the whitelist: append-only lists of e-mail records, one per
//! line of a file, compared without regard to ASCII case.
use crate::text::{ascii_lower, chars_eq, eq_ignore_case, lower_chars, trim, trim_chars};
use vstd::prelude::*;

verus! {

#[derive(Debug)]
pub struct WaitlistRecord {
    pub email: String,
    pub created_at: i64,
}

impl Clone for WaitlistRecord {
    fn clone(&self) -> (r: Self)
        ensures
            r == *self,
    {
        WaitlistRecord { email: self.email.clone(), created_at: self.created_at }
    }
}

/// One line of a list file: a record, or a line that did not decode as one
/// (kept as it is).
#[derive(Debug)]
pub enum ListLine {
    Record(WaitlistRecord),
    Other(String),
}

impl Clone for ListLine {
    fn clone(&self) -> (r: Self)
        ensures
            r == *self,
    {
        match self {
            ListLine::Record(rec) => ListLine::Record(rec.clone()),
            ListLine::Other(s) => ListLine::Other(s.clone()),
        }
    }
}

/// The lines of one list file.
#[derive(Debug)]
pub struct EmailList {
    pub lines: Vec<ListLine>,
}

/// The line is a record of `target` (a trimmed address), ignoring ASCII case.
pub open spec fn line_matches(l: ListLine, target: Seq<char>) -> bool {
    match l {
        ListLine::Record(r) => eq_ignore_case(trim(r.email@), target),
        ListLine::Other(_) => false,
    }
}

/// The list holds `email`: its trimmed form is non-empty and some record matches it.
pub open spec fn spec_has(lines: Seq<ListLine>, email: Seq<char>) -> bool {
    trim(email).len() > 0 && exists|i: int|
        0 <= i < lines.len() && #[trigger] line_matches(lines[i], trim(email))
}

/// `new` is `old` after adding `email` at time `now`: unchanged when the
/// trimmed address is empty or already listed, else one record appended.
pub open spec fn spec_added(old: Seq<ListLine>, new: Seq<ListLine>, email: Seq<char>, now: i64) -> bool {
    if trim(email).len() == 0 || spec_has(old, email) {
        new == old
    } else {
        &&& new.len() == old.len() + 1
        &&& new.subrange(0, old.len() as int) == old
        &&& new.last() matches ListLine::Record(r)
        &&& r.email@ == trim(email)
        &&& r.created_at == now
    }
}

/// `new` is `old` without the records of `email`; unchanged for a blank address.
pub open spec fn spec_removed(old: Seq<ListLine>, new: Seq<ListLine>, email: Seq<char>) -> bool {
    if trim(email).len() == 0 {
        new == old
    } else {
        new == old.filter(|l: ListLine| !line_matches(l, trim(email)))
    }
}

/// A record line with a non-blank address.
pub open spec fn valid_line(l: ListLine) -> bool {
    l matches ListLine::Record(r) && trim(r.email@).len() > 0
}

pub open spec fn line_rec(l: ListLine) -> WaitlistRecord
    recommends
        l is Record,
{
    match l {
        ListLine::Record(r) => r,
        ListLine::Other(_) => arbitrary(),
    }
}

/// The case-folded address a record is listed under.
pub open spec fn rec_key(r: WaitlistRecord) -> Seq<char> {
    ascii_lower(trim(r.email@))
}

/// Line `i` is the record kept for its address: no other record of that
/// address is older, and none of the same age comes before it.
pub open spec fn is_rep(lines: Seq<ListLine>, i: int) -> bool {
    &&& 0 <= i < lines.len()
    &&& valid_line(lines[i])
    &&& forall|j: int|
        0 <= j < lines.len() && valid_line(#[trigger] lines[j]) && rec_key(line_rec(lines[j]))
            == rec_key(line_rec(lines[i])) ==> line_rec(lines[i]).created_at < line_rec(
            lines[j],
        ).created_at || (line_rec(lines[i]).created_at == line_rec(lines[j]).created_at && i <= j)
}

/// `r` is the kept record of some address.
pub open spec fn from_rep(lines: Seq<ListLine>, r: WaitlistRecord) -> bool {
    exists|i: int| #![trigger is_rep(lines, i)] is_rep(lines, i) && r == line_rec(lines[i])
}

/// The address `k` is listed.
pub open spec fn key_listed(lines: Seq<ListLine>, k: Seq<char>) -> bool {
    exists|i: int| 0 <= i < lines.len() && valid_line(lines[i]) && #[trigger] rec_key(line_rec(lines[i])) == k
}

/// `out` is what `list` gives: one record per listed address (the record kept
/// for it), oldest first.
pub open spec fn spec_listed(lines: Seq<ListLine>, out: Seq<WaitlistRecord>) -> bool {
    &&& forall|a: int, b: int|
        0 <= a < b < out.len() ==> (#[trigger] out[a]).created_at <= (#[trigger] out[b]).created_at
    &&& forall|a: int|
        0 <= a < out.len() ==> from_rep(lines, #[trigger] out[a])
    &&& forall|a: int, b: int|
        0 <= a < b < out.len() ==> rec_key(#[trigger] out[a]) != rec_key(#[trigger] out[b])
    &&& forall|k: Seq<char>|
        key_listed(lines, k) ==> exists|a: int| 0 <= a < out.len() && #[trigger] rec_key(out[a]) == k
}

fn rec_key_exec(r: &WaitlistRecord) -> (k: Vec<char>)
    ensures
        k@ == rec_key(*r),
{
    let t = trim_chars(r.email.as_str());
    lower_chars(t.as_slice())
}

fn line_matches_exec(l: &ListLine, target: &[char]) -> (b: bool)
    ensures
        b == line_matches(*l, target@),
{
    match l {
        ListLine::Record(r) => {
            let t = trim_chars(r.email.as_str());
            let a = lower_chars(t.as_slice());
            let b = lower_chars(target);
            chars_eq(a.as_slice(), b.as_slice())
        },
        ListLine::Other(_) => false,
    }
}

pub proof fn lemma_filter_push<A>(s: Seq<A>, pred: spec_fn(A) -> bool, e: A)
    ensures
        pred(e) ==> s.push(e).filter(pred) == s.filter(pred).push(e),
        !pred(e) ==> s.push(e).filter(pred) == s.filter(pred),
{
    reveal(Seq::filter);
    assert(s.push(e).drop_last() == s);
}

pub proof fn lemma_filter_all<A>(s: Seq<A>, pred: spec_fn(A) -> bool, e: A)
    ensures
        s.filter(pred).contains(e) ==> pred(e),
    decreases s.len(),
{
    reveal(Seq::filter);
    if s.len() > 0 {
        lemma_filter_all(s.drop_last(), pred, e);
    }
}

impl EmailList {
    pub fn new() -> (l: Self)
        ensures
            l.lines@.len() == 0,
    {
        EmailList { lines: Vec::new() }
    }

    pub fn has(&self, email: &str) -> (b: bool)
        ensures
            b == spec_has(self.lines@, email@),
    {
        let target = trim_chars(email);
        if target.len() == 0 {
            return false;
        }
        let mut i: usize = 0;
        while i < self.lines.len()
            invariant
                i <= self.lines@.len(),
                target@ == trim(email@),
                target@.len() > 0,
                forall|k: int| 0 <= k < i ==> !line_matches(#[trigger] self.lines@[k], target@),
            decreases self.lines@.len() - i,
        {
            if line_matches_exec(&self.lines[i], target.as_slice()) {
                proof {
                    assert(line_matches(self.lines@[i as int], trim(email@)));
                    assert(spec_has(self.lines@, email@));
                }
                return true;
            }
            i = i + 1;
        }
        false
    }

    /// Adds `email` (trimmed) stamped `now`, unless it is blank or already listed.
    pub fn add(&mut self, email: &str, now: i64)
        ensures
            spec_added(old(self).lines@, final(self).lines@, email@, now),
    {
        let e = trim_chars(email);
        if e.len() == 0 {
            return;
        }
        if self.has(email) {
            return;
        }
        let rec = WaitlistRecord { email: crate::text::string_from_chars(e.as_slice()), created_at: now };
        self.lines.push(ListLine::Record(rec));
        assert(self.lines@.subrange(0, old(self).lines@.len() as int) == old(self).lines@);
    }

    /// Removes every record of `email`; other lines stay in order.
    pub fn remove(&mut self, email: &str)
        ensures
            spec_removed(old(self).lines@, final(self).lines@, email@),
    {
        let target = trim_chars(email);
        if target.len() == 0 {
            return;
        }
        let ghost pred = |l: ListLine| !line_matches(l, trim(email@));
        let mut kept: Vec<ListLine> = Vec::new();
        let mut i: usize = 0;
        while i < self.lines.len()
            invariant
                i <= self.lines@.len(),
                target@ == trim(email@),
                pred == (|l: ListLine| !line_matches(l, trim(email@))),
                kept@ == self.lines@.subrange(0, i as int).filter(pred),
            decreases self.lines@.len() - i,
        {
            let l = self.lines[i].clone();
            proof {
                lemma_filter_push(self.lines@.subrange(0, i as int), pred, l);
                assert(self.lines@.subrange(0, i as int).push(l) == self.lines@.subrange(
                    0,
                    i + 1,
                ));
            }
            if !line_matches_exec(&l, target.as_slice()) {
                kept.push(l);
            }
            i = i + 1;
        }
        assert(self.lines@.subrange(0, self.lines@.len() as int) == self.lines@);
        self.lines = kept;
    }

    /// One record per listed address, the oldest of each, oldest first.
    pub fn list(&self) -> (out: Vec<WaitlistRecord>)
        ensures
            spec_listed(self.lines@, out@),
    {
        let deduped = self.dedupe();
        sort_by_created(&deduped, Ghost(self.lines@))
    }

    /// The kept record of every listed address, in no particular order.
    fn dedupe(&self) -> (out: Vec<WaitlistRecord>)
        ensures
            forall|a: int|
                0 <= a < out@.len() ==> from_rep(self.lines@, #[trigger] out@[a]),
            forall|a: int, b: int|
                0 <= a < b < out@.len() ==> rec_key(#[trigger] out@[a]) != rec_key(
                    #[trigger] out@[b],
                ),
            forall|k: Seq<char>|
                key_listed(self.lines@, k) ==> exists|a: int|
                    0 <= a < out@.len() && #[trigger] rec_key(out@[a]) == k,
    {
        let ghost lines = self.lines@;
        let mut out: Vec<WaitlistRecord> = Vec::new();
        let mut keys: Vec<Vec<char>> = Vec::new();
        let ghost mut src: Seq<int> = Seq::empty();
        let mut i: usize = 0;
        while i < self.lines.len()
            invariant
                lines == self.lines@,
                i <= lines.len(),
                out@.len() == keys@.len(),
                out@.len() == src.len(),
                forall|a: int| 0 <= a < keys@.len() ==> (#[trigger] keys@[a])@ == rec_key(out@[a]),
                forall|a: int|
                    0 <= a < src.len() ==> 0 <= #[trigger] src[a] < i && is_rep(
                        lines.subrange(0, i as int),
                        src[a],
                    ) && out@[a] == line_rec(lines[src[a]]),
                forall|a: int, b: int|
                    0 <= a < b < out@.len() ==> rec_key(#[trigger] out@[a]) != rec_key(
                        #[trigger] out@[b],
                    ),
                forall|j: int|
                    0 <= j < i && valid_line(#[trigger] lines[j]) ==> exists|a: int|
                        0 <= a < out@.len() && rec_key(out@[a]) == rec_key(line_rec(lines[j])),
            decreases lines.len() - i,
        {
            let ghost old_out = out@;
            let ghost old_src = src;
            let ghost old_keys = keys@;
            proof {
                assert forall|a: int| 0 <= a < old_src.len() && !(valid_line(lines[i as int])
                    && rec_key(line_rec(lines[old_src[a]])) == rec_key(
                    line_rec(lines[i as int]),
                )) implies is_rep(lines.subrange(0, i + 1), #[trigger] old_src[a]) by {
                    lemma_rep_preserved(lines, i as int, old_src[a]);
                }
            }
            let mut handled = false;
            match &self.lines[i] {
                ListLine::Record(r) => {
                    let t = trim_chars(r.email.as_str());
                    if t.len() > 0 {
                        handled = true;
                        let k = rec_key_exec(r);
                        let found = find_key(&keys, k.as_slice());
                        match found {
                            None => {
                                proof {
                                    assert forall|j: int|
                                        0 <= j < i && valid_line(#[trigger] lines[j]) implies rec_key(
                                        line_rec(lines[j]),
                                    ) != rec_key(line_rec(lines[i as int])) by {
                                        if rec_key(line_rec(lines[j])) == rec_key(
                                            line_rec(lines[i as int]),
                                        ) {
                                            let w = choose|w: int|
                                                0 <= w < old_out.len() && rec_key(old_out[w])
                                                    == rec_key(line_rec(lines[j]));
                                            assert(old_keys[w]@ == rec_key(old_out[w]));
                                        }
                                    }
                                    lemma_rep_new(lines, i as int);
                                }
                                out.push(r.clone());
                                keys.push(k);
                                proof {
                                    src = src.push(i as int);
                                    assert forall|a: int, b: int|
                                        0 <= a < b < out@.len() implies rec_key(
                                        #[trigger] out@[a],
                                    ) != rec_key(#[trigger] out@[b]) by {
                                        if b == out@.len() - 1 {
                                            assert(old_keys[a]@ == rec_key(old_out[a]));
                                        }
                                    }
                                    assert forall|a: int|
                                        0 <= a < src.len() implies 0 <= #[trigger] src[a] < i + 1
                                        && is_rep(lines.subrange(0, i + 1), src[a]) && out@[a]
                                        == line_rec(lines[src[a]]) by {
                                        if a < old_src.len() {
                                            assert(old_keys[a]@ == rec_key(old_out[a]));
                                        }
                                    }
                                    assert forall|j: int|
                                        0 <= j < i + 1 && valid_line(#[trigger] lines[j]) implies exists|
                                        a: int,
                                    |
                                        0 <= a < out@.len() && rec_key(out@[a]) == rec_key(
                                            line_rec(lines[j]),
                                        ) by {
                                        if j == i {
                                            assert(rec_key(out@[out@.len() - 1]) == rec_key(
                                                line_rec(lines[j]),
                                            ));
                                        } else {
                                            let w = choose|w: int|
                                                0 <= w < old_out.len() && rec_key(old_out[w])
                                                    == rec_key(line_rec(lines[j]));
                                            assert(out@[w] == old_out[w]);
                                        }
                                    }
                                }
                            },
                            Some(fa) => {
                                let ghost s0 = old_src[fa as int];
                                proof {
                                    assert(old_keys[fa as int]@ == k@);
                                    assert forall|a: int|
                                        0 <= a < old_src.len() && a != fa implies is_rep(
                                        lines.subrange(0, i + 1),
                                        #[trigger] old_src[a],
                                    ) by {
                                        assert(old_keys[a]@ == rec_key(old_out[a]));
                                        if a < fa {
                                            assert(rec_key(old_out[a]) != rec_key(
                                                old_out[fa as int],
                                            ));
                                        } else {
                                            assert(rec_key(old_out[fa as int]) != rec_key(
                                                old_out[a],
                                            ));
                                        }
                                    }
                                }
                                if r.created_at < out[fa].created_at {
                                    proof {
                                        lemma_rep_replace(lines, i as int, s0);
                                    }
                                    out.set(fa, r.clone());
                                    proof {
                                        src = src.update(fa as int, i as int);
                                    }
                                } else {
                                    proof {
                                        lemma_rep_keep(lines, i as int, s0);
                                    }
                                }
                                proof {
                                    assert(rec_key(out@[fa as int]) == k@);
                                    assert forall|a: int|
                                        0 <= a < keys@.len() implies (#[trigger] keys@[a])@
                                        == rec_key(out@[a]) by {
                                        if a != fa {
                                            assert(out@[a] == old_out[a]);
                                        }
                                    }
                                    assert forall|a: int, b: int|
                                        0 <= a < b < out@.len() implies rec_key(
                                        #[trigger] out@[a],
                                    ) != rec_key(#[trigger] out@[b]) by {
                                        assert(rec_key(out@[a]) == rec_key(old_out[a]));
                                        assert(rec_key(out@[b]) == rec_key(old_out[b]));
                                    }
                                    assert forall|a: int|
                                        0 <= a < src.len() implies 0 <= #[trigger] src[a] < i + 1
                                        && is_rep(lines.subrange(0, i + 1), src[a]) && out@[a]
                                        == line_rec(lines[src[a]]) by {
                                        if a != fa {
                                            assert(src[a] == old_src[a]);
                                            assert(out@[a] == old_out[a]);
                                        }
                                    }
                                    assert forall|j: int|
                                        0 <= j < i + 1 && valid_line(#[trigger] lines[j]) implies exists|
                                        a: int,
                                    |
                                        0 <= a < out@.len() && rec_key(out@[a]) == rec_key(
                                            line_rec(lines[j]),
                                        ) by {
                                        if j == i {
                                            assert(rec_key(out@[fa as int]) == rec_key(
                                                line_rec(lines[j]),
                                            ));
                                        } else {
                                            let w = choose|w: int|
                                                0 <= w < old_out.len() && rec_key(old_out[w])
                                                    == rec_key(line_rec(lines[j]));
                                            assert(rec_key(out@[w]) == rec_key(old_out[w]));
                                        }
                                    }
                                }
                            },
                        }
                    }
                },
                ListLine::Other(_) => {},
            }
            proof {
                if !handled {
                    assert(!valid_line(lines[i as int]));
                    assert forall|a: int|
                        0 <= a < src.len() implies 0 <= #[trigger] src[a] < i + 1 && is_rep(
                        lines.subrange(0, i + 1),
                        src[a],
                    ) && out@[a] == line_rec(lines[src[a]]) by {}
                }
            }
            i = i + 1;
        }
        proof {
            assert(lines.subrange(0, lines.len() as int) == lines);
            assert forall|a: int| 0 <= a < out@.len() implies from_rep(lines, #[trigger] out@[a]) by {
                assert(0 <= src[a] < lines.len());
                assert(is_rep(lines.subrange(0, lines.len() as int), src[a]));
                assert(is_rep(lines, src[a]));
                assert(out@[a] == line_rec(lines[src[a]]));
            }
            assert forall|k: Seq<char>| key_listed(lines, k) implies exists|a: int|
                0 <= a < out@.len() && #[trigger] rec_key(out@[a]) == k by {
                let j = choose|j: int|
                    0 <= j < lines.len() && valid_line(lines[j]) && #[trigger] rec_key(
                        line_rec(lines[j]),
                    ) == k;
                assert(valid_line(lines[j]));
            }
        }
        out
    }
}

/// Line `i` leaves the kept record `s` of the lines before it in place when it
/// is not a valid record of the same address.
pub proof fn lemma_rep_preserved(lines: Seq<ListLine>, i: int, s: int)
    requires
        0 <= i < lines.len(),
        is_rep(lines.subrange(0, i), s),
        !(valid_line(lines[i]) && rec_key(line_rec(lines[s])) == rec_key(line_rec(lines[i]))),
    ensures
        is_rep(lines.subrange(0, i + 1), s),
{
    let pre = lines.subrange(0, i);
    let post = lines.subrange(0, i + 1);
    assert(post[s] == pre[s]);
    assert forall|j: int|
        0 <= j < post.len() && valid_line(#[trigger] post[j]) && rec_key(line_rec(post[j])) == rec_key(
            line_rec(post[s]),
        ) implies line_rec(post[s]).created_at < line_rec(post[j]).created_at || (line_rec(
        post[s],
    ).created_at == line_rec(post[j]).created_at && s <= j) by {
        if j < i {
            assert(post[j] == pre[j]);
        }
    }
}

/// A valid record whose address no earlier line has is kept.
pub proof fn lemma_rep_new(lines: Seq<ListLine>, i: int)
    requires
        0 <= i < lines.len(),
        valid_line(lines[i]),
        forall|j: int|
            0 <= j < i && valid_line(#[trigger] lines[j]) ==> rec_key(line_rec(lines[j])) != rec_key(
                line_rec(lines[i]),
            ),
    ensures
        is_rep(lines.subrange(0, i + 1), i),
{
    let post = lines.subrange(0, i + 1);
    assert forall|j: int|
        0 <= j < post.len() && valid_line(#[trigger] post[j]) && rec_key(line_rec(post[j])) == rec_key(
            line_rec(post[i]),
        ) implies j == i by {
        if j < i {
            assert(post[j] == lines[j]);
        }
    }
}

/// A strictly older record of the same address replaces the kept one.
pub proof fn lemma_rep_replace(lines: Seq<ListLine>, i: int, s: int)
    requires
        0 <= i < lines.len(),
        is_rep(lines.subrange(0, i), s),
        valid_line(lines[i]),
        rec_key(line_rec(lines[s])) == rec_key(line_rec(lines[i])),
        line_rec(lines[i]).created_at < line_rec(lines[s]).created_at,
    ensures
        is_rep(lines.subrange(0, i + 1), i),
{
    let pre = lines.subrange(0, i);
    let post = lines.subrange(0, i + 1);
    assert(pre[s] == lines[s]);
    assert forall|j: int|
        0 <= j < post.len() && valid_line(#[trigger] post[j]) && rec_key(line_rec(post[j])) == rec_key(
            line_rec(post[i]),
        ) implies line_rec(post[i]).created_at < line_rec(post[j]).created_at || (line_rec(
        post[i],
    ).created_at == line_rec(post[j]).created_at && i <= j) by {
        if j < i {
            assert(post[j] == pre[j]);
        }
    }
}

/// A record that is not strictly older leaves the kept one in place.
pub proof fn lemma_rep_keep(lines: Seq<ListLine>, i: int, s: int)
    requires
        0 <= i < lines.len(),
        is_rep(lines.subrange(0, i), s),
        valid_line(lines[i]),
        rec_key(line_rec(lines[s])) == rec_key(line_rec(lines[i])),
        line_rec(lines[s]).created_at <= line_rec(lines[i]).created_at,
    ensures
        is_rep(lines.subrange(0, i + 1), s),
{
    let pre = lines.subrange(0, i);
    let post = lines.subrange(0, i + 1);
    assert(pre[s] == lines[s]);
    assert(post[s] == lines[s]);
    assert forall|j: int|
        0 <= j < post.len() && valid_line(#[trigger] post[j]) && rec_key(line_rec(post[j])) == rec_key(
            line_rec(post[s]),
        ) implies line_rec(post[s]).created_at < line_rec(post[j]).created_at || (line_rec(
        post[s],
    ).created_at == line_rec(post[j]).created_at && s <= j) by {
        if j < i {
            assert(post[j] == pre[j]);
        }
    }
}

/// The position of `k` among `keys`.
fn find_key(keys: &Vec<Vec<char>>, k: &[char]) -> (r: Option<usize>)
    ensures
        match r {
            Some(a) => a < keys@.len() && keys@[a as int]@ == k@,
            None => forall|b: int| 0 <= b < keys@.len() ==> (#[trigger] keys@[b])@ != k@,
        },
{
    let mut a: usize = 0;
    while a < keys.len()
        invariant
            a <= keys@.len(),
            forall|b: int| 0 <= b < a ==> (#[trigger] keys@[b])@ != k@,
        decreases keys@.len() - a,
    {
        if chars_eq(keys[a].as_slice(), k) {
            return Some(a);
        }
        a = a + 1;
    }
    None
}

/// Orders records by creation time (stable insertion).
fn sort_by_created(v: &Vec<WaitlistRecord>, Ghost(lines): Ghost<Seq<ListLine>>) -> (out: Vec<
    WaitlistRecord,
>)
    requires
        forall|a: int|
            0 <= a < v@.len() ==> from_rep(lines, #[trigger] v@[a]),
        forall|a: int, b: int|
            0 <= a < b < v@.len() ==> rec_key(#[trigger] v@[a]) != rec_key(#[trigger] v@[b]),
        forall|k: Seq<char>|
            key_listed(lines, k) ==> exists|a: int|
                0 <= a < v@.len() && #[trigger] rec_key(v@[a]) == k,
    ensures
        spec_listed(lines, out@),
{
    let mut out: Vec<WaitlistRecord> = Vec::new();
    let ghost mut perm: Seq<int> = Seq::empty();
    let mut n: usize = 0;
    while n < v.len()
        invariant
            n <= v@.len(),
            out@.len() == n,
            perm.len() == n,
            forall|a: int| 0 <= a < n ==> 0 <= #[trigger] perm[a] < n && out@[a] == v@[perm[a]],
            forall|a: int, b: int| 0 <= a < b < n ==> #[trigger] perm[a] != #[trigger] perm[b],
            forall|a: int, b: int|
                0 <= a < b < out@.len() ==> (#[trigger] out@[a]).created_at <= (
                #[trigger] out@[b]).created_at,
        decreases v@.len() - n,
    {
        let x = v[n].clone();
        let mut p: usize = out.len();
        while p > 0 && out[p - 1].created_at > x.created_at
            invariant
                p <= out@.len(),
                forall|a: int| p <= a < out@.len() ==> (#[trigger] out@[a]).created_at > x.created_at,
            decreases p,
        {
            p = p - 1;
        }
        let ghost old_out = out@;
        out.insert(p, x);
        proof {
            let old_perm = perm;
            perm = perm.insert(p as int, n as int);
            assert forall|a: int| 0 <= a < n + 1 implies 0 <= #[trigger] perm[a] < n + 1
                && out@[a] == v@[perm[a]] by {
                if a < p {
                    assert(perm[a] == old_perm[a]);
                } else if a > p {
                    assert(perm[a] == old_perm[a - 1]);
                }
            }
            assert forall|a: int, b: int| 0 <= a < b < n + 1 implies #[trigger] perm[a]
                != #[trigger] perm[b] by {
                if a < p && b < p {
                } else if a < p && b == p {
                } else if a < p && b > p {
                    assert(perm[b] == old_perm[b - 1]);
                } else if a == p {
                    assert(perm[b] == old_perm[b - 1]);
                } else {
                    assert(perm[a] == old_perm[a - 1]);
                    assert(perm[b] == old_perm[b - 1]);
                }
            }
            assert forall|a: int, b: int| 0 <= a < b < out@.len() implies (
            #[trigger] out@[a]).created_at <= (#[trigger] out@[b]).created_at by {
                if b < p {
                    assert(out@[a] == old_out[a]);
                    assert(out@[b] == old_out[b]);
                } else if b == p {
                    assert(out@[a] == old_out[a]);
                    if p > 0 {
                        assert(old_out[p - 1].created_at <= x.created_at);
                        if a < p - 1 {
                            assert(old_out[a].created_at <= old_out[p - 1].created_at);
                        }
                    }
                } else if a == p {
                    assert(out@[b] == old_out[b - 1]);
                } else if a < p {
                    assert(out@[a] == old_out[a]);
                    assert(out@[b] == old_out[b - 1]);
                    assert(old_out[p as int].created_at > x.created_at);
                    if b - 1 > p {
                        assert(old_out[p as int].created_at <= old_out[b - 1].created_at);
                    }
                    if a < p - 1 || a == p - 1 {
                    }
                    assert(old_out[a].created_at <= old_out[b - 1].created_at);
                } else {
                    assert(out@[a] == old_out[a - 1]);
                    assert(out@[b] == old_out[b - 1]);
                }
            }
        }
        n = n + 1;
    }
    proof {
        // `perm` is a bijection of 0..n, so every input record appears.
        lemma_injective_covers(perm, n as int);
        assert forall|a: int| 0 <= a < out@.len() implies from_rep(lines, #[trigger] out@[a]) by {
            assert(out@[a] == v@[perm[a]]);
        }
        assert forall|a: int, b: int| 0 <= a < b < out@.len() implies rec_key(#[trigger] out@[a])
            != rec_key(#[trigger] out@[b]) by {
            let pa = perm[a];
            let pb = perm[b];
            if pa < pb {
                assert(rec_key(v@[pa]) != rec_key(v@[pb]));
            } else {
                assert(rec_key(v@[pb]) != rec_key(v@[pa]));
            }
        }
        assert forall|k: Seq<char>| key_listed(lines, k) implies exists|a: int|
            0 <= a < out@.len() && #[trigger] rec_key(out@[a]) == k by {
            let w = choose|w: int| 0 <= w < v@.len() && #[trigger] rec_key(v@[w]) == k;
            assert(perm.contains(w));
            let a = choose|a: int| 0 <= a < perm.len() && perm[a] == w;
            assert(out@[a] == v@[w]);
        }
    }
    out
}

/// An injective map of `0..n` into `0..n` reaches every value.
pub proof fn lemma_injective_covers(perm: Seq<int>, n: int)
    requires
        0 <= n,
        perm.len() == n,
        forall|a: int| 0 <= a < n ==> 0 <= #[trigger] perm[a] < n,
        forall|a: int, b: int| 0 <= a < b < n ==> #[trigger] perm[a] != #[trigger] perm[b],
    ensures
        forall|w: int| 0 <= w < n ==> #[trigger] perm.contains(w),
{
    let s = perm.to_set();
    let full = Set::new(|w: int| 0 <= w < n);
    assert(s.subset_of(full));
    perm.unique_seq_to_set();
    assert(perm.no_duplicates()) by {
        assert forall|a: int, b: int| 0 <= a < perm.len() && 0 <= b < perm.len() && a != b implies perm[a]
            != perm[b] by {
            if a < b {
            } else {
            }
        }
    }
    vstd::set_lib::lemma_int_range(0, n);
    assert(full == vstd::set_lib::set_int_range(0, n));
    vstd::set_lib::lemma_subset_equality(s, full);
    assert forall|w: int| 0 <= w < n implies #[trigger] perm.contains(w) by {
        assert(full.contains(w));
        assert(s.contains(w));
    }
}


/// Membership ignores ASCII case and surrounding whitespace.
pub proof fn law_has_ignores_case(lines: Seq<ListLine>, a: Seq<char>, b: Seq<char>)
    requires
        eq_ignore_case(trim(a), trim(b)),
    ensures
        spec_has(lines, a) == spec_has(lines, b),
{
    assert(ascii_lower(trim(a)).len() == trim(a).len());
    assert(ascii_lower(trim(b)).len() == trim(b).len());
    if spec_has(lines, a) {
        let i = choose|i: int| 0 <= i < lines.len() && #[trigger] line_matches(lines[i], trim(a));
        assert(line_matches(lines[i], trim(b)));
    }
    if spec_has(lines, b) {
        let i = choose|i: int| 0 <= i < lines.len() && #[trigger] line_matches(lines[i], trim(b));
        assert(line_matches(lines[i], trim(a)));
    }
}

/// After adding a non-blank address, the list holds it.
pub proof fn law_add_then_has(old: Seq<ListLine>, new: Seq<ListLine>, email: Seq<char>, now: i64)
    requires
        spec_added(old, new, email, now),
        trim(email).len() > 0,
    ensures
        spec_has(new, email),
{
    if !spec_has(old, email) {
        let i = new.len() - 1;
        crate::text::lemma_trim_idempotent(email);
        assert(line_matches(new[i], trim(email)));
    }
}

/// Adding an address that differs from a listed one only in case or
/// surrounding whitespace changes nothing.
pub proof fn law_add_dedupes(
    old: Seq<ListLine>,
    mid: Seq<ListLine>,
    new: Seq<ListLine>,
    first: Seq<char>,
    second: Seq<char>,
    t1: i64,
    t2: i64,
)
    requires
        spec_added(old, mid, first, t1),
        spec_added(mid, new, second, t2),
        trim(first).len() > 0,
        eq_ignore_case(trim(first), trim(second)),
    ensures
        new == mid,
{
    law_add_then_has(old, mid, first, t1);
    law_has_ignores_case(mid, first, second);
    assert(ascii_lower(trim(second)).len() == trim(second).len());
}

/// After removing an address, no spelling of it is listed.
pub proof fn law_remove_then_not_has(
    old: Seq<ListLine>,
    new: Seq<ListLine>,
    email: Seq<char>,
    other: Seq<char>,
)
    requires
        spec_removed(old, new, email),
        trim(email).len() > 0,
        eq_ignore_case(trim(email), trim(other)),
    ensures
        !spec_has(new, other),
{
    let pred = |l: ListLine| !line_matches(l, trim(email));
    if spec_has(new, other) {
        let i = choose|i: int| 0 <= i < new.len() && #[trigger] line_matches(new[i], trim(other));
        assert(new.contains(new[i]));
        lemma_filter_all(old, pred, new[i]);
        assert(line_matches(new[i], trim(email)));
    }
}

/// Removing an address keeps every other line, in order.
pub proof fn law_remove_keeps_others(
    old: Seq<ListLine>,
    new: Seq<ListLine>,
    email: Seq<char>,
    other: Seq<char>,
)
    requires
        spec_removed(old, new, email),
        !eq_ignore_case(trim(email), trim(other)),
        spec_has(old, other),
    ensures
        spec_has(new, other),
    decreases old.len(),
{
    reveal(Seq::filter);
    let pred = |l: ListLine| !line_matches(l, trim(email));
    if trim(email).len() > 0 {
        let i = choose|i: int| 0 <= i < old.len() && #[trigger] line_matches(old[i], trim(other));
        if i == old.len() - 1 {
            assert(pred(old[i]));
            assert(old == old.drop_last().push(old[i]));
            lemma_filter_push(old.drop_last(), pred, old[i]);
            assert(line_matches(new[new.len() - 1], trim(other)));
        } else {
            let o2 = old.drop_last();
            assert(o2[i] == old[i]);
            let n2 = o2.filter(pred);
            law_remove_keeps_others(o2, n2, email, other);
            assert(old == o2.push(old.last()));
            lemma_filter_push(o2, pred, old.last());
            let j = choose|j: int| 0 <= j < n2.len() && #[trigger] line_matches(n2[j], trim(other));
            if pred(old.last()) {
                assert(new == n2.push(old.last()));
                assert(new[j] == n2[j]);
            } else {
                assert(new == n2);
            }
            assert(line_matches(new[j], trim(other)));
        }
    }
}

/// When every record of a list is of one address, the list shows exactly one record.
pub proof fn law_single_address_lists_once(lines: Seq<ListLine>, out: Seq<WaitlistRecord>, k: Seq<char>)
    requires
        spec_listed(lines, out),
        key_listed(lines, k),
        forall|i: int| 0 <= i < lines.len() && valid_line(#[trigger] lines[i]) ==> rec_key(line_rec(lines[i])) == k,
    ensures
        out.len() == 1,
{
    let a = choose|a: int| 0 <= a < out.len() && #[trigger] rec_key(out[a]) == k;
    if out.len() > 1 {
        assert forall|b: int| 0 <= b < out.len() implies rec_key(#[trigger] out[b]) == k by {
            assert(from_rep(lines, out[b]));
            let i = choose|i: int| #![trigger is_rep(lines, i)] is_rep(lines, i) && out[b] == line_rec(lines[i]);
            assert(valid_line(lines[i]));
        }
        assert(rec_key(out[0]) == k);
        assert(rec_key(out[1]) == k);
    }
}


/// The addresses a list holds, case-folded.
pub open spec fn listed_keys(lines: Seq<ListLine>) -> Set<Seq<char>> {
    Set::new(|k: Seq<char>| key_listed(lines, k))
}

/// The case-folded addresses of a listing.
pub open spec fn out_keys(out: Seq<WaitlistRecord>) -> Seq<Seq<char>> {
    out.map_values(|r: WaitlistRecord| rec_key(r))
}

proof fn lemma_listing_keys(lines: Seq<ListLine>, out: Seq<WaitlistRecord>)
    requires
        spec_listed(lines, out),
    ensures
        out_keys(out).to_set() == listed_keys(lines),
        out_keys(out).no_duplicates(),
        out.len() == listed_keys(lines).len(),
        listed_keys(lines).finite(),
{
    let ks = out_keys(out);
    assert forall|k: Seq<char>| ks.to_set().contains(k) <==> #[trigger] listed_keys(lines).contains(k) by {
        if ks.to_set().contains(k) {
            let a = choose|a: int| 0 <= a < ks.len() && ks[a] == k;
            assert(from_rep(lines, out[a]));
            let i = choose|i: int| #![trigger is_rep(lines, i)] is_rep(lines, i) && out[a] == line_rec(lines[i]);
            assert(rec_key(line_rec(lines[i])) == k);
            assert(key_listed(lines, k));
        }
        if listed_keys(lines).contains(k) {
            assert(key_listed(lines, k));
            let a = choose|a: int| 0 <= a < out.len() && #[trigger] rec_key(out[a]) == k;
            assert(ks[a] == k);
            assert(ks.contains(k));
        }
    }
    assert(ks.to_set() =~= listed_keys(lines));
    assert forall|a: int, b: int| 0 <= a < ks.len() && 0 <= b < ks.len() && a != b implies ks[a] != ks[b] by {
        if a < b {
            assert(rec_key(out[a]) != rec_key(out[b]));
        } else {
            assert(rec_key(out[b]) != rec_key(out[a]));
        }
    }
    ks.unique_seq_to_set();
    vstd::seq_lib::seq_to_set_is_finite(ks);
}

/// Any two listings of a list have the same length: the number of addresses
/// it holds, which is what a count gives.
pub proof fn law_listings_agree_in_length(lines: Seq<ListLine>, a: Seq<WaitlistRecord>, b: Seq<WaitlistRecord>)
    requires
        spec_listed(lines, a),
        spec_listed(lines, b),
    ensures
        a.len() == b.len(),
        a.len() == listed_keys(lines).len(),
{
    lemma_listing_keys(lines, a);
    lemma_listing_keys(lines, b);
}

/// Membership agrees with the listing: a list holds an address exactly when
/// its listing has a record of that address (ignoring ASCII case).
pub proof fn law_has_agrees_with_listing(lines: Seq<ListLine>, out: Seq<WaitlistRecord>, email: Seq<char>)
    requires
        spec_listed(lines, out),
    ensures
        spec_has(lines, email) <==> (trim(email).len() > 0 && exists|a: int|
            0 <= a < out.len() && #[trigger] rec_key(out[a]) == ascii_lower(trim(email))),
{
    lemma_listing_keys(lines, out);
    let t = trim(email);
    if spec_has(lines, email) {
        let i = choose|i: int| 0 <= i < lines.len() && #[trigger] line_matches(lines[i], t);
        let r = line_rec(lines[i]);
        assert(ascii_lower(trim(r.email@)).len() == trim(r.email@).len());
        assert(ascii_lower(t).len() == t.len());
        assert(valid_line(lines[i]));
        assert(rec_key(line_rec(lines[i])) == ascii_lower(t));
        assert(key_listed(lines, ascii_lower(t)));
    }
    if t.len() > 0 && exists|a: int| 0 <= a < out.len() && #[trigger] rec_key(out[a]) == ascii_lower(t) {
        let a = choose|a: int| 0 <= a < out.len() && #[trigger] rec_key(out[a]) == ascii_lower(t);
        assert(from_rep(lines, out[a]));
        let i = choose|i: int| #![trigger is_rep(lines, i)] is_rep(lines, i) && out[a] == line_rec(lines[i]);
        assert(line_matches(lines[i], t));
    }
}

/// A list holds a non-blank address exactly when its case-folded form is
/// among the listed addresses.
pub proof fn lemma_key_listed_iff_has(lines: Seq<ListLine>, email: Seq<char>)
    requires
        trim(email).len() > 0,
    ensures
        spec_has(lines, email) <==> listed_keys(lines).contains(ascii_lower(trim(email))),
{
    let t = trim(email);
    assert(ascii_lower(t).len() == t.len());
    if spec_has(lines, email) {
        let i = choose|i: int| 0 <= i < lines.len() && #[trigger] line_matches(lines[i], t);
        let r = line_rec(lines[i]);
        assert(ascii_lower(trim(r.email@)).len() == trim(r.email@).len());
        assert(valid_line(lines[i]));
        assert(rec_key(line_rec(lines[i])) == ascii_lower(t));
    }
    if listed_keys(lines).contains(ascii_lower(t)) {
        assert(key_listed(lines, ascii_lower(t)));
        let i = choose|i: int| 0 <= i < lines.len() && valid_line(lines[i]) && #[trigger] rec_key(line_rec(lines[i])) == ascii_lower(t);
        assert(line_matches(lines[i], t));
    }
}

/// The addresses a list holds are finitely many.
pub proof fn lemma_listed_keys_finite(lines: Seq<ListLine>)
    ensures
        listed_keys(lines).finite(),
{
    let all = lines.map_values(|l: ListLine| rec_key(line_rec(l)));
    assert forall|k: Seq<char>| #[trigger] listed_keys(lines).contains(k) implies all.to_set().contains(k) by {
        let i = choose|i: int| 0 <= i < lines.len() && valid_line(lines[i]) && #[trigger] rec_key(line_rec(lines[i])) == k;
        assert(all[i] == k);
    }
    vstd::seq_lib::seq_to_set_is_finite(all);
    vstd::set_lib::lemma_len_subset(listed_keys(lines), all.to_set());
}

/// Adding a non-blank address adds its case-folded form to the addresses held.
pub proof fn lemma_keys_after_add(old: Seq<ListLine>, new: Seq<ListLine>, email: Seq<char>, now: i64)
    requires
        spec_added(old, new, email, now),
        trim(email).len() > 0,
    ensures
        listed_keys(new) == listed_keys(old).insert(ascii_lower(trim(email))),
{
    lemma_key_listed_iff_has(old, email);
    let t = trim(email);
    let key = ascii_lower(t);
    if spec_has(old, email) {
        assert(listed_keys(old).insert(key) =~= listed_keys(old));
    } else {
        crate::text::lemma_trim_idempotent(email);
        let n = (new.len() - 1) as int;
        assert(valid_line(new[n]));
        assert(rec_key(line_rec(new[n])) == key);
        assert forall|k: Seq<char>| #[trigger] listed_keys(new).contains(k) <==> listed_keys(old).insert(key).contains(k) by {
            if key_listed(new, k) {
                let i = choose|i: int| 0 <= i < new.len() && valid_line(new[i]) && #[trigger] rec_key(line_rec(new[i])) == k;
                if i < n {
                    assert(new[i] == new.subrange(0, old.len() as int)[i]);
                    assert(key_listed(old, k));
                }
            }
            if key_listed(old, k) {
                let i = choose|i: int| 0 <= i < old.len() && valid_line(old[i]) && #[trigger] rec_key(line_rec(old[i])) == k;
                assert(new[i] == new.subrange(0, old.len() as int)[i]);
                assert(key_listed(new, k));
            }
            if k == key {
                assert(key_listed(new, k));
            }
        }
        assert(listed_keys(new) =~= listed_keys(old).insert(key));
    }
}

/// Adding an address lists it: the listing afterwards holds one record more
/// when the address was new, and as many when it was already listed.
pub proof fn law_listing_after_add(
    old: Seq<ListLine>,
    new: Seq<ListLine>,
    email: Seq<char>,
    now: i64,
    before: Seq<WaitlistRecord>,
    after: Seq<WaitlistRecord>,
)
    requires
        spec_added(old, new, email, now),
        trim(email).len() > 0,
        spec_listed(old, before),
        spec_listed(new, after),
    ensures
        listed_keys(new) == listed_keys(old).insert(ascii_lower(trim(email))),
        after.len() == before.len() + (if spec_has(old, email) { 0int } else { 1int }),
{
    lemma_listing_keys(old, before);
    lemma_listing_keys(new, after);
    lemma_key_listed_iff_has(old, email);
    lemma_keys_after_add(old, new, email, now);
}

/// Removing a non-blank address takes its case-folded form out of the
/// addresses held.
pub proof fn lemma_keys_after_remove(old: Seq<ListLine>, new: Seq<ListLine>, email: Seq<char>)
    requires
        spec_removed(old, new, email),
        trim(email).len() > 0,
    ensures
        listed_keys(new) == listed_keys(old).remove(ascii_lower(trim(email))),
{
    lemma_key_listed_iff_has(old, email);
    let t = trim(email);
    let key = ascii_lower(t);
    let pr = |l: ListLine| !line_matches(l, t);
    assert(new == old.filter(pr));
    assert forall|k: Seq<char>| #[trigger] listed_keys(new).contains(k) <==> listed_keys(old).remove(key).contains(k) by {
        if key_listed(new, k) {
            let i = choose|i: int| 0 <= i < new.len() && valid_line(new[i]) && #[trigger] rec_key(line_rec(new[i])) == k;
            assert(new.contains(new[i]));
            old.lemma_filter_contains_rev(pr, new[i]);
            let j = choose|j: int| 0 <= j < old.len() && old[j] == new[i];
            assert(key_listed(old, k));
            old.lemma_filter_pred(pr, i);
            assert(!line_matches(new[i], t));
            assert(k != key);
        }
        if key_listed(old, k) && k != key {
            let j = choose|j: int| 0 <= j < old.len() && valid_line(old[j]) && #[trigger] rec_key(line_rec(old[j])) == k;
            assert(pr(old[j]));
            old.lemma_filter_contains(pr, j);
            let i = choose|i: int| 0 <= i < new.len() && new[i] == old[j];
            assert(key_listed(new, k));
        }
    }
    assert(listed_keys(new) =~= listed_keys(old).remove(key));
}

/// Removing an address unlists it: the listing afterwards holds one record
/// less when the address was listed, and as many when it was not.
pub proof fn law_listing_after_remove(
    old: Seq<ListLine>,
    new: Seq<ListLine>,
    email: Seq<char>,
    before: Seq<WaitlistRecord>,
    after: Seq<WaitlistRecord>,
)
    requires
        spec_removed(old, new, email),
        trim(email).len() > 0,
        spec_listed(old, before),
        spec_listed(new, after),
    ensures
        listed_keys(new) == listed_keys(old).remove(ascii_lower(trim(email))),
        after.len() == before.len() - (if spec_has(old, email) { 1int } else { 0int }),
{
    lemma_listing_keys(old, before);
    lemma_listing_keys(new, after);
    lemma_key_listed_iff_has(old, email);
    lemma_keys_after_remove(old, new, email);
    if !spec_has(old, email) {
        assert(listed_keys(old).remove(ascii_lower(trim(email))) =~= listed_keys(old));
    }
}

/// Where the `j`-th element of `s.filter(p)` stands in `s`.
pub open spec fn filter_index<A>(s: Seq<A>, p: spec_fn(A) -> bool, j: int) -> int
    decreases s.len(),
{
    if s.len() == 0 {
        0
    } else if p(s.last()) && j == s.drop_last().filter(p).len() {
        s.len() - 1
    } else {
        filter_index(s.drop_last(), p, j)
    }
}

/// A filter keeps its elements in their order: the `j`-th kept element is
/// `s[filter_index(s, p, j)]`, those positions rise with `j`, and every
/// element that passes `p` is kept at some position.
pub proof fn lemma_filter_index<A>(s: Seq<A>, p: spec_fn(A) -> bool)
    ensures
        forall|j: int|
            0 <= j < s.filter(p).len() ==> 0 <= #[trigger] filter_index(s, p, j) < s.len() && s[filter_index(
                s,
                p,
                j,
            )] == s.filter(p)[j],
        forall|j1: int, j2: int|
            0 <= j1 < j2 < s.filter(p).len() ==> #[trigger] filter_index(s, p, j1) < #[trigger] filter_index(
                s,
                p,
                j2,
            ),
        forall|i: int|
            0 <= i < s.len() && p(#[trigger] s[i]) ==> exists|j: int|
                0 <= j < s.filter(p).len() && #[trigger] filter_index(s, p, j) == i,
    decreases s.len(),
{
    if s.len() > 0 {
        let t = s.drop_last();
        let e = s.last();
        lemma_filter_index(t, p);
        assert(t.push(e) == s);
        lemma_filter_push(t, p, e);
        let f = t.filter(p);
        assert forall|j: int| 0 <= j < s.filter(p).len() implies 0 <= #[trigger] filter_index(s, p, j) < s.len()
            && s[filter_index(s, p, j)] == s.filter(p)[j] by {
            if j < f.len() {
                assert(filter_index(s, p, j) == filter_index(t, p, j));
            }
        }
        assert forall|j1: int, j2: int| 0 <= j1 < j2 < s.filter(p).len() implies #[trigger] filter_index(
            s,
            p,
            j1,
        ) < #[trigger] filter_index(s, p, j2) by {
            assert(filter_index(s, p, j1) == filter_index(t, p, j1));
            if j2 < f.len() {
                assert(filter_index(s, p, j2) == filter_index(t, p, j2));
            }
        }
        assert forall|i: int| 0 <= i < s.len() && p(#[trigger] s[i]) implies exists|j: int|
            0 <= j < s.filter(p).len() && #[trigger] filter_index(s, p, j) == i by {
            if i < t.len() {
                assert(p(t[i]));
                let j = choose|j: int| 0 <= j < f.len() && #[trigger] filter_index(t, p, j) == i;
                assert(filter_index(s, p, j) == i);
            } else {
                assert(filter_index(s, p, f.len() as int) == i);
            }
        }
    }
}

/// A non-blank trimmed address matches a line exactly when the line is a
/// record listed under the address's case-folded form.
pub proof fn lemma_matches_key(l: ListLine, t: Seq<char>)
    requires
        t.len() > 0,
    ensures
        line_matches(l, t) <==> (valid_line(l) && rec_key(line_rec(l)) == ascii_lower(t)),
{
    assert(ascii_lower(t).len() == t.len());
    if let ListLine::Record(r) = l {
        assert(ascii_lower(trim(r.email@)).len() == trim(r.email@).len());
    }
}

/// The record kept for an address is the one of its line: two kept lines of
/// the same address are the same line.
proof fn lemma_rep_unique(lines: Seq<ListLine>, i: int, i2: int)
    requires
        is_rep(lines, i),
        is_rep(lines, i2),
        rec_key(line_rec(lines[i])) == rec_key(line_rec(lines[i2])),
    ensures
        i == i2,
{
}

/// A listing holds exactly the kept records of its list.
pub proof fn lemma_listed_is_reps(lines: Seq<ListLine>, out: Seq<WaitlistRecord>, r: WaitlistRecord)
    requires
        spec_listed(lines, out),
    ensures
        out.contains(r) <==> from_rep(lines, r),
{
    if from_rep(lines, r) {
        let i = choose|i: int| #![trigger is_rep(lines, i)] is_rep(lines, i) && r == line_rec(lines[i]);
        assert(key_listed(lines, rec_key(r)));
        let a = choose|a: int| 0 <= a < out.len() && #[trigger] rec_key(out[a]) == rec_key(r);
        assert(from_rep(lines, out[a]));
        let i2 = choose|i2: int| #![trigger is_rep(lines, i2)] is_rep(lines, i2) && out[a] == line_rec(lines[i2]);
        lemma_rep_unique(lines, i, i2);
        assert(out[a] == r);
    }
}

/// Removing the records of one address keeps the record kept for every other
/// address.
proof fn lemma_reps_after_remove(old: Seq<ListLine>, new: Seq<ListLine>, t: Seq<char>, r: WaitlistRecord)
    requires
        t.len() > 0,
        new == old.filter(|l: ListLine| !line_matches(l, t)),
    ensures
        rec_key(r) != ascii_lower(t) ==> (from_rep(new, r) <==> from_rep(old, r)),
        rec_key(r) == ascii_lower(t) ==> !from_rep(new, r),
{
    let pr = |l: ListLine| !line_matches(l, t);
    lemma_filter_index(old, pr);
    let key = ascii_lower(t);
    let k = rec_key(r);
    if from_rep(new, r) {
        let j = choose|j: int| #![trigger is_rep(new, j)] is_rep(new, j) && r == line_rec(new[j]);
        old.lemma_filter_pred(pr, j);
        lemma_matches_key(new[j], t);
        if k != key {
            let i = filter_index(old, pr, j);
            assert(old[i] == new[j]);
            assert forall|i2: int| 0 <= i2 < old.len() && valid_line(#[trigger] old[i2]) && rec_key(line_rec(old[i2]))
                == rec_key(line_rec(old[i])) implies line_rec(old[i]).created_at < line_rec(old[i2]).created_at
                || (line_rec(old[i]).created_at == line_rec(old[i2]).created_at && i <= i2) by {
                lemma_matches_key(old[i2], t);
                assert(pr(old[i2]));
                let j2 = choose|j2: int| 0 <= j2 < new.len() && #[trigger] filter_index(old, pr, j2) == i2;
                assert(new[j2] == old[i2]);
                if j2 < j {
                    assert(filter_index(old, pr, j2) < filter_index(old, pr, j));
                }
            }
            assert(is_rep(old, i));
        }
    }
    if k != key && from_rep(old, r) {
        let i = choose|i: int| #![trigger is_rep(old, i)] is_rep(old, i) && r == line_rec(old[i]);
        lemma_matches_key(old[i], t);
        assert(pr(old[i]));
        let j = choose|j: int| 0 <= j < new.len() && #[trigger] filter_index(old, pr, j) == i;
        assert(new[j] == old[i]);
        assert forall|j2: int| 0 <= j2 < new.len() && valid_line(#[trigger] new[j2]) && rec_key(line_rec(new[j2]))
            == rec_key(line_rec(new[j])) implies line_rec(new[j]).created_at < line_rec(new[j2]).created_at
            || (line_rec(new[j]).created_at == line_rec(new[j2]).created_at && j <= j2) by {
            let i2 = filter_index(old, pr, j2);
            assert(old[i2] == new[j2]);
            if j2 < j {
                assert(filter_index(old, pr, j2) < filter_index(old, pr, j));
            }
        }
        assert(is_rep(new, j));
    }
}

/// The listing after a remove is the listing before without the records of
/// the removed address (ignoring ASCII case): every other record stays, with
/// its time, and nothing else comes in.  A blank address changes nothing.
pub proof fn law_listing_after_remove_is_filtered(
    old: Seq<ListLine>,
    new: Seq<ListLine>,
    email: Seq<char>,
    before: Seq<WaitlistRecord>,
    after: Seq<WaitlistRecord>,
)
    requires
        spec_removed(old, new, email),
        spec_listed(old, before),
        spec_listed(new, after),
    ensures
        forall|r: WaitlistRecord|
            #[trigger] after.contains(r) <==> (before.contains(r) && (trim(email).len() > 0 ==> rec_key(r)
                != ascii_lower(trim(email)))),
{
    assert forall|r: WaitlistRecord| #[trigger] after.contains(r) <==> (before.contains(r) && (trim(email).len()
        > 0 ==> rec_key(r) != ascii_lower(trim(email)))) by {
        lemma_listed_is_reps(old, before, r);
        lemma_listed_is_reps(new, after, r);
        if trim(email).len() > 0 {
            lemma_reps_after_remove(old, new, trim(email), r);
        }
    }
}

} // verus!
