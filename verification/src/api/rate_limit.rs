//! Per-client attempt limiting for the authentication endpoints.
//!
//! Each client key owns a bucket: the start of its current window, the number
//! of attempts made in it and when it was last seen.  The bucket table is
//! modelled as a map from key text to bucket.
use crate::arith::{clamp_i64, sat_sub};
use crate::text::{
    copy_str, find_char, push_str_chars, str_chars, str_eq, string_from_chars, slice_to_vec, trim,
    trim_bounds,
};
use vstd::prelude::*;

verus! {

/// Tables larger than this are pruned before the next attempt is counted.
pub const PRUNE_ABOVE: usize = 4096;

/// Buckets not seen for longer than this (six hours) are pruned.
pub const STALE_AFTER_MS: i64 = 21_600_000;

/// How many attempts a path admits per window.
#[derive(Debug, Clone, Copy, PartialEq, Eq, Structural)]
pub struct Rule {
    pub max_attempts: u32,
    pub window_ms: i64,
}

/// The attempt counter of one client key.
#[derive(Debug, Clone, Copy, PartialEq, Eq, Structural)]
pub struct Bucket {
    pub window_start_ms: i64,
    pub attempts: u32,
    pub last_seen_ms: i64,
}

/// The bucket a key gets on its first attempt.
pub open spec fn fresh_bucket(now: i64) -> Bucket {
    Bucket { window_start_ms: now, attempts: 0, last_seen_ms: now }
}

/// The bucket an attempt at `now` starts from.
pub open spec fn current_bucket(m: Map<Seq<char>, Bucket>, key: Seq<char>, now: i64) -> Bucket {
    if m.contains_key(key) {
        m[key]
    } else {
        fresh_bucket(now)
    }
}

/// Whether the window of `b` has run out at `now`.
pub open spec fn window_expired(b: Bucket, now: i64, rule: Rule) -> bool {
    clamp_i64(now - b.window_start_ms) >= rule.window_ms
}

/// The bucket after one more attempt at `now`: a new window opens when the
/// old one has run out, and the counter saturates.
pub open spec fn after_attempt(b: Bucket, now: i64, rule: Rule) -> Bucket {
    let start = if window_expired(b, now, rule) {
        now
    } else {
        b.window_start_ms
    };
    let count: u32 = if window_expired(b, now, rule) {
        0
    } else {
        b.attempts
    };
    Bucket {
        window_start_ms: start,
        attempts: if count == u32::MAX {
            u32::MAX
        } else {
            (count + 1) as u32
        },
        last_seen_ms: now,
    }
}

/// The bucket of `key` after an attempt at `now`.
pub open spec fn attempt_result(
    m: Map<Seq<char>, Bucket>,
    key: Seq<char>,
    now: i64,
    rule: Rule,
) -> Bucket {
    after_attempt(current_bucket(m, key, now), now, rule)
}

/// Whether an attempt that left its bucket as `b` is admitted.
pub open spec fn admitted(b: Bucket, rule: Rule) -> bool {
    b.attempts <= rule.max_attempts
}

/// A bucket last seen more than six hours before `now`.
pub open spec fn is_stale(b: Bucket, now: i64) -> bool {
    clamp_i64(now - b.last_seen_ms) > STALE_AFTER_MS
}

/// The table without its stale buckets.
pub open spec fn without_stale(m: Map<Seq<char>, Bucket>, now: i64) -> Map<Seq<char>, Bucket> {
    m.restrict(m.dom().filter(|k: Seq<char>| !is_stale(m[k], now)))
}

/// The table of buckets, one per client key.
#[derive(Debug)]
pub struct RateLimitBuckets {
    entries: Vec<(String, Bucket)>,
}

spec fn keys_distinct(s: Seq<(String, Bucket)>) -> bool {
    forall|i: int, j: int| 0 <= i < j < s.len() ==> (#[trigger] s[i]).0@ != (#[trigger] s[j]).0@
}

spec fn entry_map(s: Seq<(String, Bucket)>) -> Map<Seq<char>, Bucket>
    decreases s.len(),
{
    if s.len() == 0 {
        Map::empty()
    } else {
        entry_map(s.drop_last()).insert(s.last().0@, s.last().1)
    }
}

proof fn lemma_entry_map(s: Seq<(String, Bucket)>)
    requires
        keys_distinct(s),
    ensures
        forall|i: int|
            0 <= i < s.len() ==> entry_map(s).contains_key((#[trigger] s[i]).0@) && entry_map(
                s,
            )[s[i].0@] == s[i].1,
        forall|k: Seq<char>|
            #[trigger] entry_map(s).contains_key(k) ==> exists|i: int|
                0 <= i < s.len() && (#[trigger] s[i]).0@ == k,
        entry_map(s).dom().finite(),
        entry_map(s).dom().len() == s.len(),
    decreases s.len(),
{
    if s.len() > 0 {
        let t = s.drop_last();
        assert(keys_distinct(t)) by {
            assert forall|i: int, j: int| 0 <= i < j < t.len() implies (#[trigger] t[i]).0@
                != (#[trigger] t[j]).0@ by {
                assert(t[i] == s[i] && t[j] == s[j]);
            }
        }
        lemma_entry_map(t);
        let last = s.last();
        assert(!entry_map(t).contains_key(last.0@)) by {
            if entry_map(t).contains_key(last.0@) {
                let i = choose|i: int| 0 <= i < t.len() && (#[trigger] t[i]).0@ == last.0@;
                assert(t[i] == s[i]);
                assert(s[i].0@ != s[s.len() - 1].0@);
            }
        }
        assert forall|i: int| 0 <= i < s.len() implies entry_map(s).contains_key(
            (#[trigger] s[i]).0@,
        ) && entry_map(s)[s[i].0@] == s[i].1 by {
            if i < s.len() - 1 {
                assert(t[i] == s[i]);
                assert(s[i].0@ != s[s.len() - 1].0@);
            }
        }
        assert forall|k: Seq<char>| #[trigger] entry_map(s).contains_key(k) implies exists|i: int|
            0 <= i < s.len() && (#[trigger] s[i]).0@ == k by {
            if k != last.0@ {
                let i = choose|i: int| 0 <= i < t.len() && (#[trigger] t[i]).0@ == k;
                assert(t[i] == s[i]);
            } else {
                assert(s[s.len() - 1] == last);
            }
        }
    }
}

/// Two distinct-keyed entry lists with the same keys and values give the same map.
proof fn lemma_entry_map_eq(s: Seq<(String, Bucket)>, m: Map<Seq<char>, Bucket>)
    requires
        keys_distinct(s),
        forall|i: int| 0 <= i < s.len() ==> m.contains_key((#[trigger] s[i]).0@) && m[s[i].0@] == s[i].1,
        forall|k: Seq<char>| #[trigger] m.contains_key(k) ==> exists|i: int| 0 <= i < s.len() && (#[trigger] s[i]).0@ == k,
    ensures
        entry_map(s) == m,
{
    lemma_entry_map(s);
    assert forall|k: Seq<char>| #[trigger] entry_map(s).contains_key(k) <==> m.contains_key(k) by {
        if m.contains_key(k) {
            let i = choose|i: int| 0 <= i < s.len() && (#[trigger] s[i]).0@ == k;
            assert(entry_map(s).contains_key(s[i].0@));
        }
        if entry_map(s).contains_key(k) {
            let i = choose|i: int| 0 <= i < s.len() && (#[trigger] s[i]).0@ == k;
            assert(m.contains_key(s[i].0@));
        }
    }
    assert forall|k: Seq<char>| #[trigger] entry_map(s).contains_key(k) implies entry_map(s)[k]
        == m[k] by {
        let i = choose|i: int| 0 <= i < s.len() && (#[trigger] s[i]).0@ == k;
        assert(entry_map(s)[s[i].0@] == s[i].1);
    }
    assert(entry_map(s) =~= m);
}

impl View for RateLimitBuckets {
    type V = Map<Seq<char>, Bucket>;

    closed spec fn view(&self) -> Map<Seq<char>, Bucket> {
        entry_map(self.entries@)
    }
}

impl RateLimitBuckets {
    /// No key occurs twice in the table.
    pub closed spec fn wf(&self) -> bool {
        keys_distinct(self.entries@)
    }

    /// An empty table.
    pub fn new() -> (r: Self)
        ensures
            r.wf(),
            r@ == Map::<Seq<char>, Bucket>::empty(),
    {
        RateLimitBuckets { entries: Vec::new() }
    }

    /// The number of keys in the table.
    pub fn len(&self) -> (n: usize)
        requires
            self.wf(),
        ensures
            n == self@.dom().len(),
            self@.dom().finite(),
    {
        proof {
            lemma_entry_map(self.entries@);
        }
        self.entries.len()
    }

    fn find_key(&self, key: &str) -> (r: Option<usize>)
        ensures
            match r {
                Some(i) => i < self.entries@.len() && self.entries@[i as int].0@ == key@,
                None => forall|i: int|
                    0 <= i < self.entries@.len() ==> (#[trigger] self.entries@[i]).0@ != key@,
            },
    {
        let mut i: usize = 0;
        while i < self.entries.len()
            invariant
                i <= self.entries@.len(),
                forall|j: int| 0 <= j < i ==> (#[trigger] self.entries@[j]).0@ != key@,
            decreases self.entries@.len() - i,
        {
            if str_eq(self.entries[i].0.as_str(), key) {
                return Some(i);
            }
            i = i + 1;
        }
        None
    }

    /// The bucket of `key`, if it has one.
    pub fn get(&self, key: &str) -> (r: Option<Bucket>)
        requires
            self.wf(),
        ensures
            r == (if self@.contains_key(key@) {
                Some(self@[key@])
            } else {
                None
            }),
    {
        proof {
            lemma_entry_map(self.entries@);
        }
        match self.find_key(key) {
            Some(i) => Some(self.entries[i].1),
            None => {
                proof {
                    if self@.contains_key(key@) {
                        let j = choose|j: int|
                            0 <= j < self.entries@.len() && (#[trigger] self.entries@[j]).0@
                                == key@;
                    }
                }
                None
            },
        }
    }
}

fn expire_check(b: Bucket, now_ms: i64, rule: Rule) -> (r: bool)
    ensures
        r == window_expired(b, now_ms, rule),
{
    sat_sub(now_ms, b.window_start_ms) >= rule.window_ms
}

fn next_bucket(b: Bucket, now_ms: i64, rule: Rule) -> (r: Bucket)
    ensures
        r == after_attempt(b, now_ms, rule),
{
    let expired = expire_check(b, now_ms, rule);
    let start = if expired {
        now_ms
    } else {
        b.window_start_ms
    };
    let count: u32 = if expired {
        0
    } else {
        b.attempts
    };
    let attempts: u32 = if count == u32::MAX {
        u32::MAX
    } else {
        count + 1
    };
    Bucket { window_start_ms: start, attempts, last_seen_ms: now_ms }
}

/// Counts an attempt of `key` at `now_ms` under `rule` and says whether it is
/// admitted: at most `rule.max_attempts` attempts per window.  Only the bucket
/// of `key` changes.
pub fn allow_attempt(buckets: &mut RateLimitBuckets, key: &str, now_ms: i64, rule: Rule) -> (allowed:
    bool)
    requires
        old(buckets).wf(),
    ensures
        final(buckets).wf(),
        final(buckets)@ == old(buckets)@.insert(key@, attempt_result(old(buckets)@, key@, now_ms, rule)),
        allowed == admitted(attempt_result(old(buckets)@, key@, now_ms, rule), rule),
{
    let ghost s0 = buckets.entries@;
    let ghost m0 = buckets@;
    proof {
        lemma_entry_map(s0);
    }
    match buckets.find_key(key) {
        Some(i) => {
            let b = buckets.entries[i].1;
            let nb = next_bucket(b, now_ms, rule);
            let k = copy_str(key);
            proof {
                assert(m0.contains_key(key@) && m0[key@] == b) by {
                    assert(s0[i as int].0@ == key@);
                }
            }
            buckets.entries.set(i, (k, nb));
            proof {
                let s1 = buckets.entries@;
                let m1 = m0.insert(key@, nb);
                assert forall|a: int, c: int| 0 <= a < c < s1.len() implies (#[trigger] s1[a]).0@
                    != (#[trigger] s1[c]).0@ by {
                    assert(s1[a].0@ == s0[a].0@);
                    assert(s1[c].0@ == s0[c].0@);
                    assert(s0[a].0@ != s0[c].0@);
                }
                assert forall|j: int| 0 <= j < s1.len() implies m1.contains_key(
                    (#[trigger] s1[j]).0@,
                ) && m1[s1[j].0@] == s1[j].1 by {
                    if j != i {
                        assert(s1[j] == s0[j]);
                        assert(s0[j].0@ != s0[i as int].0@);
                        assert(m0.contains_key(s0[j].0@) && m0[s0[j].0@] == s0[j].1);
                    }
                }
                assert forall|k2: Seq<char>| #[trigger] m1.contains_key(k2) implies exists|j: int|
                    0 <= j < s1.len() && (#[trigger] s1[j]).0@ == k2 by {
                    if k2 == key@ {
                        assert(s1[i as int].0@ == k2);
                    } else {
                        let j = choose|j: int| 0 <= j < s0.len() && (#[trigger] s0[j]).0@ == k2;
                        assert(s1[j].0@ == s0[j].0@);
                    }
                }
                lemma_entry_map_eq(s1, m1);
            }
            nb.attempts <= rule.max_attempts
        },
        None => {
            let fresh = Bucket { window_start_ms: now_ms, attempts: 0, last_seen_ms: now_ms };
            let nb = next_bucket(fresh, now_ms, rule);
            let k = copy_str(key);
            proof {
                if m0.contains_key(key@) {
                    let j = choose|j: int| 0 <= j < s0.len() && (#[trigger] s0[j]).0@ == key@;
                }
            }
            buckets.entries.push((k, nb));
            proof {
                let s1 = buckets.entries@;
                assert(s1.drop_last() =~= s0);
                assert forall|a: int, c: int| 0 <= a < c < s1.len() implies (#[trigger] s1[a]).0@
                    != (#[trigger] s1[c]).0@ by {
                    assert(s1[a] == s0[a]);
                    if c < s0.len() {
                        assert(s1[c] == s0[c]);
                    }
                }
            }
            nb.attempts <= rule.max_attempts
        },
    }
}

/// Two entries with the same key text and the same bucket.
spec fn same_entry(x: (String, Bucket), y: (String, Bucket)) -> bool {
    x.0@ == y.0@ && x.1 == y.1
}

/// Drops every bucket not seen for more than six hours.
pub fn prune_stale(buckets: &mut RateLimitBuckets, now_ms: i64)
    requires
        old(buckets).wf(),
    ensures
        final(buckets).wf(),
        final(buckets)@ == without_stale(old(buckets)@, now_ms),
{
    let ghost s0 = buckets.entries@;
    let ghost m0 = buckets@;
    proof {
        lemma_entry_map(s0);
    }
    let mut kept: Vec<(String, Bucket)> = Vec::new();
    let mut i: usize = 0;
    while i < buckets.entries.len()
        invariant
            s0 == buckets.entries@,
            keys_distinct(s0),
            i <= s0.len(),
            keys_distinct(kept@),
            forall|j: int|
                0 <= j < kept@.len() ==> exists|a: int|
                    0 <= a < i && same_entry(#[trigger] kept@[j], #[trigger] s0[a]) && !is_stale(
                        s0[a].1,
                        now_ms,
                    ),
            forall|a: int|
                0 <= a < i && !is_stale((#[trigger] s0[a]).1, now_ms) ==> exists|j: int|
                    0 <= j < kept@.len() && same_entry(#[trigger] kept@[j], s0[a]),
        decreases s0.len() - i,
    {
        let b = buckets.entries[i].1;
        let stale = sat_sub(now_ms, b.last_seen_ms) > STALE_AFTER_MS;
        if !stale {
            let k = copy_str(buckets.entries[i].0.as_str());
            let ghost before = kept@;
            kept.push((k, b));
            proof {
                assert(same_entry(kept@[before.len() as int], s0[i as int]));
                assert forall|x: int, y: int| 0 <= x < y < kept@.len() implies (#[trigger] kept@[
                    x
                ]).0@ != (#[trigger] kept@[y]).0@ by {
                    if y < before.len() {
                        assert(kept@[x] == before[x] && kept@[y] == before[y]);
                    } else {
                        assert(kept@[x] == before[x]);
                        let a = choose|a: int|
                            0 <= a < i && same_entry(#[trigger] before[x], #[trigger] s0[a])
                                && !is_stale(s0[a].1, now_ms);
                        assert(s0[a].0@ != s0[i as int].0@);
                    }
                }
                assert forall|j: int| 0 <= j < kept@.len() implies exists|a: int|
                    0 <= a < i + 1 && same_entry(#[trigger] kept@[j], #[trigger] s0[a])
                        && !is_stale(s0[a].1, now_ms) by {
                    if j < before.len() {
                        assert(kept@[j] == before[j]);
                        let a = choose|a: int|
                            0 <= a < i && same_entry(#[trigger] before[j], #[trigger] s0[a])
                                && !is_stale(s0[a].1, now_ms);
                        assert(same_entry(kept@[j], s0[a]));
                    } else {
                        assert(same_entry(kept@[j], s0[i as int]));
                    }
                }
                assert forall|a: int| 0 <= a < i + 1 && !is_stale((#[trigger] s0[a]).1, now_ms) implies exists|
                    j: int,
                | 0 <= j < kept@.len() && same_entry(#[trigger] kept@[j], s0[a]) by {
                    if a < i {
                        let j = choose|j: int|
                            0 <= j < before.len() && same_entry(#[trigger] before[j], s0[a]);
                        assert(kept@[j] == before[j]);
                    } else {
                        assert(same_entry(kept@[before.len() as int], s0[a]));
                    }
                }
            }
        }
        i = i + 1;
    }
    proof {
        let m1 = without_stale(m0, now_ms);
        let s1 = kept@;
        assert forall|j: int| 0 <= j < s1.len() implies m1.contains_key((#[trigger] s1[j]).0@)
            && m1[s1[j].0@] == s1[j].1 by {
            let a = choose|a: int|
                0 <= a < s0.len() && same_entry(#[trigger] s1[j], #[trigger] s0[a]) && !is_stale(
                    s0[a].1,
                    now_ms,
                );
            assert(m0.contains_key(s0[a].0@) && m0[s0[a].0@] == s0[a].1);
        }
        assert forall|k: Seq<char>| #[trigger] m1.contains_key(k) implies exists|j: int|
            0 <= j < s1.len() && (#[trigger] s1[j]).0@ == k by {
            let a = choose|a: int| 0 <= a < s0.len() && (#[trigger] s0[a]).0@ == k;
            assert(m0[k] == s0[a].1);
            let j = choose|j: int| 0 <= j < s1.len() && same_entry(#[trigger] s1[j], s0[a]);
        }
        lemma_entry_map_eq(s1, m1);
    }
    buckets.entries = kept;
}

/// The limit that applies to `path`, if any.
pub open spec fn rule_of(path: Seq<char>) -> Option<Rule> {
    if path == "/v1/auth/login"@ {
        Some(Rule { max_attempts: 24, window_ms: 300_000 })
    } else if path == "/v1/auth/request-password-link"@ {
        Some(Rule { max_attempts: 12, window_ms: 900_000 })
    } else if path == "/v1/auth/setup"@ {
        Some(Rule { max_attempts: 24, window_ms: 600_000 })
    } else if path == "/v1/auth/register"@ {
        Some(Rule { max_attempts: 12, window_ms: 600_000 })
    } else if path == "/invite"@ {
        Some(Rule { max_attempts: 20, window_ms: 3_600_000 })
    } else {
        None
    }
}

/// The attempt limit of an authentication path.
pub fn rule_for_path(path: &str) -> (r: Option<Rule>)
    ensures
        r == rule_of(path@),
{
    if str_eq(path, "/v1/auth/login") {
        Some(Rule { max_attempts: 24, window_ms: 300_000 })
    } else if str_eq(path, "/v1/auth/request-password-link") {
        Some(Rule { max_attempts: 12, window_ms: 900_000 })
    } else if str_eq(path, "/v1/auth/setup") {
        Some(Rule { max_attempts: 24, window_ms: 600_000 })
    } else if str_eq(path, "/v1/auth/register") {
        Some(Rule { max_attempts: 12, window_ms: 600_000 })
    } else if str_eq(path, "/invite") {
        Some(Rule { max_attempts: 20, window_ms: 3_600_000 })
    } else {
        None
    }
}

/// The text before the first comma of `s` (`s.split(',').next()`).
pub open spec fn first_field(s: Seq<char>) -> Seq<char>
    decreases s.len(),
{
    if s.len() == 0 || s[0] == ',' {
        Seq::empty()
    } else {
        seq![s[0]] + first_field(s.drop_first())
    }
}

proof fn lemma_first_field(s: Seq<char>, i: int)
    requires
        0 <= i <= s.len(),
        forall|k: int| 0 <= k < i ==> s[k] != ',',
        i < s.len() ==> s[i] == ',',
    ensures
        first_field(s) == s.subrange(0, i),
    decreases s.len(),
{
    if i == 0 {
        assert(s.subrange(0, 0) =~= Seq::<char>::empty());
    } else {
        let t = s.drop_first();
        assert forall|k: int| 0 <= k < i - 1 implies t[k] != ',' by {
            assert(t[k] == s[k + 1]);
        }
        if i < s.len() {
            assert(t[i - 1] == s[i]);
        }
        lemma_first_field(t, i - 1);
        assert(seq![s[0]] + t.subrange(0, i - 1) =~= s.subrange(0, i));
    }
}

/// The view of an optional header value.
pub open spec fn opt_view(o: Option<&str>) -> Option<Seq<char>> {
    match o {
        Some(s) => Some(s@),
        None => None,
    }
}

/// Who is asking: the first address of `X-Forwarded-For`, else `X-Real-IP`,
/// else a fixed placeholder; blank values do not count.
pub open spec fn fingerprint_of(forwarded_for: Option<Seq<char>>, real_ip: Option<Seq<char>>) -> Seq<
    char,
> {
    if forwarded_for is Some && trim(first_field(forwarded_for->0)).len() > 0 {
        trim(first_field(forwarded_for->0))
    } else if real_ip is Some && trim(real_ip->0).len() > 0 {
        trim(real_ip->0)
    } else {
        "unknown-client"@
    }
}

fn trimmed(v: &[char]) -> (r: Vec<char>)
    ensures
        r@ == trim(v@),
{
    let (a, b) = trim_bounds(v);
    slice_to_vec(v, a, b)
}

/// The client fingerprint from the values of the `X-Forwarded-For` and
/// `X-Real-IP` headers (`None` where a header is missing or not text).
pub fn client_fingerprint(forwarded_for: Option<&str>, real_ip: Option<&str>) -> (r: String)
    ensures
        r@ == fingerprint_of(opt_view(forwarded_for), opt_view(real_ip)),
{
    if let Some(f) = forwarded_for {
        let v = str_chars(f);
        let field = match find_char(v.as_slice(), ',') {
            Some(i) => {
                proof {
                    lemma_first_field(v@, i as int);
                }
                slice_to_vec(v.as_slice(), 0, i)
            },
            None => {
                proof {
                    lemma_first_field(v@, v@.len() as int);
                    assert(v@.subrange(0, v@.len() as int) =~= v@);
                }
                v
            },
        };
        let ip = trimmed(field.as_slice());
        if ip.len() > 0 {
            return string_from_chars(ip.as_slice());
        }
    }
    if let Some(x) = real_ip {
        let v = str_chars(x);
        let ip = trimmed(v.as_slice());
        if ip.len() > 0 {
            return string_from_chars(ip.as_slice());
        }
    }
    copy_str("unknown-client")
}

/// The table key of a request: its path, a bar, and the client fingerprint.
pub open spec fn request_key(path: Seq<char>, fingerprint: Seq<char>) -> Seq<char> {
    path.push('|') + fingerprint
}

pub fn limiter_key(path: &str, fingerprint: &str) -> (r: String)
    ensures
        r@ == request_key(path@, fingerprint@),
{
    let mut v = str_chars(path);
    v.push('|');
    push_str_chars(&mut v, fingerprint);
    string_from_chars(v.as_slice())
}

/// The table an attempt is counted in: pruned first when it has grown past
/// [`PRUNE_ABOVE`] keys.
pub open spec fn table_before_attempt(m: Map<Seq<char>, Bucket>, now: i64) -> Map<Seq<char>, Bucket> {
    if m.dom().len() > PRUNE_ABOVE {
        without_stale(m, now)
    } else {
        m
    }
}

/// The decision for one request: paths without a rule pass untouched; on the
/// others the attempt is counted under the request's key (after pruning an
/// oversized table) and admitted while the window's limit holds.
pub fn check_auth_attempt(
    buckets: &mut RateLimitBuckets,
    path: &str,
    fingerprint: &str,
    now_ms: i64,
) -> (allowed: bool)
    requires
        old(buckets).wf(),
    ensures
        final(buckets).wf(),
        (match rule_of(path@) {
            None => allowed && final(buckets)@ == old(buckets)@,
            Some(rule) => {
                let table = table_before_attempt(old(buckets)@, now_ms);
                let key = request_key(path@, fingerprint@);
                &&& final(buckets)@ == table.insert(key, attempt_result(table, key, now_ms, rule))
                &&& allowed == admitted(attempt_result(table, key, now_ms, rule), rule)
            },
        }),
{
    let rule = match rule_for_path(path) {
        Some(r) => r,
        None => {
            return true;
        },
    };
    if buckets.len() > PRUNE_ABOVE {
        prune_stale(buckets, now_ms);
    }
    let key = limiter_key(path, fingerprint);
    allow_attempt(buckets, key.as_str(), now_ms, rule)
}

/// Counting an attempt changes no bucket but that of its own key.
pub proof fn law_attempt_leaves_other_keys(
    m: Map<Seq<char>, Bucket>,
    key: Seq<char>,
    other: Seq<char>,
    now: i64,
    rule: Rule,
)
    requires
        other != key,
    ensures
        m.insert(key, attempt_result(m, key, now, rule)).contains_key(other) == m.contains_key(other),
        m.contains_key(other) ==> m.insert(key, attempt_result(m, key, now, rule))[other] == m[other],
{
}

/// Within a window, once the limit is reached every further attempt is refused
/// (for limits below the counter's ceiling, where the count saturates).
pub proof fn law_blocks_after_limit(b: Bucket, now: i64, rule: Rule)
    requires
        !window_expired(b, now, rule),
        b.attempts >= rule.max_attempts,
        rule.max_attempts < u32::MAX,
    ensures
        !admitted(after_attempt(b, now, rule), rule),
{
}

/// Within a window each attempt adds one to the count and keeps the window.
pub proof fn law_counts_within_window(b: Bucket, now: i64, rule: Rule)
    requires
        !window_expired(b, now, rule),
        b.attempts < u32::MAX,
    ensures
        after_attempt(b, now, rule).attempts == b.attempts + 1,
        after_attempt(b, now, rule).window_start_ms == b.window_start_ms,
        after_attempt(b, now, rule).last_seen_ms == now,
{
}

/// Once the window has run out, the next attempt opens a new window with a
/// count of one, and is admitted by any rule that admits an attempt at all.
pub proof fn law_window_resets(b: Bucket, now: i64, rule: Rule)
    requires
        window_expired(b, now, rule),
    ensures
        after_attempt(b, now, rule).attempts == 1,
        after_attempt(b, now, rule).window_start_ms == now,
        rule.max_attempts >= 1 ==> admitted(after_attempt(b, now, rule), rule),
{
}

/// The first attempt of a key is admitted by any rule that admits one.
pub proof fn law_first_attempt_admitted(m: Map<Seq<char>, Bucket>, key: Seq<char>, now: i64, rule: Rule)
    requires
        !m.contains_key(key),
        rule.max_attempts >= 1,
    ensures
        admitted(attempt_result(m, key, now, rule), rule),
{
}

/// Pruning keeps exactly the buckets seen within six hours, unchanged.
pub proof fn law_prune_keeps_recent(m: Map<Seq<char>, Bucket>, now: i64, k: Seq<char>)
    ensures
        without_stale(m, now).contains_key(k) == (m.contains_key(k) && !is_stale(m[k], now)),
        without_stale(m, now).contains_key(k) ==> without_stale(m, now)[k] == m[k],
{
}

/// The limits of the authentication paths: login 24 attempts per five
/// minutes, password-link requests 12 per fifteen minutes, password setup 24
/// per ten minutes, registration 12 per ten minutes, invitations 20 per hour;
/// every other path is not limited.  Every limit admits at least one attempt,
/// so the first attempt of any client on any path is let through.
pub proof fn law_auth_path_limits(path: Seq<char>, m: Map<Seq<char>, Bucket>, fingerprint: Seq<char>, now: i64)
    ensures
        rule_of("/v1/auth/login"@) matches Some(r) && r.max_attempts == 24 && r.window_ms == 300_000,
        rule_of("/v1/auth/request-password-link"@) matches Some(r) && r.max_attempts == 12 && r.window_ms == 900_000,
        rule_of("/v1/auth/setup"@) matches Some(r) && r.max_attempts == 24 && r.window_ms == 600_000,
        rule_of("/v1/auth/register"@) matches Some(r) && r.max_attempts == 12 && r.window_ms == 600_000,
        rule_of("/invite"@) matches Some(r) && r.max_attempts == 20 && r.window_ms == 3_600_000,
        rule_of(path) matches Some(r) ==> r.max_attempts >= 1 && r.window_ms > 0,
        rule_of(path) matches Some(r) ==> (!table_before_attempt(m, now).contains_key(
            request_key(path, fingerprint),
        ) ==> admitted(
            attempt_result(
                table_before_attempt(m, now),
                request_key(path, fingerprint),
                now,
                r,
            ),
            r,
        )),
{
    reveal_strlit("/v1/auth/login");
    reveal_strlit("/v1/auth/request-password-link");
    reveal_strlit("/v1/auth/setup");
    reveal_strlit("/v1/auth/register");
    reveal_strlit("/invite");
    let login = "/v1/auth/login"@;
    let link = "/v1/auth/request-password-link"@;
    let setup = "/v1/auth/setup"@;
    let register = "/v1/auth/register"@;
    let invite = "/invite"@;
    assert(link.len() != login.len());
    assert(setup[9] != login[9]);
    assert(setup.len() != link.len());
    assert(register.len() != login.len() && register.len() != link.len() && register.len() != setup.len());
    assert(invite.len() != login.len() && invite.len() != link.len() && invite.len() != setup.len()
        && invite.len() != register.len());
}

} // verus!
