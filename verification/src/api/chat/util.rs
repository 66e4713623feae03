//! Which client messages a chat request uses, and the summary figures logged
//! for it.
use crate::openrouter::Message;
use crate::text::{
    decimal, is_trim_empty, lemma_trim_idempotent, str_eq, string_from_chars, trim, trim_str,
    u64_decimal,
};
use vstd::prelude::*;
use vstd::string::StringSliceAdditionalSpecFns;
use vstd::utf8::encode_utf8;

verus! {

/// A message as a pair of role text and content text.
pub open spec fn msg_view(m: Message) -> (Seq<char>, Seq<char>) {
    (m.role@, m.content@)
}

pub open spec fn msg_views(s: Seq<Message>) -> Seq<(Seq<char>, Seq<char>)> {
    s.map_values(|m: Message| msg_view(m))
}

/// Roles a client may send.
pub open spec fn client_role(role: Seq<char>) -> bool {
    role == "user"@ || role == "assistant"@
}

/// The messages of a request that are used: those whose trimmed role is
/// `user` or `assistant` and whose content is not blank, with the role trimmed.
pub open spec fn usable_messages(s: Seq<Message>) -> Seq<(Seq<char>, Seq<char>)>
    decreases s.len(),
{
    if s.len() == 0 {
        Seq::empty()
    } else {
        let p = usable_messages(s.drop_last());
        let m = s.last();
        if client_role(trim(m.role@)) && trim(m.content@).len() > 0 {
            p.push((trim(m.role@), m.content@))
        } else {
            p
        }
    }
}

pub fn filter_client_messages(in_msgs: &[Message]) -> (r: Vec<Message>)
    ensures
        msg_views(r@) == usable_messages(in_msgs@),
{
    let mut out: Vec<Message> = Vec::new();
    let mut i: usize = 0;
    while i < in_msgs.len()
        invariant
            i <= in_msgs@.len(),
            msg_views(out@) == usable_messages(in_msgs@.subrange(0, i as int)),
        decreases in_msgs@.len() - i,
    {
        let m = &in_msgs[i];
        let role = trim_str(m.role.as_str());
        proof {
            assert(in_msgs@.subrange(0, i + 1).drop_last() =~= in_msgs@.subrange(0, i as int));
            assert(in_msgs@.subrange(0, i + 1).last() == in_msgs@[i as int]);
        }
        if (str_eq(role.as_str(), "user") || str_eq(role.as_str(), "assistant")) && !is_trim_empty(
            m.content.as_str(),
        ) {
            let content = m.content.clone();
            let ghost before = out@;
            out.push(Message { role, content });
            proof {
                assert(msg_views(out@) =~= msg_views(before).push((trim(in_msgs@[i as int].role@), in_msgs@[i as int].content@)));
            }
        }
        i = i + 1;
    }
    proof {
        assert(in_msgs@.subrange(0, in_msgs@.len() as int) =~= in_msgs@);
    }
    out
}

/// How many messages have the trimmed role `role`.
pub open spec fn count_role(s: Seq<Message>, role: Seq<char>) -> nat
    decreases s.len(),
{
    if s.len() == 0 {
        0
    } else {
        count_role(s.drop_last(), role) + if trim(s.last().role@) == role {
            1nat
        } else {
            0nat
        }
    }
}

proof fn lemma_count_role_bound(s: Seq<Message>, role: Seq<char>)
    ensures
        count_role(s, role) <= s.len(),
    decreases s.len(),
{
    if s.len() > 0 {
        lemma_count_role_bound(s.drop_last(), role);
    }
}

/// `u=<users> a=<assistants>`.
pub open spec fn role_summary(s: Seq<Message>) -> Seq<char> {
    seq!['u', '='] + decimal(count_role(s, "user"@)) + seq![' ', 'a', '='] + decimal(
        count_role(s, "assistant"@),
    )
}

/// The role counts of `msgs`, as logged.
pub fn role_counts(msgs: &[Message]) -> (r: String)
    ensures
        r@ == role_summary(msgs@),
{
    let n = msgs.len();
    let mut u: u64 = 0;
    let mut a: u64 = 0;
    let mut i: usize = 0;
    proof {
        reveal_strlit("user");
        reveal_strlit("assistant");
        assert("user"@[0] != "assistant"@[0]);
    }
    while i < msgs.len()
        invariant
            i <= msgs@.len(),
            n == msgs@.len(),
            "user"@ != "assistant"@,
            u == count_role(msgs@.subrange(0, i as int), "user"@),
            a == count_role(msgs@.subrange(0, i as int), "assistant"@),
        decreases msgs@.len() - i,
    {
        proof {
            assert(msgs@.subrange(0, i + 1).drop_last() =~= msgs@.subrange(0, i as int));
            lemma_count_role_bound(msgs@.subrange(0, i as int), "user"@);
            lemma_count_role_bound(msgs@.subrange(0, i as int), "assistant"@);
        }
        let role = trim_str(msgs[i].role.as_str());
        if str_eq(role.as_str(), "user") {
            u = u + 1;
        } else if str_eq(role.as_str(), "assistant") {
            a = a + 1;
        }
        i = i + 1;
    }
    proof {
        assert(msgs@.subrange(0, msgs@.len() as int) =~= msgs@);
    }
    let mut out: Vec<char> = Vec::new();
    out.push('u');
    out.push('=');
    let ud = u64_decimal(u);
    let mut k: usize = 0;
    let ghost b0 = out@;
    while k < ud.len()
        invariant
            k <= ud@.len(),
            out@ == b0 + ud@.subrange(0, k as int),
        decreases ud@.len() - k,
    {
        out.push(ud[k]);
        k = k + 1;
        assert(out@ == b0 + ud@.subrange(0, k as int));
    }
    assert(ud@.subrange(0, ud@.len() as int) =~= ud@);
    out.push(' ');
    out.push('a');
    out.push('=');
    let ad = u64_decimal(a);
    let mut k2: usize = 0;
    let ghost b1 = out@;
    while k2 < ad.len()
        invariant
            k2 <= ad@.len(),
            out@ == b1 + ad@.subrange(0, k2 as int),
        decreases ad@.len() - k2,
    {
        out.push(ad[k2]);
        k2 = k2 + 1;
        assert(out@ == b1 + ad@.subrange(0, k2 as int));
    }
    assert(ad@.subrange(0, ad@.len() as int) =~= ad@);
    assert(out@ =~= role_summary(msgs@));
    string_from_chars(out.as_slice())
}

/// The UTF-8 size of all contents together.
pub open spec fn content_bytes(s: Seq<Message>) -> nat
    decreases s.len(),
{
    if s.len() == 0 {
        0
    } else {
        content_bytes(s.drop_last()) + encode_utf8(s.last().content@).len()
    }
}

/// The total byte length of the contents of `msgs`.
pub fn total_chars(msgs: &[Message]) -> (r: usize)
    requires
        content_bytes(msgs@) <= usize::MAX,
    ensures
        r == content_bytes(msgs@),
{
    let mut total: usize = 0;
    let mut i: usize = 0;
    while i < msgs.len()
        invariant
            i <= msgs@.len(),
            content_bytes(msgs@) <= usize::MAX,
            total == content_bytes(msgs@.subrange(0, i as int)),
        decreases msgs@.len() - i,
    {
        proof {
            assert(msgs@.subrange(0, i + 1).drop_last() =~= msgs@.subrange(0, i as int));
            lemma_content_bytes_prefix(msgs@, i + 1);
        }
        let n = msgs[i].content.as_str().len();
        total = total + n;
        i = i + 1;
    }
    proof {
        assert(msgs@.subrange(0, msgs@.len() as int) =~= msgs@);
    }
    total
}

proof fn lemma_content_bytes_prefix(s: Seq<Message>, k: int)
    requires
        0 <= k <= s.len(),
    ensures
        content_bytes(s.subrange(0, k)) <= content_bytes(s),
    decreases s.len() - k,
{
    if k < s.len() {
        lemma_content_bytes_prefix(s, k + 1);
        assert(s.subrange(0, k + 1).drop_last() =~= s.subrange(0, k));
    } else {
        assert(s.subrange(0, k) =~= s);
    }
}

/// Every message `usable_messages` keeps is kept again, unchanged.
proof fn lemma_usable_stable(s: Seq<Message>)
    requires
        forall|i: int|
            0 <= i < s.len() ==> client_role((#[trigger] s[i]).role@) && trim(s[i].content@).len()
                > 0,
    ensures
        usable_messages(s) == msg_views(s),
    decreases s.len(),
{
    if s.len() > 0 {
        let t = s.drop_last();
        assert forall|i: int| 0 <= i < t.len() implies client_role((#[trigger] t[i]).role@)
            && trim(t[i].content@).len() > 0 by {
            assert(t[i] == s[i]);
        }
        lemma_usable_stable(t);
        let m = s.last();
        assert(client_role(m.role@));
        reveal_strlit("user");
        reveal_strlit("assistant");
        assert(trim(m.role@) == m.role@) by {
            if m.role@ == "user"@ {
                crate::text::lemma_trim_noop(m.role@);
            } else {
                crate::text::lemma_trim_noop(m.role@);
            }
        }
        assert(msg_views(s) =~= msg_views(t).push(msg_view(m)));
    }
}

proof fn lemma_usable_shape(s: Seq<Message>)
    ensures
        forall|i: int|
            0 <= i < usable_messages(s).len() ==> client_role((#[trigger] usable_messages(s)[i]).0)
                && trim(usable_messages(s)[i].1).len() > 0,
    decreases s.len(),
{
    if s.len() > 0 {
        let p = usable_messages(s.drop_last());
        lemma_usable_shape(s.drop_last());
        let u = usable_messages(s);
        assert forall|i: int| 0 <= i < u.len() implies client_role((#[trigger] u[i]).0) && trim(
            u[i].1,
        ).len() > 0 by {
            if i < p.len() {
                assert(u[i] == p[i]);
            }
        }
    }
}

/// Filtering the messages a filter kept keeps them all: filtering is
/// idempotent.
pub proof fn law_filter_idempotent(kept: Seq<Message>, given: Seq<Message>)
    requires
        msg_views(kept) == usable_messages(given),
    ensures
        usable_messages(kept) == msg_views(kept),
{
    lemma_usable_shape(given);
    assert forall|i: int| 0 <= i < kept.len() implies client_role((#[trigger] kept[i]).role@)
        && trim(kept[i].content@).len() > 0 by {
        assert(msg_views(kept)[i] == msg_view(kept[i]));
        assert(usable_messages(given)[i] == msg_views(kept)[i]);
    }
    lemma_usable_stable(kept);
}

} // verus!
