//! Orderings of the model table's columns.
use vstd::prelude::*;

verus! {

/// Text order: by characters (code points), a proper prefix first; -1, 0 or 1.
pub open spec fn lex_order(a: Seq<char>, b: Seq<char>) -> int
    decreases a.len(),
{
    if a.len() == 0 {
        if b.len() == 0 {
            0
        } else {
            -1
        }
    } else if b.len() == 0 {
        1
    } else if a[0] == b[0] {
        lex_order(a.drop_first(), b.drop_first())
    } else if a[0] < b[0] {
        -1
    } else {
        1
    }
}

/// Integer order: -1, 0 or 1.
pub open spec fn int_order(a: i64, b: i64) -> int {
    if a < b {
        -1
    } else if a == b {
        0
    } else {
        1
    }
}

/// The ordering a sign stands for.
pub open spec fn ordering_of(x: int) -> std::cmp::Ordering {
    if x < 0 {
        std::cmp::Ordering::Less
    } else if x == 0 {
        std::cmp::Ordering::Equal
    } else {
        std::cmp::Ordering::Greater
    }
}

fn lex_sign(a: &[char], b: &[char]) -> (r: i8)
    ensures
        sign_value(r) == lex_order(a@, b@),
{
    let mut i: usize = 0;
    proof {
        lemma_lex_start(a@, b@);
    }
    while i < a.len() && i < b.len() && a[i] == b[i]
        invariant
            i <= a@.len() && i <= b@.len(),
            lex_order(a@, b@) == lex_order(
                a@.subrange(i as int, a@.len() as int),
                b@.subrange(i as int, b@.len() as int),
            ),
        decreases a@.len() - i,
    {
        proof {
            let sa = a@.subrange(i as int, a@.len() as int);
            let sb = b@.subrange(i as int, b@.len() as int);
            assert(sa.drop_first() =~= a@.subrange(i + 1, a@.len() as int));
            assert(sb.drop_first() =~= b@.subrange(i + 1, b@.len() as int));
        }
        i = i + 1;
    }
    if i == a.len() {
        if i == b.len() {
            0
        } else {
            -1
        }
    } else if i == b.len() {
        1
    } else if a[i] < b[i] {
        -1
    } else {
        1
    }
}

proof fn lemma_lex_start(a: Seq<char>, b: Seq<char>)
    ensures
        lex_order(a, b) == lex_order(a.subrange(0, a.len() as int), b.subrange(0, b.len() as int)),
{
    assert(a.subrange(0, a.len() as int) =~= a);
    assert(b.subrange(0, b.len() as int) =~= b);
}

/// The value of a small sign.
pub open spec fn sign_value(x: i8) -> int {
    if x < 0 {
        -1
    } else if x == 0 {
        0
    } else {
        1
    }
}

fn sign_to_ordering(x: i8) -> (r: std::cmp::Ordering)
    ensures
        r == ordering_of(sign_value(x)),
{
    if x < 0 {
        std::cmp::Ordering::Less
    } else if x == 0 {
        std::cmp::Ordering::Equal
    } else {
        std::cmp::Ordering::Greater
    }
}

/// Text order, ascending or descending.
pub fn cmp_str(a: &str, b: &str, asc: bool) -> (r: std::cmp::Ordering)
    ensures
        r == ordering_of(
            if asc {
                lex_order(a@, b@)
            } else {
                lex_order(b@, a@)
            },
        ),
{
    let va = crate::text::str_chars(a);
    let vb = crate::text::str_chars(b);
    let s = if asc {
        lex_sign(va.as_slice(), vb.as_slice())
    } else {
        lex_sign(vb.as_slice(), va.as_slice())
    };
    sign_to_ordering(s)
}

/// Integer order, ascending or descending.
pub fn cmp_i64(a: i64, b: i64, asc: bool) -> (r: std::cmp::Ordering)
    ensures
        r == ordering_of(
            if asc {
                int_order(a, b)
            } else {
                int_order(b, a)
            },
        ),
{
    let (x, y) = if asc {
        (a, b)
    } else {
        (b, a)
    };
    if x < y {
        std::cmp::Ordering::Less
    } else if x == y {
        std::cmp::Ordering::Equal
    } else {
        std::cmp::Ordering::Greater
    }
}

/// Text order is antisymmetric: swapping the sides negates it.
pub proof fn lemma_lex_swap(a: Seq<char>, b: Seq<char>)
    ensures
        lex_order(a, b) == -lex_order(b, a),
    decreases a.len(),
{
    if a.len() > 0 && b.len() > 0 && a[0] == b[0] {
        lemma_lex_swap(a.drop_first(), b.drop_first());
    }
}

/// Text order is transitive.
pub proof fn lemma_lex_trans(a: Seq<char>, b: Seq<char>, c: Seq<char>)
    requires
        lex_order(a, b) <= 0,
        lex_order(b, c) <= 0,
    ensures
        lex_order(a, c) <= 0,
    decreases a.len(),
{
    if a.len() > 0 && b.len() > 0 && c.len() > 0 && a[0] == b[0] && b[0] == c[0] {
        lemma_lex_trans(a.drop_first(), b.drop_first(), c.drop_first());
    }
}

/// `a` comes no later than `b` in text order.
pub fn lex_le(a: &str, b: &str) -> (r: bool)
    ensures
        r == (lex_order(a@, b@) <= 0),
{
    let va = crate::text::str_chars(a);
    let vb = crate::text::str_chars(b);
    lex_sign(va.as_slice(), vb.as_slice()) <= 0
}

} // verus!
