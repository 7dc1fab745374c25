use vstd::prelude::*;
use vstd::arithmetic::power2::is_pow2;
use crate::utils::{copy_bytes, is_power_of_two, items_view};

verus! {

/// Whether a list of `n` items is too short, or of the wrong length, to be
/// paired up level by level.
pub open spec fn needs_padding(n: nat) -> bool {
    n < 2 || !is_pow2(n as int)
}

/// `p` doubled until it reaches `n`.
pub open spec fn doubled_up_to(p: nat, n: nat) -> nat
    decreases (if p < n { n - p } else { 0 }),
{
    if p == 0 || p >= n {
        p
    } else {
        doubled_up_to(2 * p, n)
    }
}

/// The length that a list of `n` items is padded to.
pub open spec fn padded_len(n: nat) -> nat {
    doubled_up_to(2, n)
}

/// The items followed by as many copies of the last one as the padded length
/// asks for.
pub open spec fn pad(items: Seq<Seq<u8>>) -> Seq<Seq<u8>> {
    Seq::new(
        padded_len(items.len()),
        |i: int|
            if i < items.len() {
                items[i]
            } else {
                items.last()
            },
    )
}

/// Of two different powers of two the larger is at least twice the smaller.
pub proof fn lemma_pow2_gap(a: int, b: int)
    requires
        is_pow2(a),
        is_pow2(b),
        a < b,
    ensures
        2 * a <= b,
    decreases a,
{
    reveal(is_pow2);
    if a > 1 {
        lemma_pow2_gap(a / 2, b / 2);
    }
}

proof fn lemma_doubled_up_to(p: nat, n: nat)
    requires
        is_pow2(p as int),
        p >= 2,
        p == 2 || p / 2 < n,
    ensures
        is_pow2(doubled_up_to(p, n) as int),
        doubled_up_to(p, n) >= n,
        doubled_up_to(p, n) >= 2,
        doubled_up_to(p, n) == 2 || doubled_up_to(p, n) / 2 < n,
    decreases (if p < n { n - p } else { 0 }),
{
    reveal(is_pow2);
    if p < n {
        lemma_doubled_up_to(2 * p, n);
    }
}

/// The padded length is the least power of two that is at least `n` and at
/// least 2, and a list that needs no padding keeps its length.
pub proof fn lemma_padded_len_is_least(n: nat)
    ensures
        is_pow2(padded_len(n) as int),
        padded_len(n) >= n,
        padded_len(n) >= 2,
        forall|q: nat| is_pow2(q as int) && q >= n && q >= 2 ==> padded_len(n) <= q,
        !needs_padding(n) ==> padded_len(n) == n,
{
    reveal(is_pow2);
    assert(is_pow2(2)) by {
        assert(is_pow2(1));
    }
    lemma_doubled_up_to(2, n);
    let m = padded_len(n);
    assert forall|q: nat| is_pow2(q as int) && q >= n && q >= 2 implies m <= q by {
        if q < m {
            lemma_pow2_gap(q as int, m as int);
        }
    }
}

/// Padding keeps the items where they are and fills up with copies of the
/// last one.
pub proof fn lemma_pad_copies_last(items: Seq<Seq<u8>>)
    requires
        items.len() > 0,
    ensures
        pad(items).len() == padded_len(items.len()),
        pad(items).subrange(0, items.len() as int) == items,
        forall|i: int| items.len() <= i < pad(items).len() ==> pad(items)[i] == items.last(),
        !needs_padding(items.len()) ==> pad(items) == items,
{
    lemma_padded_len_is_least(items.len());
}

/// The items, padded with copies of the last one.
pub fn pad_leaves(items: &Vec<Vec<u8>>) -> (out: Vec<Vec<u8>>)
    requires
        items@.len() > 0,
    ensures
        items_view(out@) == pad(items_view(items@)),
        out@.len() == padded_len(items@.len()),
        forall|i: int|
            0 <= i < out@.len() ==> (#[trigger] out@[i])@ == if i < items@.len() {
                items@[i]@
            } else {
                items@[items@.len() - 1]@
            },
{
    let n: usize = items.len();
    let mut out: Vec<Vec<u8>> = Vec::new();
    let mut i: usize = 0;
    while i < n
        invariant
            n == items@.len(),
            i <= n,
            out@.len() == i,
            forall|j: int| 0 <= j < i ==> out@[j]@ == items@[j]@,
        decreases n - i,
    {
        out.push(copy_bytes(items[i].as_slice()));
        i += 1;
    }
    proof {
        lemma_padded_len_is_least(n as nat);
    }
    while !is_power_of_two(out.len()) || out.len() < 2
        invariant
            n == items@.len(),
            n > 0,
            n <= out@.len() <= padded_len(n as nat),
            is_pow2(padded_len(n as nat) as int),
            padded_len(n as nat) >= 2,
            forall|j: int| 0 <= j < n ==> out@[j]@ == items@[j]@,
            forall|j: int| n <= j < out@.len() ==> out@[j]@ == items@[n - 1]@,
        decreases padded_len(n as nat) - out@.len(),
    {
        out.push(copy_bytes(items[n - 1].as_slice()));
    }
    out
}

} // verus!
