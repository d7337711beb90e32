//! Which blocks of powers a download fetches, and under which degree each block
//! is published.

use vstd::prelude::*;

use crate::constants::{MAX_NUM_POWERS, NUM_POWERS_16};
use crate::errors::PowersError;
use crate::math::{lemma_pow2_le_iff, lemma_pow2_pos, lemma_pow2_values, next_pow2, pow2};

verus! {

/// The doubling sequence `n, 2n, 4n, ...` of the values that do not exceed `total`.
pub open spec fn doublings_through(n: nat, total: nat) -> Seq<nat>
    decreases total - n,
{
    if n == 0 || n > total {
        Seq::empty()
    } else if 2 * n > total {
        seq![n]
    } else {
        seq![n] + doublings_through(2 * n, total)
    }
}

/// The values `2s, 4s, 8s, ...` up to and including the first one that reaches `target`.
pub open spec fn doublings_until(s: nat, target: nat) -> Seq<nat>
    decreases target - s,
{
    if s == 0 || s >= target {
        Seq::empty()
    } else if 2 * s >= target {
        seq![2 * s]
    } else {
        seq![2 * s] + doublings_until(2 * s, target)
    }
}

/// The first block that a download of normal powers fetches when `held` powers
/// are held: the next power of two above `held`, and at least 2^16.
pub open spec fn first_normal_block(held: nat) -> nat {
    if next_pow2(held + 1) < NUM_POWERS_16 {
        NUM_POWERS_16 as nat
    } else {
        next_pow2(held + 1)
    }
}

/// The blocks, by their number of powers and in download order, that a download
/// of the normal powers up to `end` fetches when `held` normal powers are held.
pub open spec fn normal_download_queue(held: nat, end: nat) -> Seq<nat> {
    doublings_through(first_normal_block(held), next_pow2(end))
}

/// The blocks, by their number of powers and in download order, that a download
/// of the shifted powers from `start` fetches when `held` shifted powers are held:
/// the doublings of `held` up to the power of two that covers `MAX_NUM_POWERS - start`,
/// largest first.
pub open spec fn shifted_download_queue(held: nat, start: nat) -> Seq<nat> {
    doublings_until(held, next_pow2((MAX_NUM_POWERS - start) as nat)).reverse()
}

/// The number of powers that the blocks of `queue` hold together: a block of
/// `n` powers holds the `n / 2` powers that lie above the previous block.
pub open spec fn half_sum(queue: Seq<nat>) -> nat
    decreases queue.len(),
{
    if queue.len() == 0 {
        0
    } else {
        queue[0] / 2 + half_sum(queue.drop_first())
    }
}

/// `n` is `2^k` for an exponent `k` within `lo..=hi`.
pub open spec fn is_pow2_between(n: nat, lo: nat, hi: nat) -> bool {
    exists|k: nat| lo <= k <= hi && pow2(k) == n
}

/// The degree `k` of the block of `2^k` powers, searched among `lo..=hi`.
fn degree_between(num_powers: usize, lo: u32, hi: u32) -> (r: Result<u32, PowersError>)
    requires
        lo <= hi <= 28,
    ensures
        match r {
            Ok(k) => lo <= k <= hi && pow2(k as nat) == num_powers,
            Err(e) => e == PowersError::InvalidDegree(num_powers) && !is_pow2_between(
                num_powers as nat,
                lo as nat,
                hi as nat,
            ),
        },
{
    proof {
        lemma_pow2_values();
        lemma_pow2_le_iff(lo as nat, 28);
    }
    let mut k: u32 = 0;
    let mut p: usize = 1;
    while k < lo
        invariant
            k <= lo <= 28,
            p == pow2(k as nat),
            pow2(lo as nat) <= pow2(28),
            pow2(28) == 268435456,
        decreases lo - k,
    {
        proof {
            lemma_pow2_le_iff((k + 1) as nat, lo as nat);
        }
        p = p * 2;
        k = k + 1;
    }
    while k <= hi
        invariant
            lo <= k <= hi + 1,
            hi <= 28,
            p == pow2(k as nat),
            pow2(29) == 536870912,
            forall|j: nat| lo <= j < k ==> pow2(j) != num_powers,
        decreases hi + 1 - k,
    {
        if p == num_powers {
            return Ok(k);
        }
        proof {
            lemma_pow2_le_iff((k + 1) as nat, 29);
        }
        p = p * 2;
        k = k + 1;
    }
    Err(PowersError::InvalidDegree(num_powers))
}

/// The degree `k` under which the block of `2^k` normal powers is published:
/// the blocks of degrees 16 to 28 exist.
pub fn normal_degree(num_powers: usize) -> (r: Result<u32, PowersError>)
    ensures
        match r {
            Ok(k) => 16 <= k <= 28 && pow2(k as nat) == num_powers,
            Err(e) => e == PowersError::InvalidDegree(num_powers) && !is_pow2_between(
                num_powers as nat,
                16,
                28,
            ),
        },
{
    degree_between(num_powers, 16, 28)
}

/// The degree `k` under which the block of `2^k` shifted powers is published:
/// the blocks of degrees 16 to 27 exist.
pub fn shifted_degree(num_powers: usize) -> (r: Result<u32, PowersError>)
    ensures
        match r {
            Ok(k) => 16 <= k <= 27 && pow2(k as nat) == num_powers,
            Err(e) => e == PowersError::InvalidDegree(num_powers) && !is_pow2_between(
                num_powers as nat,
                16,
                27,
            ),
        },
{
    degree_between(num_powers, 16, 27)
}

} // verus!

verus! {

/// The doublings of `2^a` through `2^b` are `2^a, 2^(a+1), ..., 2^b`.
pub proof fn lemma_doublings_through_pow2(a: nat, b: nat)
    ensures
        doublings_through(pow2(a), pow2(b)) =~= Seq::new(
            if a <= b {
                (b - a + 1) as nat
            } else {
                0
            },
            |i: int| pow2((a + i) as nat),
        ),
    decreases b - a,
{
    lemma_pow2_pos(a);
    lemma_pow2_le_iff(a, b);
    lemma_pow2_le_iff(a + 1, b);
    if a < b {
        lemma_doublings_through_pow2(a + 1, b);
    }
}

/// The doublings of `2^a` until `2^b` are `2^(a+1), ..., 2^b`.
pub proof fn lemma_doublings_until_pow2(a: nat, b: nat)
    ensures
        doublings_until(pow2(a), pow2(b)) =~= Seq::new(
            if a < b {
                (b - a) as nat
            } else {
                0
            },
            |i: int| pow2((a + 1 + i) as nat),
        ),
    decreases b - a,
{
    lemma_pow2_pos(a);
    lemma_pow2_le_iff(a, b);
    lemma_pow2_le_iff(a + 1, b);
    if a + 1 < b {
        lemma_doublings_until_pow2(a + 1, b);
    }
}

/// The blocks `2^a, ..., 2^b` hold together the powers from `2^(a-1)` to `2^b`.
pub proof fn lemma_half_sum_pow2_run(a: nat, b: nat)
    requires
        1 <= a <= b + 1,
    ensures
        pow2((a - 1) as nat) + half_sum(Seq::new((b + 1 - a) as nat, |i: int| pow2((a + i) as nat)))
            == pow2(b),
    decreases b + 1 - a,
{
    let s = Seq::new((b + 1 - a) as nat, |i: int| pow2((a + i) as nat));
    if a <= b {
        let rest = Seq::new((b - a) as nat, |i: int| pow2((a + 1 + i) as nat));
        assert(s.drop_first() =~= rest);
        lemma_half_sum_pow2_run(a + 1, b);
    }
}

/// `half_sum` adds up over a concatenation.
pub proof fn lemma_half_sum_concat(x: Seq<nat>, y: Seq<nat>)
    ensures
        half_sum(x + y) == half_sum(x) + half_sum(y),
    decreases x.len(),
{
    if x.len() > 0 {
        assert((x + y).drop_first() =~= x.drop_first() + y);
        lemma_half_sum_concat(x.drop_first(), y);
    } else {
        assert(x + y =~= y);
    }
}

/// `half_sum` does not depend on the order of the blocks.
pub proof fn lemma_half_sum_reverse(q: Seq<nat>)
    ensures
        half_sum(q.reverse()) == half_sum(q),
    decreases q.len(),
{
    if q.len() > 0 {
        assert(q.reverse() =~= q.drop_first().reverse() + seq![q[0]]);
        lemma_half_sum_concat(q.drop_first().reverse(), seq![q[0]]);
        lemma_half_sum_reverse(q.drop_first());
        assert(seq![q[0]].drop_first() =~= Seq::<nat>::empty());
        assert(half_sum(seq![q[0]]) == q[0] / 2 + half_sum(Seq::<nat>::empty()));
    } else {
        assert(q.reverse() =~= q);
    }
}

/// Doubling `s` until `target` gathers, with `s` itself, at least `target` powers.
pub proof fn lemma_doublings_until_cover(s: nat, target: nat)
    requires
        s > 0,
    ensures
        s + half_sum(doublings_until(s, target)) >= target,
    decreases target - s,
{
    if s < target {
        let rest = doublings_until(2 * s, target);
        if 2 * s >= target {
            assert(seq![2 * s].drop_first() =~= Seq::<nat>::empty());
        } else {
            assert((seq![2 * s] + rest).drop_first() =~= rest);
            lemma_doublings_until_cover(2 * s, target);
        }
    }
}

} // verus!
