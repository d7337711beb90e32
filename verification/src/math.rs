use vstd::prelude::*;

verus! {

/// Two to the power `k`.
pub open spec fn pow2(k: nat) -> nat
    decreases k,
{
    if k == 0 {
        1
    } else {
        2 * pow2((k - 1) as nat)
    }
}

/// The least `k` such that `2^k >= x`.
pub open spec fn ceil_log2(x: nat) -> nat
    decreases x,
{
    if x <= 1 {
        0
    } else {
        1 + ceil_log2(((x + 1) / 2) as nat)
    }
}

/// The smallest power of two that is at least `x` (which is 1 for `x == 0`).
pub open spec fn next_pow2(x: nat) -> nat {
    pow2(ceil_log2(x))
}

/// Powers of two are positive.
pub proof fn lemma_pow2_pos(k: nat)
    ensures
        pow2(k) >= 1,
    decreases k,
{
    if k > 0 {
        lemma_pow2_pos((k - 1) as nat);
    }
}

/// `2^(k+1) == 2 * 2^k`.
pub proof fn lemma_pow2_succ(k: nat)
    ensures
        pow2(k + 1) == 2 * pow2(k),
{
}

/// Powers of two grow strictly with the exponent.
pub proof fn lemma_pow2_strictly_increases(a: nat, b: nat)
    requires
        a < b,
    ensures
        pow2(a) < pow2(b),
    decreases b,
{
    lemma_pow2_pos(a);
    if a + 1 < b {
        lemma_pow2_strictly_increases(a, (b - 1) as nat);
    }
}

/// Comparing powers of two is comparing exponents.
pub proof fn lemma_pow2_le_iff(a: nat, b: nat)
    ensures
        pow2(a) <= pow2(b) <==> a <= b,
        pow2(a) == pow2(b) <==> a == b,
{
    if a < b {
        lemma_pow2_strictly_increases(a, b);
    } else if b < a {
        lemma_pow2_strictly_increases(b, a);
    }
}

/// `2^ceil_log2(x)` is at least `x`, and `2^(ceil_log2(x) - 1)` is below `x`.
pub proof fn lemma_ceil_log2(x: nat)
    ensures
        pow2(ceil_log2(x)) >= x,
        x <= 1 ==> ceil_log2(x) == 0,
        x >= 2 ==> ceil_log2(x) >= 1 && pow2((ceil_log2(x) - 1) as nat) < x,
    decreases x,
{
    if x >= 2 {
        let y = ((x + 1) / 2) as nat;
        lemma_ceil_log2(y);
        lemma_pow2_succ(ceil_log2(y));
        if y >= 2 {
            lemma_pow2_succ((ceil_log2(y) - 1) as nat);
        }
    }
}

/// `next_pow2(x)` is the smallest power of two that is at least `x`.
pub proof fn lemma_next_pow2_is_least(x: nat, k: nat)
    requires
        pow2(k) >= x,
    ensures
        next_pow2(x) <= pow2(k),
        next_pow2(x) >= x,
{
    lemma_ceil_log2(x);
    let c = ceil_log2(x);
    if k < c {
        lemma_pow2_le_iff(k, (c - 1) as nat);
    }
    lemma_pow2_le_iff(c, k);
}

/// `usize::checked_next_power_of_two`: the smallest power of two greater than or
/// equal to `x`, or `None` where that power does not fit in a `usize` (as std's
/// documentation states).
#[verifier::external_body]
pub(crate) fn checked_next_power_of_two(x: usize) -> (r: Option<usize>)
    ensures
        r == (if next_pow2(x as nat) <= usize::MAX {
            Some(next_pow2(x as nat) as usize)
        } else {
            None::<usize>
        }),
{
    x.checked_next_power_of_two()
}

} // verus!

verus! {

/// The values of `2^k` that the SRS sizes are made of.
pub proof fn lemma_pow2_values()
    ensures
        pow2(15) == 32768,
        pow2(16) == 65536,
        pow2(27) == 134217728,
        pow2(28) == 268435456,
        pow2(29) == 536870912,
{
    reveal_with_fuel(pow2, 30);
}

} // verus!

verus! {

/// The exponent `k` with `2^(k-1) < x <= 2^k` is `ceil_log2(x)`.
pub proof fn lemma_ceil_log2_unique(x: nat, k: nat)
    requires
        x >= 2,
        k >= 1,
        pow2(k) >= x,
        pow2((k - 1) as nat) < x,
    ensures
        ceil_log2(x) == k,
{
    lemma_ceil_log2(x);
    let c = ceil_log2(x);
    if c < k {
        lemma_pow2_le_iff(c, (k - 1) as nat);
    } else if c > k {
        lemma_pow2_le_iff(k, (c - 1) as nat);
    }
}

/// The next power of two above `2^h` is `2^(h+1)`.
pub proof fn lemma_next_pow2_above_pow2(h: nat)
    ensures
        next_pow2(pow2(h) + 1) == pow2(h + 1),
{
    lemma_pow2_pos(h);
    lemma_ceil_log2_unique(pow2(h) + 1, h + 1);
}

} // verus!
