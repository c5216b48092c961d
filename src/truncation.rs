use vstd::prelude::*;

verus! {

/// Ten to the power `k`, as a mathematical integer.
pub open spec fn pow10(k: nat) -> nat
    decreases k,
{
    if k == 0 {
        1
    } else {
        10 * pow10((k - 1) as nat)
    }
}

/// The divisor used for the mean and variance of a query with truncation
/// exponent `k` over `count` observations: `min(10^k, count)`.
pub open spec fn divisor_spec(k: nat, count: nat) -> nat {
    if pow10(k) <= count {
        pow10(k)
    } else {
        count
    }
}

/// `min(10^k, count)`, computed without overflow for every `k`.
pub fn truncated_divisor(k: u32, count: usize) -> (n: usize)
    ensures
        n == divisor_spec(k as nat, count as nat),
{
    let mut p: usize = 1;
    let mut i: u32 = 0;
    while i < k
        invariant
            i <= k,
            p == pow10(i as nat),
            p <= count || i == 0,
        decreases k - i,
    {
        if p > count / 10 {
            proof {
                lemma_pow10_monotone(i as nat + 1, k as nat);
            }
            return count;
        }
        p = p * 10;
        i = i + 1;
    }
    if p <= count {
        p
    } else {
        count
    }
}

/// `pow10` does not decrease as its exponent grows.
pub proof fn lemma_pow10_monotone(a: nat, b: nat)
    requires
        a <= b,
    ensures
        pow10(a) <= pow10(b),
    decreases b - a,
{
    if a < b {
        lemma_pow10_monotone(a, (b - 1) as nat);
    }
}

} // verus!
