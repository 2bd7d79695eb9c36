//! Integer facts shared by the cache geometry code.

use vstd::prelude::*;

verus! {

/// `2^k`.
pub open spec fn two_pow(k: nat) -> nat
    decreases k,
{
    if k == 0 {
        1
    } else {
        2 * two_pow((k - 1) as nat)
    }
}

/// Number of significant binary digits of `m` (0 for 0).
pub open spec fn bit_length(m: nat) -> nat
    decreases m,
{
    if m == 0 {
        0
    } else {
        1 + bit_length(m / 2)
    }
}

/// The least `k` with `n <= 2^k`, i.e. `ceil(log2(n))`, taken as 0 for `n <= 1`.
pub open spec fn spec_ceil_log2(n: nat) -> nat {
    if n <= 1 {
        0
    } else {
        bit_length((n - 1) as nat)
    }
}

pub proof fn lemma_two_pow_positive(k: nat)
    ensures
        two_pow(k) >= 1,
    decreases k,
{
    if k > 0 {
        lemma_two_pow_positive((k - 1) as nat);
    }
}

pub proof fn lemma_two_pow_monotone(a: nat, b: nat)
    requires
        a <= b,
    ensures
        two_pow(a) <= two_pow(b),
    decreases b,
{
    if a < b {
        lemma_two_pow_monotone(a, (b - 1) as nat);
        lemma_two_pow_positive((b - 1) as nat);
    }
}

/// The concrete value of `2^16`.
pub proof fn lemma_two_pow_16()
    ensures
        two_pow(16) == 0x1_0000,
{
    reveal_with_fuel(two_pow, 17);
}

/// `2^(a + b) == 2^a * 2^b`.
pub proof fn lemma_two_pow_add(a: nat, b: nat)
    ensures
        two_pow(a + b) == two_pow(a) * two_pow(b),
    decreases b,
{
    if b == 0 {
        assert(two_pow(a + b) == two_pow(a));
        assert(two_pow(b) == 1);
        assert(two_pow(a) * 1 == two_pow(a));
    } else {
        let pa = two_pow(a);
        let pb1 = two_pow((b - 1) as nat);
        lemma_two_pow_add(a, (b - 1) as nat);
        assert((a + b - 1) as nat == a + (b - 1) as nat);
        assert(two_pow(a + b) == 2 * two_pow((a + b - 1) as nat));
        assert(two_pow(a + b) == 2 * (pa * pb1));
        assert(two_pow(b) == 2 * pb1);
        assert(pa * (2 * pb1) == 2 * (pa * pb1)) by (nonlinear_arith);
    }
}

/// The concrete value of `2^64`.
pub proof fn lemma_two_pow_64()
    ensures
        two_pow(64) == 0x1_0000_0000_0000_0000,
{
    lemma_two_pow_16();
    lemma_two_pow_add(16, 16);
    assert(two_pow(32) == 0x1_0000_0000);
    lemma_two_pow_add(32, 32);
}

/// The concrete powers of two that bound cache geometry.
pub proof fn lemma_two_pow_small()
    ensures
        two_pow(10) == 1024,
        two_pow(11) == 2048,
{
    reveal_with_fuel(two_pow, 12);
}

/// `bit_length(m)` is the exponent of the power of two just above `m`.
pub proof fn lemma_bit_length_bounds(m: nat)
    ensures
        m == 0 ==> bit_length(m) == 0,
        m > 0 ==> bit_length(m) >= 1 && two_pow((bit_length(m) - 1) as nat) <= m,
        m < two_pow(bit_length(m)),
    decreases m,
{
    if m > 0 {
        lemma_bit_length_bounds(m / 2);
        if m / 2 == 0 {
            assert(bit_length(m / 2) == 0);
        } else {
            lemma_two_pow_positive(bit_length(m / 2));
        }
    }
}

/// A number below `2^k` has at most `k` significant digits.
pub proof fn lemma_bit_length_at_most(m: nat, k: nat)
    requires
        m < two_pow(k),
    ensures
        bit_length(m) <= k,
{
    lemma_bit_length_bounds(m);
    if bit_length(m) > k {
        lemma_two_pow_monotone(k, (bit_length(m) - 1) as nat);
    }
}

/// `ceil_log2` characterised: `2^(r-1) < n <= 2^r` (and `r == 0` when `n <= 1`).
pub proof fn lemma_ceil_log2_bounds(n: nat)
    ensures
        n <= two_pow(spec_ceil_log2(n)),
        spec_ceil_log2(n) > 0 ==> two_pow((spec_ceil_log2(n) - 1) as nat) < n,
        n <= 1 ==> spec_ceil_log2(n) == 0,
{
    if n > 1 {
        lemma_bit_length_bounds((n - 1) as nat);
    }
}

} // verus!
