//! Fixed-point arithmetic for the selection policies: integer square roots
//! and a fixed-point logarithm, in millionths.

use vstd::prelude::*;

verus! {

/// The fixed-point scale: values carry six decimal places.
pub const FP: u64 = 1_000_000;

/// The integer square root: the largest `r` with `r * r <= x`.
pub open spec fn spec_isqrt(x: nat) -> nat
    decreases x,
{
    if x == 0 {
        0
    } else {
        let p = spec_isqrt((x - 1) as nat);
        if (p + 1) * (p + 1) <= x {
            p + 1
        } else {
            p
        }
    }
}

/// The defining property of the integer square root.
pub proof fn lemma_isqrt_bounds(x: nat)
    ensures
        spec_isqrt(x) * spec_isqrt(x) <= x,
        (spec_isqrt(x) + 1) * (spec_isqrt(x) + 1) > x,
    decreases x,
{
    if x > 0 {
        lemma_isqrt_bounds((x - 1) as nat);
        let p = spec_isqrt((x - 1) as nat);
        if (p + 1) * (p + 1) <= x {
            assert(spec_isqrt(x) == p + 1);
            assert((p + 1) * (p + 1) >= x);
            assert((p + 2) * (p + 2) > (p + 1) * (p + 1)) by (nonlinear_arith);
            assert((spec_isqrt(x) + 1) * (spec_isqrt(x) + 1) == (p + 2) * (p + 2));
        } else {
            assert(spec_isqrt(x) == p);
        }
    } else {
        assert(spec_isqrt(0nat) == 0);
        assert((0nat + 1) * (0nat + 1) == 1) by (nonlinear_arith);
    }
}

/// There is only one integer square root.
pub proof fn lemma_isqrt_unique(x: nat, r: nat)
    requires
        r * r <= x,
        (r + 1) * (r + 1) > x,
    ensures
        r == spec_isqrt(x),
{
    lemma_isqrt_bounds(x);
    let s = spec_isqrt(x);
    if r < s {
        assert((r + 1) * (r + 1) <= s * s) by (nonlinear_arith)
            requires r + 1 <= s;
        assert(false);
    }
    if s < r {
        assert((s + 1) * (s + 1) <= r * r) by (nonlinear_arith)
            requires s + 1 <= r;
        assert(false);
    }
}

/// The integer square root of a 64-bit value, by bisection.
pub fn isqrt(x: u64) -> (r: u64)
    ensures
        r == spec_isqrt(x as nat),
        r * r <= x,
{
    let mut lo: u64 = 0;
    let mut hi: u64 = 0x1_0000_0000;
    proof {
        assert((0x1_0000_0000u64 as nat) * (0x1_0000_0000u64 as nat) > u64::MAX as nat);
    }
    while lo + 1 < hi
        invariant
            lo < hi <= 0x1_0000_0000,
            lo * lo <= x as nat,
            hi * hi > x as nat,
        decreases hi - lo,
    {
        let mid = lo + (hi - lo) / 2;
        proof {
            assert(lo < mid < hi);
            assert(mid * mid <= 0x1_0000_0000u64 * 0x1_0000_0000u64) by (nonlinear_arith)
                requires mid <= 0x1_0000_0000u64;
        }
        let sq = (mid as u128) * (mid as u128);
        if sq <= x as u128 {
            lo = mid;
        } else {
            hi = mid;
        }
    }
    proof {
        lemma_isqrt_unique(x as nat, lo as nat);
    }
    lo
}

/// The position of the highest set bit: the largest `k` with `2^k <= n`.
pub open spec fn spec_floor_log2(n: nat) -> nat
    decreases n,
{
    if n <= 1 {
        0
    } else {
        1 + spec_floor_log2(n / 2)
    }
}

/// A fixed-point natural logarithm, in millionths: the integer part comes
/// from the highest set bit, the fraction from linear interpolation between
/// neighboring powers of two, and the whole is rescaled by ln 2. Exact at
/// powers of two, monotone everywhere, and cheap to evaluate.
pub open spec fn spec_ln_fp(n: nat) -> int {
    let k = spec_floor_log2(n);
    let p = vstd::arithmetic::power2::pow2(k);
    let lg = (k * FP) as int + (((n - p) * (FP as int)) / (p as int));
    (lg * 693_147) / (FP as int)
}

proof fn lemma_pow2_floor(n: nat)
    requires
        n >= 1,
    ensures
        vstd::arithmetic::power2::pow2(spec_floor_log2(n)) <= n,
        n < vstd::arithmetic::power2::pow2(spec_floor_log2(n) + 1),
    decreases n,
{
    vstd::arithmetic::power2::lemma_pow2_unfold(spec_floor_log2(n) + 1);
    if n <= 1 {
        vstd::arithmetic::power2::lemma2_to64();
    } else {
        lemma_pow2_floor(n / 2);
        vstd::arithmetic::power2::lemma_pow2_unfold(spec_floor_log2(n));
    }
}

/// The fixed-point natural logarithm of a positive count.
pub fn ln_fp(n: u64) -> (r: u64)
    requires
        n >= 1,
    ensures
        r == spec_ln_fp(n as nat),
        r <= 64 * 693_147,
{
    let mut k: u64 = 0;
    let mut p: u64 = 1;
    proof {
        vstd::arithmetic::power2::lemma2_to64();
        vstd::arithmetic::div_mod::lemma_div_basics_1(n as int);
    }
    while n / 2 >= p
        invariant
            k < 64,
            p == vstd::arithmetic::power2::pow2(k as nat),
            p <= n,
            spec_floor_log2(n as nat) >= k,
            spec_floor_log2((n as nat / (p as nat))) + k == spec_floor_log2(n as nat),
        decreases n - p,
    {
        proof {
            vstd::arithmetic::power2::lemma_pow2_unfold(k as nat + 1);
            vstd::arithmetic::power2::lemma_pow2_strictly_increases(k as nat, k as nat + 1);
            assert(2 * (p as int) <= n as int) by {
                vstd::arithmetic::div_mod::lemma_fundamental_div_mod(n as int, 2);
                vstd::arithmetic::div_mod::lemma_mod_bound(n as int, 2);
            }
            assert(n as nat / (p as nat) >= 2) by {
                vstd::arithmetic::div_mod::lemma_div_is_ordered(
                    2 * (p as int), n as int, p as int);
                assert((2 * (p as int)) / (p as int) == 2) by {
                    vstd::arithmetic::div_mod::lemma_div_by_multiple(2, p as int);
                }
            }
            assert((n as nat / (p as nat)) / 2 == n as nat / (2 * (p as nat))) by {
                vstd::arithmetic::div_mod::lemma_div_denominator(
                    n as int, p as int, 2);
            }
            if k as nat + 1 >= 64 {
                vstd::arithmetic::power2::lemma_pow2_strictly_increases(63, k as nat + 1);
                vstd::arithmetic::power2::lemma2_to64();
                assert(false);
            }
        }
        k = k + 1;
        p = p * 2;
    }
    proof {
        assert((n as nat) < 2 * (p as nat)) by {
            assert(n / 2 < p);
            vstd::arithmetic::div_mod::lemma_fundamental_div_mod(n as int, 2);
            vstd::arithmetic::div_mod::lemma_mod_bound(n as int, 2);
        }
        assert(n as nat / (p as nat) == 1) by {
            vstd::arithmetic::div_mod::lemma_fundamental_div_mod_converse(
                n as int, p as int, 1, n as int - p as int);
        }
        assert(spec_floor_log2(1) == 0);
        assert(spec_floor_log2(n as nat) == k);
    }
    proof {
        assert(((n - p) as nat) < (p as nat));
        let x = ((n - p) as int) * (FP as int);
        assert((x / (p as int)) < FP as int) by {
            vstd::arithmetic::div_mod::lemma_fundamental_div_mod(x, p as int);
            assert(x < (p as int) * (FP as int)) by (nonlinear_arith)
                requires ((n - p) as int) < (p as int), x == ((n - p) as int) * (FP as int);
            if x / (p as int) >= FP as int {
                vstd::arithmetic::div_mod::lemma_div_pos_is_pos(x, p as int);
                assert((p as int) * (x / (p as int)) >= (p as int) * (FP as int))
                    by (nonlinear_arith)
                    requires x / (p as int) >= FP as int, p as int >= 1;
                assert(x % (p as int) >= 0) by {
                    vstd::arithmetic::div_mod::lemma_mod_bound(x, p as int);
                }
                assert(false);
            }
        }
        assert(x >= 0) by (nonlinear_arith)
            requires ((n - p) as int) >= 0, FP as int > 0, x == ((n - p) as int) * (FP as int);
    }
    let frac = (((n - p) as u128) * (FP as u128) / (p as u128)) as u64;
    let lg = k * FP + frac;
    let r = ((lg as u128) * 693_147 / (FP as u128)) as u64;
    proof {
        let x = ((n - p) as int) * (FP as int);
        assert(lg as int == (spec_floor_log2(n as nat) * FP)
            + ((n as nat - vstd::arithmetic::power2::pow2(spec_floor_log2(n as nat))) * FP)
                / (vstd::arithmetic::power2::pow2(spec_floor_log2(n as nat)) as int));
        assert(lg < 64 * (FP as int));
        assert((lg as int) * 693_147 < 64 * (FP as int) * 693_147) by (nonlinear_arith)
            requires lg < 64 * (FP as int);
        assert(((lg as int) * 693_147) / (FP as int) <= 64 * 693_147) by {
            vstd::arithmetic::div_mod::lemma_div_is_ordered(
                (lg as int) * 693_147, 64 * (FP as int) * 693_147, FP as int);
            assert((64 * (FP as int) * 693_147) / (FP as int) == 64 * 693_147) by {
                assert(64 * (FP as int) * 693_147 == (64 * 693_147) * (FP as int))
                    by (nonlinear_arith);
                vstd::arithmetic::div_mod::lemma_div_by_multiple(64 * 693_147int, FP as int);
            }
        }
    }
    r
}

} // verus!
