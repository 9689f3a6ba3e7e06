//! Binomial coefficients for combinatorial unranking. The sampler never
//! draws more than 9 cards in one call, so coefficients are only needed
//! for `k <= 9`, where every value fits comfortably in 64 bits.

use vstd::prelude::*;
use vstd::arithmetic::power::{lemma_pow_increases, pow};
use vstd::arithmetic::mul::lemma_mul_inequality;

verus! {

/// Largest subset size the sampler ever draws in one call.
pub const MAX_DRAW: u32 = 9;

/// The binomial coefficient C(n, k), by Pascal's rule.
pub open spec fn spec_binom(n: nat, k: nat) -> nat
    decreases n,
{
    if k == 0 {
        1
    } else if n == 0 {
        0
    } else {
        spec_binom((n - 1) as nat, (k - 1) as nat) + spec_binom((n - 1) as nat, k)
    }
}

/// C(n, k) is zero exactly when k exceeds n.
pub proof fn lemma_binom_zero_iff(n: nat, k: nat)
    ensures
        (spec_binom(n, k) == 0) == (k > n),
    decreases n,
{
    if k != 0 && n != 0 {
        lemma_binom_zero_iff((n - 1) as nat, (k - 1) as nat);
        lemma_binom_zero_iff((n - 1) as nat, k);
    }
}

proof fn lemma_pow_base_increases(a: nat, b: nat, e: nat)
    requires
        a <= b,
    ensures
        pow(a as int, e) <= pow(b as int, e),
    decreases e,
{
    reveal(pow);
    if e > 0 {
        if a == 0 {
            vstd::arithmetic::power::lemma0_pow(e);
            if b > 0 {
                vstd::arithmetic::power::lemma_pow_positive(b as int, e);
            }
            return;
        }
        lemma_pow_base_increases(a, b, (e - 1) as nat);
        vstd::arithmetic::power::lemma_pow_positive(a as int, (e - 1) as nat);
        vstd::arithmetic::power::lemma_pow_positive(b as int, (e - 1) as nat);
        assert(a as int * pow(a as int, (e - 1) as nat)
            <= b as int * pow(a as int, (e - 1) as nat)) by {
            lemma_mul_inequality(a as int, b as int, pow(a as int, (e - 1) as nat));
            vstd::arithmetic::mul::lemma_mul_is_commutative(
                a as int, pow(a as int, (e - 1) as nat));
            vstd::arithmetic::mul::lemma_mul_is_commutative(
                b as int, pow(a as int, (e - 1) as nat));
        }
        assert(b as int * pow(a as int, (e - 1) as nat)
            <= b as int * pow(b as int, (e - 1) as nat)) by {
            vstd::arithmetic::mul::lemma_mul_left_inequality(
                b as int, pow(a as int, (e - 1) as nat), pow(b as int, (e - 1) as nat));
        }
    }
}

proof fn lemma_binom_le_pow(n: nat, k: nat)
    ensures
        spec_binom(n, k) <= pow(n as int, k) || (n == 0 && k > 0),
    decreases n,
{
    reveal(pow);
    if k == 0 {
        assert(pow(n as int, 0) == 1);
    } else if n == 0 {
    } else {
        let m = (n - 1) as nat;
        let j = (k - 1) as nat;
        lemma_binom_le_pow(m, j);
        lemma_binom_le_pow(m, k);
        vstd::arithmetic::power::lemma_pow_positive(n as int, j);
        if m == 0 {
            // C(1, k) is 1 when k <= 1 and 0 otherwise; pow(1, k) is 1.
            vstd::arithmetic::power::lemma1_pow(k);
            lemma_binom_zero_iff(m, k);
            if j > 0 {
                lemma_binom_zero_iff(m, j);
            }
        } else {
            // C(n, k) <= pow(m, j) + pow(m, k) = (1 + m) * pow(m, j)
            //         <= n * pow(n, j) = pow(n, k)
            assert(pow(m as int, k) == m as int * pow(m as int, j));
            assert(spec_binom(n, k) <= pow(m as int, j) + m as int * pow(m as int, j));
            assert(pow(m as int, j) + m as int * pow(m as int, j)
                == n as int * pow(m as int, j)) by {
                vstd::arithmetic::mul::lemma_mul_is_distributive_add_other_way(
                    pow(m as int, j), 1, m as int);
            }
            lemma_pow_base_increases(m, n, j);
            lemma_mul_inequality(pow(m as int, j), pow(n as int, j), n as int);
            vstd::arithmetic::mul::lemma_mul_is_commutative(pow(m as int, j), n as int);
            vstd::arithmetic::mul::lemma_mul_is_commutative(pow(n as int, j), n as int);
            assert(pow(n as int, k) == n as int * pow(n as int, j));
        }
    }
}

/// For the sizes the sampler uses, C(n, k) fits in 63 bits.
pub proof fn lemma_binom_bound(n: nat, k: nat)
    requires
        n <= 128,
        k <= 9,
    ensures
        spec_binom(n, k) <= 0x8000_0000_0000_0000,
{
    lemma_binom_le_pow(n, k);
    if n > 0 || k == 0 {
        lemma_pow_base_increases(n, 128, k);
        lemma_pow_increases(128, k, 9);
        assert(pow(128, 9) == 0x8000_0000_0000_0000) by {
            reveal_with_fuel(pow, 10);
        }
    }
}

/// C(n, k), computed by filling Pascal rows.
pub fn binom(n: u32, k: u32) -> (r: u64)
    requires
        n <= 128,
        k <= MAX_DRAW,
    ensures
        r == spec_binom(n as nat, k as nat),
        r <= 0x8000_0000_0000_0000,
{
    let mut row: [u64; 10] = [0; 10];
    row[0] = 1;
    assert forall|j: int| 0 <= j < 10
        implies row@[j] == spec_binom(0, j as nat) by {};
    let mut i: u32 = 0;
    while i < n
        invariant
            i <= n <= 128,
            forall|j: int| 0 <= j < 10 ==> row@[j] == spec_binom(i as nat, j as nat),
        decreases n - i,
    {
        let mut j: usize = 9;
        while j >= 1
            invariant
                j <= 9,
                i < 128,
                forall|l: int| j < l < 10 ==> row@[l] == spec_binom(i as nat + 1, l as nat),
                forall|l: int| 0 <= l <= j ==> row@[l] == spec_binom(i as nat, l as nat),
            decreases j,
        {
            proof {
                lemma_binom_bound(i as nat + 1, j as nat);
            }
            row[j] = row[j] + row[j - 1];
            j = j - 1;
        }
        i = i + 1;
    }
    proof {
        lemma_binom_bound(n as nat, k as nat);
    }
    row[k as usize]
}

/// The cumulative sum C(n, 0) + C(n, 1) + ... + C(n, k): the number of
/// subsets of size at most `k` of an n-element set.
pub open spec fn spec_binom_cum(n: nat, k: nat) -> nat
    decreases k,
{
    if k == 0 {
        spec_binom(n, 0)
    } else {
        spec_binom_cum(n, (k - 1) as nat) + spec_binom(n, k)
    }
}

/// The cumulative binomial sum, computed from `binom`.
pub fn binom_cum(n: u32, k: u32) -> (r: u128)
    requires
        n <= 128,
        k <= MAX_DRAW,
    ensures
        r == spec_binom_cum(n as nat, k as nat),
{
    let mut total: u128 = binom(n, 0) as u128;
    let mut j: u32 = 1;
    while j <= k
        invariant
            1 <= j <= k + 1,
            k <= MAX_DRAW,
            n <= 128,
            total == spec_binom_cum(n as nat, (j - 1) as nat),
            total <= j as int * 0x8000_0000_0000_0000,
        decreases k + 1 - j,
    {
        let b = binom(n, j);
        total = total + b as u128;
        j = j + 1;
    }
    total
}

/// Every subset-size sum is at least 1 (the empty subset is always counted).
pub proof fn lemma_binom_cum_pos(n: nat, k: nat)
    ensures
        spec_binom_cum(n, k) >= 1,
    decreases k,
{
    if k > 0 {
        lemma_binom_cum_pos(n, (k - 1) as nat);
    }
}

} // verus!
