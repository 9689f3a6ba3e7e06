//! A bit-packed set of up to 128 small card-instance identifiers, with O(1)
//! set algebra and uniform combinatorial sampling.

use vstd::prelude::*;
use crate::binomial::{
    binom, binom_cum, lemma_binom_bound, lemma_binom_cum_pos, lemma_binom_zero_iff,
    spec_binom, spec_binom_cum, MAX_DRAW,
};
use crate::rng::{rand_below, rand_below_u128};
use rand::rngs::SmallRng;

verus! {

/// Whether bit `i` of a 128-bit mask is set.
pub open spec fn bit_set(bits: u128, i: u8) -> bool {
    i < 128 && (bits >> (i as u128)) & 1u128 == 1u128
}

/// The set of identifiers encoded by a 128-bit mask.
pub open spec fn mask_as_set(bits: u128) -> Set<u8> {
    Set::new(|i: u8| bit_set(bits, i))
}

/// An unordered collection of card instances, one bit per instance id.
/// Bit `i` set means identifier `i` is a member; ids must be below 128.
#[derive(Debug, Clone, Copy, PartialEq, Eq, Structural)]
pub struct UnorderedCards(pub u128);

/// Buyer instances use the same 128-bit set representation.
pub type UnorderedBuyers = UnorderedCards;

impl View for UnorderedCards {
    type V = Set<u8>;

    open spec fn view(&self) -> Set<u8> {
        mask_as_set(self.0)
    }
}

proof fn lemma_bit_or_single(a: u128, id: u8, i: u8)
    by (bit_vector)
    requires
        id < 128,
        i < 128,
    ensures
        ((a | (1u128 << (id as u128))) >> (i as u128)) & 1u128
            == if i == id { 1u128 } else { (a >> (i as u128)) & 1u128 },
{
}

proof fn lemma_bit_clear_single(a: u128, id: u8, i: u8)
    by (bit_vector)
    requires
        id < 128,
        i < 128,
    ensures
        ((a & !(1u128 << (id as u128))) >> (i as u128)) & 1u128
            == if i == id { 0u128 } else { (a >> (i as u128)) & 1u128 },
{
}

proof fn lemma_bit_or(a: u128, b: u128, i: u8)
    by (bit_vector)
    requires
        i < 128,
    ensures
        (((a | b) >> (i as u128)) & 1u128 == 1u128)
            == ((a >> (i as u128)) & 1u128 == 1u128 || (b >> (i as u128)) & 1u128 == 1u128),
{
}

proof fn lemma_bit_and(a: u128, b: u128, i: u8)
    by (bit_vector)
    requires
        i < 128,
    ensures
        (((a & b) >> (i as u128)) & 1u128 == 1u128)
            == ((a >> (i as u128)) & 1u128 == 1u128 && (b >> (i as u128)) & 1u128 == 1u128),
{
}

proof fn lemma_bit_diff(a: u128, b: u128, i: u8)
    by (bit_vector)
    requires
        i < 128,
    ensures
        (((a & !b) >> (i as u128)) & 1u128 == 1u128)
            == ((a >> (i as u128)) & 1u128 == 1u128 && !((b >> (i as u128)) & 1u128 == 1u128)),
{
}

proof fn lemma_bit_is_zero_or_one(a: u128, i: u8)
    by (bit_vector)
    ensures
        ((a >> (i as u128)) & 1u128) == 0u128 || ((a >> (i as u128)) & 1u128) == 1u128,
{
}

proof fn lemma_low_bit_or_shift(a: u128)
    by (bit_vector)
    requires
        a != 0,
    ensures
        a & 1u128 == 1u128 || a >> 1u128 != 0,
        (a >> 0u128) & 1u128 == a & 1u128,
        a >> 1u128 < a,
{
}

proof fn lemma_shift_chain(a: u128, i: u8)
    by (bit_vector)
    requires
        i < 127,
    ensures
        ((a >> 1u128) >> (i as u128)) & 1u128 == (a >> ((i + 1) as u128)) & 1u128,
{
}

/// A nonzero mask has a set bit.
proof fn lemma_nonzero_has_bit(a: u128) -> (i: u8)
    requires
        a != 0,
    ensures
        i < 128,
        bit_set(a, i),
    decreases a,
{
    lemma_low_bit_or_shift(a);
    if a & 1u128 == 1u128 {
        assert(bit_set(a, 0));
        0
    } else {
        let j = lemma_nonzero_has_bit(a >> 1u128);
        if j < 127 {
            lemma_shift_chain(a, j);
            assert(bit_set(a, (j + 1) as u8));
            (j + 1) as u8
        } else {
            // Bit 127 of `a >> 1` is always clear, so this branch cannot
            // be reached; any witness suffices for the verifier here.
            assert(((a >> 1u128) >> 127u128) & 1u128 == 0u128) by (bit_vector);
            assert(false);
            0
        }
    }
}

proof fn lemma_xor_bit(a: u128, b: u128, i: u8)
    by (bit_vector)
    requires
        i < 128,
    ensures
        (((a ^ b) >> (i as u128)) & 1u128 == 1u128)
            == (((a >> (i as u128)) & 1u128) != ((b >> (i as u128)) & 1u128)),
{
}

proof fn lemma_xor_zero(a: u128, b: u128)
    by (bit_vector)
    requires
        a ^ b == 0,
    ensures
        a == b,
{
}

/// Masks encoding the same set of identifiers are the same mask.
pub proof fn lemma_mask_set_injective(a: u128, b: u128)
    requires
        mask_as_set(a) == mask_as_set(b),
    ensures
        a == b,
{
    if a ^ b != 0 {
        let i = lemma_nonzero_has_bit(a ^ b);
        lemma_xor_bit(a, b, i);
        lemma_bit_is_zero_or_one(a, i);
        lemma_bit_is_zero_or_one(b, i);
        assert(mask_as_set(a).contains(i) == bit_set(a, i));
        assert(mask_as_set(b).contains(i) == bit_set(b, i));
        assert(mask_as_set(a).contains(i) == mask_as_set(b).contains(i));
        assert(false);
    }
    lemma_xor_zero(a, b);
}

/// Number of set bits at positions below `n`.
pub open spec fn count_bits_below(bits: u128, n: int) -> nat
    decreases n,
{
    if n <= 0 {
        0
    } else {
        count_bits_below(bits, n - 1) + if bit_set(bits, (n - 1) as u8) { 1nat } else { 0nat }
    }
}

/// Number of set bits of a mask.
pub open spec fn popcount(bits: u128) -> nat {
    count_bits_below(bits, 128)
}

/// The set of members below position `n`.
spec fn members_below(bits: u128, n: int) -> Set<u8> {
    Set::new(|i: u8| (i as int) < n && bit_set(bits, i))
}

proof fn lemma_count_is_card(bits: u128, n: int)
    requires
        0 <= n <= 128,
    ensures
        members_below(bits, n).finite(),
        members_below(bits, n).len() == count_bits_below(bits, n),
    decreases n,
{
    if n == 0 {
        assert(members_below(bits, 0) =~= Set::empty());
    } else {
        lemma_count_is_card(bits, n - 1);
        if bit_set(bits, (n - 1) as u8) {
            assert(members_below(bits, n)
                =~= members_below(bits, n - 1).insert((n - 1) as u8));
        } else {
            assert(members_below(bits, n) =~= members_below(bits, n - 1));
        }
    }
}

/// A mask holds `popcount` many identifiers.
pub proof fn lemma_popcount_is_len(bits: u128)
    ensures
        mask_as_set(bits).finite(),
        mask_as_set(bits).len() == popcount(bits),
{
    lemma_count_is_card(bits, 128);
    assert(mask_as_set(bits) =~= members_below(bits, 128));
}

impl UnorderedCards {
    /// The empty set.
    pub fn new() -> (r: Self)
        ensures
            r@ == Set::<u8>::empty(),
            r.0 == 0,
    {
        proof {
            assert forall|i: u8| !bit_set(0u128, i) by {
                if i < 128 {
                    assert((0u128 >> (i as u128)) & 1u128 == 0u128) by (bit_vector);
                }
            }
            assert(mask_as_set(0) =~= Set::<u8>::empty());
        }
        UnorderedCards(0)
    }

    /// Whether `id` is a member.
    pub fn contains(&self, id: u8) -> (r: bool)
        requires
            id < 128,
        ensures
            r == self@.contains(id),
    {
        (self.0 >> (id as u128)) & 1u128 == 1u128
    }

    /// Add `id` to the set.
    pub fn insert(&mut self, id: u8)
        requires
            id < 128,
        ensures
            final(self)@ == old(self)@.insert(id),
    {
        proof {
            let a = self.0;
            assert forall|i: u8| mask_as_set(a | (1u128 << (id as u128))).contains(i)
                == mask_as_set(a).insert(id).contains(i) by {
                if i < 128 {
                    lemma_bit_or_single(a, id, i);
                }
            }
            assert(mask_as_set(a | (1u128 << (id as u128))) =~= mask_as_set(a).insert(id));
        }
        self.0 = self.0 | (1u128 << (id as u128));
    }

    /// Remove `id` from the set.
    pub fn remove(&mut self, id: u8)
        requires
            id < 128,
        ensures
            final(self)@ == old(self)@.remove(id),
    {
        proof {
            let a = self.0;
            assert forall|i: u8| mask_as_set(a & !(1u128 << (id as u128))).contains(i)
                == mask_as_set(a).remove(id).contains(i) by {
                if i < 128 {
                    lemma_bit_clear_single(a, id, i);
                }
            }
            assert(mask_as_set(a & !(1u128 << (id as u128))) =~= mask_as_set(a).remove(id));
        }
        self.0 = self.0 & !(1u128 << (id as u128));
    }

    /// Number of members.
    pub fn len(&self) -> (r: u32)
        ensures
            r == self@.len(),
            r <= 128,
    {
        let mut count: u32 = 0;
        let mut i: usize = 0;
        while i < 128
            invariant
                i <= 128,
                count == count_bits_below(self.0, i as int),
                count <= i,
            decreases 128 - i,
        {
            if (self.0 >> (i as u128)) & 1u128 == 1u128 {
                count = count + 1;
            }
            i = i + 1;
        }
        proof {
            lemma_popcount_is_len(self.0);
        }
        count
    }

    /// Whether the set has no members.
    pub fn is_empty(&self) -> (r: bool)
        ensures
            r == (self@ == Set::<u8>::empty()),
            r == (self.0 == 0),
    {
        proof {
            let a = self.0;
            if a == 0 {
                assert forall|i: u8| !bit_set(a, i) by {
                    if i < 128 {
                        assert((0u128 >> (i as u128)) & 1u128 == 0u128) by (bit_vector);
                    }
                }
                assert(mask_as_set(a) =~= Set::<u8>::empty());
            } else {
                let i = lemma_nonzero_has_bit(a);
                assert(mask_as_set(a).contains(i));
                assert(mask_as_set(a) != Set::<u8>::empty());
            }
        }
        self.0 == 0
    }

    /// Set union; pure, O(1).
    pub fn union(self, other: Self) -> (r: Self)
        ensures
            r@ == self@.union(other@),
    {
        proof {
            assert forall|i: u8| mask_as_set(self.0 | other.0).contains(i)
                == self@.union(other@).contains(i) by {
                if i < 128 {
                    lemma_bit_or(self.0, other.0, i);
                }
            }
            assert(mask_as_set(self.0 | other.0) =~= self@.union(other@));
        }
        UnorderedCards(self.0 | other.0)
    }

    /// Set intersection; pure, O(1).
    pub fn intersection(self, other: Self) -> (r: Self)
        ensures
            r@ == self@.intersect(other@),
    {
        proof {
            assert forall|i: u8| mask_as_set(self.0 & other.0).contains(i)
                == self@.intersect(other@).contains(i) by {
                if i < 128 {
                    lemma_bit_and(self.0, other.0, i);
                }
            }
            assert(mask_as_set(self.0 & other.0) =~= self@.intersect(other@));
        }
        UnorderedCards(self.0 & other.0)
    }

    /// Set difference; pure, O(1).
    pub fn difference(self, other: Self) -> (r: Self)
        ensures
            r@ == self@.difference(other@),
    {
        proof {
            assert forall|i: u8| mask_as_set(self.0 & !other.0).contains(i)
                == self@.difference(other@).contains(i) by {
                if i < 128 {
                    lemma_bit_diff(self.0, other.0, i);
                }
            }
            assert(mask_as_set(self.0 & !other.0) =~= self@.difference(other@));
        }
        UnorderedCards(self.0 & !other.0)
    }

    /// The smallest member, if any.
    pub fn lowest_bit(&self) -> (r: Option<u8>)
        ensures
            match r {
                Option::Some(id) => self@.contains(id)
                    && forall|j: u8| j < id ==> !self@.contains(j),
                Option::None => self@ == Set::<u8>::empty(),
            },
    {
        let mut i: usize = 0;
        while i < 128
            invariant
                i <= 128,
                forall|j: u8| (j as int) < i as int ==> !bit_set(self.0, j),
            decreases 128 - i,
        {
            if (self.0 >> (i as u128)) & 1u128 == 1u128 {
                return Some(i as u8);
            }
            i = i + 1;
        }
        proof {
            assert(mask_as_set(self.0) =~= Set::<u8>::empty());
        }
        None
    }

    /// The members in ascending order.
    pub fn members(&self) -> (r: Vec<u8>)
        ensures
            r@.len() == self@.len(),
            forall|k: int| 0 <= k < r@.len() ==> self@.contains(#[trigger] r@[k]),
            forall|k: int, l: int| 0 <= k < l < r@.len() ==> r@[k] < r@[l],
            forall|id: u8| self@.contains(id) ==> r@.contains(id),
    {
        let mut out: Vec<u8> = Vec::new();
        let mut i: usize = 0;
        while i < 128
            invariant
                i <= 128,
                out@.len() == count_bits_below(self.0, i as int),
                forall|k: int| 0 <= k < out@.len()
                    ==> bit_set(self.0, #[trigger] out@[k]) && (out@[k] as int) < i as int,
                forall|k: int, l: int| 0 <= k < l < out@.len() ==> out@[k] < out@[l],
                forall|id: u8| (id as int) < i as int && bit_set(self.0, id) ==> out@.contains(id),
            decreases 128 - i,
        {
            let ghost prev = out@;
            if (self.0 >> (i as u128)) & 1u128 == 1u128 {
                out.push(i as u8);
            }
            proof {
                assert forall|id: u8| (id as int) < i as int + 1 && bit_set(self.0, id)
                    implies out@.contains(id) by {
                    if (id as int) < i as int {
                        let k = choose|k: int| 0 <= k < prev.len() && prev[k] == id;
                        assert(out@[k] == id);
                    } else {
                        assert(out@[out@.len() - 1] == id);
                    }
                }
            }
            i = i + 1;
        }
        proof {
            lemma_popcount_is_len(self.0);
        }
        out
    }

    /// A cursor over the members, lowest first.
    pub fn iter(self) -> (r: BitIter)
        ensures
            r.cards@ == self@,
    {
        BitIter { cards: self }
    }
}

/// A cursor that hands out the members of an `UnorderedCards`, lowest first.
#[derive(Debug, Clone, Copy)]
pub struct BitIter {
    /// The members not yet handed out.
    pub cards: UnorderedCards,
}

impl BitIter {
    /// The smallest remaining member, removed from the cursor.
    pub fn next(&mut self) -> (r: Option<u8>)
        ensures
            match r {
                Option::Some(id) => old(self).cards@.contains(id)
                    && (forall|j: u8| j < id ==> !old(self).cards@.contains(j))
                    && final(self).cards@ == old(self).cards@.remove(id),
                Option::None => old(self).cards@ == Set::<u8>::empty()
                    && final(self).cards@ == old(self).cards@,
            },
    {
        match self.cards.lowest_bit() {
            Some(id) => {
                self.cards.remove(id);
                Some(id)
            }
            None => None,
        }
    }

    /// How many members remain.
    pub fn len(&self) -> (r: u32)
        ensures
            r == self.cards@.len(),
    {
        self.cards.len()
    }

    /// Exact bounds on how many members remain.
    pub fn size_hint(&self) -> (r: (u32, u32))
        ensures
            r.0 == self.cards@.len(),
            r.1 == self.cards@.len(),
    {
        let n = self.cards.len();
        (n, n)
    }
}

proof fn lemma_count_bits_monotone(bits: u128, a: int, b: int)
    requires
        0 <= a <= b,
    ensures
        count_bits_below(bits, a) <= count_bits_below(bits, b),
    decreases b - a,
{
    if a < b {
        lemma_count_bits_monotone(bits, a, b - 1);
    }
}

/// Conservation: what a draw removed and what it left behind partition the
/// original set, as 128-bit masks.
pub proof fn lemma_draw_conservation(
    original: UnorderedCards,
    drawn: UnorderedCards,
    remainder: UnorderedCards,
)
    requires
        drawn@.subset_of(original@),
        remainder@ == original@.difference(drawn@),
    ensures
        drawn.0 | remainder.0 == original.0,
        drawn.0 & remainder.0 == 0,
{
    assert forall|i: u8| mask_as_set(drawn.0 | remainder.0).contains(i)
        == mask_as_set(original.0).contains(i) by {
        if i < 128 {
            lemma_bit_or(drawn.0, remainder.0, i);
            assert(mask_as_set(drawn.0 | remainder.0).contains(i)
                == bit_set(drawn.0 | remainder.0, i));
            assert(bit_set(drawn.0, i) == drawn@.contains(i));
            assert(bit_set(remainder.0, i) == remainder@.contains(i));
            assert(remainder@.contains(i) == (original@.contains(i) && !drawn@.contains(i)));
            assert(drawn@.contains(i) ==> original@.contains(i));
        }
    }
    assert(mask_as_set(drawn.0 | remainder.0) =~= mask_as_set(original.0));
    lemma_mask_set_injective(drawn.0 | remainder.0, original.0);

    assert forall|i: u8| !mask_as_set(drawn.0 & remainder.0).contains(i) by {
        if i < 128 {
            lemma_bit_and(drawn.0, remainder.0, i);
            assert(mask_as_set(drawn.0 & remainder.0).contains(i)
                == bit_set(drawn.0 & remainder.0, i));
            assert(bit_set(drawn.0, i) == drawn@.contains(i));
            assert(bit_set(remainder.0, i) == remainder@.contains(i));
            assert(remainder@.contains(i) == (original@.contains(i) && !drawn@.contains(i)));
        }
    }
    assert forall|i: u8| !bit_set(0u128, i) by {
        if i < 128 {
            assert((0u128 >> (i as u128)) & 1u128 == 0u128) by (bit_vector);
        }
    }
    assert(mask_as_set(0u128) =~= Set::<u8>::empty());
    assert(mask_as_set(drawn.0 & remainder.0) =~= mask_as_set(0));
    lemma_mask_set_injective(drawn.0 & remainder.0, 0);
}

/// Number of set bits at positions at or above `i`.
pub open spec fn count_bits_from(bits: u128, i: int) -> nat
    decreases 128 - i when i <= 128
{
    if i >= 128 {
        0
    } else {
        (if bit_set(bits, i as u8) { 1nat } else { 0nat }) + count_bits_from(bits, i + 1)
    }
}

proof fn lemma_count_split(bits: u128, i: int)
    requires
        0 <= i <= 128,
    ensures
        count_bits_below(bits, i) + count_bits_from(bits, i) == popcount(bits),
    decreases 128 - i,
{
    if i == 128 {
        assert(count_bits_from(bits, 128) == 0);
    } else {
        lemma_count_split(bits, i + 1);
        assert(count_bits_below(bits, i + 1)
            == count_bits_below(bits, i) + if bit_set(bits, i as u8) { 1nat } else { 0nat });
    }
}

/// The subset the combinatorial number system assigns to `rank`: walk the
/// members upward from position `i`; take a member when the rank falls
/// below the count of completions that include it, skip that count
/// otherwise.
pub open spec fn spec_unrank(bits: u128, i: int, to_pick: nat, rank: nat) -> Set<u8>
    decreases 128 - i when i <= 128
{
    if to_pick == 0 || i >= 128 {
        Set::empty()
    } else if bit_set(bits, i as u8) {
        let threshold = spec_binom(count_bits_from(bits, i + 1), (to_pick - 1) as nat);
        if rank < threshold {
            spec_unrank(bits, i + 1, (to_pick - 1) as nat, rank).insert(i as u8)
        } else {
            spec_unrank(bits, i + 1, to_pick, (rank - threshold) as nat)
        }
    } else {
        spec_unrank(bits, i + 1, to_pick, rank)
    }
}

proof fn lemma_unrank_elements_ge(bits: u128, i: int, to_pick: nat, rank: nat)
    requires
        0 <= i <= 128,
    ensures
        forall|e: u8| spec_unrank(bits, i, to_pick, rank).contains(e) ==> i <= e,
    decreases 128 - i,
{
    if to_pick > 0 && i < 128 {
        lemma_unrank_elements_ge(bits, i + 1, (to_pick - 1) as nat, rank);
        lemma_unrank_elements_ge(bits, i + 1, to_pick, rank);
        if bit_set(bits, i as u8) {
            let threshold = spec_binom(count_bits_from(bits, i + 1), (to_pick - 1) as nat);
            if rank >= threshold {
                lemma_unrank_elements_ge(
                    bits, i + 1, to_pick, (rank - threshold) as nat);
            }
        }
        assert forall|e: u8| spec_unrank(bits, i, to_pick, rank).contains(e)
            implies i <= e by {
            let s = spec_unrank(bits, i, to_pick, rank);
            if bit_set(bits, i as u8) {
                let threshold = spec_binom(
                    count_bits_from(bits, i + 1), (to_pick - 1) as nat);
                if rank < threshold {
                    let inner = spec_unrank(bits, i + 1, (to_pick - 1) as nat, rank);
                    assert(s == inner.insert(i as u8));
                    if e != i as u8 {
                        assert(inner.contains(e));
                    }
                } else {
                    assert(s == spec_unrank(bits, i + 1, to_pick, (rank - threshold) as nat));
                }
            } else {
                assert(s == spec_unrank(bits, i + 1, to_pick, rank));
            }
        }
    }
}

proof fn lemma_unrank_injective_from(bits: u128, i: int, to_pick: nat, k1: nat, k2: nat)
    requires
        0 <= i <= 128,
        to_pick >= 1,
        to_pick <= count_bits_from(bits, i),
        k1 < k2,
        k2 < spec_binom(count_bits_from(bits, i), to_pick),
    ensures
        spec_unrank(bits, i, to_pick, k1) != spec_unrank(bits, i, to_pick, k2),
    decreases 128 - i,
{
    // Some member remains, so the walk has not run off the end.
    assert(count_bits_from(bits, i) >= 1);
    assert(i < 128);
    let cf = count_bits_from(bits, i + 1);
    if !bit_set(bits, i as u8) {
        assert(count_bits_from(bits, i) == cf);
        lemma_unrank_injective_from(bits, i + 1, to_pick, k1, k2);
    } else {
        assert(count_bits_from(bits, i) == 1 + cf);
        let threshold = spec_binom(cf, (to_pick - 1) as nat);
        assert(spec_binom(1 + cf, to_pick)
            == spec_binom(cf, (to_pick - 1) as nat) + spec_binom(cf, to_pick));
        if k2 < threshold {
            // Both take this member; the completions must already differ.
            assert(to_pick >= 2) by {
                if to_pick == 1 {
                    assert(threshold == spec_binom(cf, 0));
                    assert(threshold == 1);
                }
            }
            assert((to_pick - 1) as nat <= cf) by {
                crate::binomial::lemma_binom_zero_iff(cf, (to_pick - 1) as nat);
            }
            lemma_unrank_injective_from(bits, i + 1, (to_pick - 1) as nat, k1, k2);
            lemma_unrank_elements_ge(bits, i + 1, (to_pick - 1) as nat, k1);
            lemma_unrank_elements_ge(bits, i + 1, (to_pick - 1) as nat, k2);
            let a1 = spec_unrank(bits, i + 1, (to_pick - 1) as nat, k1);
            let a2 = spec_unrank(bits, i + 1, (to_pick - 1) as nat, k2);
            assert(!a1.contains(i as u8));
            assert(!a2.contains(i as u8));
            if a1.insert(i as u8) == a2.insert(i as u8) {
                assert forall|x: u8| a1.contains(x) == a2.contains(x) by {
                    if x != i as u8 {
                        assert(a1.insert(i as u8).contains(x) == a1.contains(x));
                        assert(a2.insert(i as u8).contains(x) == a2.contains(x));
                    }
                }
                assert(a1 =~= a2);
            }
        } else if k1 < threshold {
            // One takes this member, the other skips it.
            lemma_unrank_elements_ge(bits, i + 1, to_pick, (k2 - threshold) as nat);
            let s1 = spec_unrank(bits, i, to_pick, k1);
            let s2 = spec_unrank(bits, i, to_pick, k2);
            assert(s1 == spec_unrank(bits, i + 1, (to_pick - 1) as nat, k1).insert(i as u8));
            assert(s2 == spec_unrank(bits, i + 1, to_pick, (k2 - threshold) as nat));
            assert(s1.contains(i as u8));
            assert(!s2.contains(i as u8));
        } else {
            // Both skip this member.
            assert(to_pick <= cf) by {
                crate::binomial::lemma_binom_zero_iff(cf, to_pick);
                if to_pick > cf {
                    assert(spec_binom(cf, to_pick) == 0);
                }
            }
            lemma_unrank_injective_from(
                bits, i + 1, to_pick, (k1 - threshold) as nat, (k2 - threshold) as nat);
        }
    }
}

/// Distinct ranks select distinct subsets: the unranking walk is injective,
/// so a rank drawn uniformly from the C(n, count) possibilities yields each
/// count-element subset with the same probability.
pub proof fn lemma_unrank_injective(bits: u128, count: nat, k1: nat, k2: nat)
    requires
        count >= 1,
        count <= popcount(bits),
        k1 < k2,
        k2 < spec_binom(popcount(bits), count),
    ensures
        spec_unrank(bits, 0, count, k1) != spec_unrank(bits, 0, count, k2),
{
    lemma_count_split(bits, 0);
    lemma_unrank_injective_from(bits, 0, count, k1, k2);
}

impl UnorderedCards {
    /// Select the subset of `count` members encoded by `rank` in the
    /// combinatorial number system: walk the members from lowest to highest,
    /// taking a member when the rank falls below the count of subsets that
    /// start with it, and skipping over that count otherwise.
    fn select_ranked(&self, count: u32, rank: u64, n: u32) -> (sel: UnorderedCards)
        requires
            1 <= count <= MAX_DRAW,
            n == self@.len(),
            count <= n,
            rank < spec_binom(n as nat, count as nat),
        ensures
            sel@.subset_of(self@),
            sel@.len() == count,
            sel@ == spec_unrank(self.0, 0, count as nat, rank as nat),
    {
        proof {
            lemma_popcount_is_len(self.0);
            lemma_count_bits_monotone(self.0, 0, 128);
            assert(count_bits_below(self.0, 128) <= 128) by {
                lemma_count_bits_le_n(self.0, 128);
            }
            lemma_count_split(self.0, 0);
        }
        let ghost full_pick = spec_unrank(self.0, 0, count as nat, rank as nat);
        let mut remaining: u32 = n;
        let mut to_pick: u32 = count;
        let mut k: u64 = rank;
        let mut selected = UnorderedCards::new();
        let mut i: usize = 0;
        proof {
            assert(selected@.union(spec_unrank(self.0, 0, count as nat, rank as nat))
                =~= full_pick);
        }
        while to_pick > 0
            invariant
                to_pick <= count <= MAX_DRAW,
                to_pick <= remaining,
                i <= 128,
                n == self@.len(),
                n == popcount(self.0),
                n <= 128,
                remaining == n - count_bits_below(self.0, i as int),
                remaining == count_bits_from(self.0, i as int),
                to_pick > 0 ==> k < spec_binom(remaining as nat, to_pick as nat),
                selected@.subset_of(self@),
                selected@.finite(),
                selected@.len() == count - to_pick,
                forall|id: u8| selected@.contains(id) ==> (id as int) < i as int,
                full_pick == spec_unrank(self.0, 0, count as nat, rank as nat),
                selected@.union(spec_unrank(self.0, i as int, to_pick as nat, k as nat))
                    == full_pick,
            decreases 128 - i,
        {
            proof {
                // A member is still owed, so some position at or above `i`
                // holds a set bit and `i` is still in range.
                lemma_binom_zero_iff(remaining as nat, to_pick as nat);
                lemma_count_bits_monotone(self.0, i as int, 128);
                if i == 128 {
                    assert(remaining == 0);
                    assert(false);
                }
            }
            let ghost sel_before = selected@;
            let ghost tp_before = to_pick;
            let ghost k_before = k;
            if self.contains(i as u8) {
                remaining = remaining - 1;
                let threshold = binom(remaining, to_pick - 1);
                proof {
                    // C(remaining + 1, to_pick) splits by whether position
                    // `i` is taken.
                    assert(spec_binom((remaining + 1) as nat, to_pick as nat)
                        == spec_binom(remaining as nat, (to_pick - 1) as nat)
                            + spec_binom(remaining as nat, to_pick as nat));
                }
                if k < threshold {
                    proof {
                        if to_pick >= 2 && (to_pick - 1) as nat > remaining as nat {
                            lemma_binom_zero_iff(remaining as nat, (to_pick - 1) as nat);
                            assert(false);
                        }
                    }
                    selected.insert(i as u8);
                    to_pick = to_pick - 1;
                    proof {
                        assert(spec_unrank(self.0, i as int, tp_before as nat, k as nat)
                            == spec_unrank(self.0, i as int + 1, to_pick as nat, k as nat)
                                .insert(i as u8));
                        assert(selected@.union(
                            spec_unrank(self.0, i as int + 1, to_pick as nat, k as nat))
                            =~= sel_before.union(
                                spec_unrank(self.0, i as int, tp_before as nat, k as nat)));
                    }
                } else {
                    k = k - threshold;
                    proof {
                        if to_pick as nat > remaining as nat {
                            lemma_binom_zero_iff(remaining as nat, to_pick as nat);
                            assert(false);
                        }
                        assert(spec_unrank(self.0, i as int, to_pick as nat, k_before as nat)
                            == spec_unrank(self.0, i as int + 1, to_pick as nat, k as nat));
                    }
                }
            } else {
                proof {
                    assert(spec_unrank(self.0, i as int, to_pick as nat, k as nat)
                        == spec_unrank(self.0, i as int + 1, to_pick as nat, k as nat));
                }
            }
            i = i + 1;
        }
        proof {
            assert(spec_unrank(self.0, i as int, 0, k as nat) =~= Set::<u8>::empty());
            assert(selected@ =~= full_pick);
        }
        selected
    }

    /// A uniformly random member, without changing the set; `None` exactly
    /// when the set is empty.
    pub fn pick_random(&self, rng: &mut SmallRng) -> (r: Option<u8>)
        ensures
            match r {
                Option::Some(id) => self@.contains(id),
                Option::None => self@ == Set::<u8>::empty(),
            },
    {
        if self.is_empty() {
            proof {
                assert(self@ =~= Set::<u8>::empty());
            }
            return None;
        }
        let n = self.len();
        proof {
            lemma_popcount_is_len(self.0);
            if n == 0 {
                vstd::set_lib::lemma_set_empty_equivalency_len(self@);
                assert(false);
            }
        }
        let k = rand_below(rng, n as u64);
        let mut seen: u32 = 0;
        let mut i: usize = 0;
        while i < 128
            invariant
                i <= 128,
                seen == count_bits_below(self.0, i as int),
                (seen as u64) <= k,
                k < n,
                n == self@.len(),
            decreases 128 - i,
        {
            if self.contains(i as u8) {
                if seen as u64 == k {
                    return Some(i as u8);
                }
                seen = seen + 1;
            }
            i = i + 1;
        }
        proof {
            lemma_popcount_is_len(self.0);
            assert(false);
        }
        None
    }

    /// Remove and return a uniformly random member; `None` exactly when the
    /// set is empty.
    pub fn draw(&mut self, rng: &mut SmallRng) -> (r: Option<u8>)
        ensures
            match r {
                Option::Some(id) => old(self)@.contains(id)
                    && final(self)@ == old(self)@.remove(id),
                Option::None => old(self)@ == Set::<u8>::empty()
                    && final(self)@ == old(self)@,
            },
    {
        let picked = self.pick_random(rng);
        match picked {
            Some(id) => {
                self.remove(id);
                Some(id)
            }
            None => None,
        }
    }

    /// Remove and return a uniformly random `count`-element subset, chosen
    /// with equal probability among all C(n, count) such subsets via
    /// combinatorial unranking. If `count` is at least the set's size, the
    /// whole set is taken.
    pub fn draw_multiple(&mut self, count: u32, rng: &mut SmallRng) -> (r: Self)
        requires
            count <= MAX_DRAW || count >= old(self)@.len(),
        ensures
            r@.subset_of(old(self)@),
            final(self)@ == old(self)@.difference(r@),
            r@.len() == if (count as nat) <= old(self)@.len() {
                count as nat
            } else {
                old(self)@.len()
            },
            // A proper draw picks one of the C(n, count) canonical subsets;
            // distinct ranks give distinct subsets (`lemma_unrank_injective`),
            // and the rank is drawn uniformly.
            0 < count < old(self)@.len() ==> exists|rk: nat|
                rk < spec_binom(old(self)@.len(), count as nat)
                    && r@ == #[trigger] spec_unrank(old(self).0, 0, count as nat, rk),
    {
        proof {
            lemma_popcount_is_len(self.0);
            lemma_count_bits_le_n(self.0, 128);
        }
        let n = self.len();
        if count == 0 {
            let r = UnorderedCards::new();
            proof {
                assert(self@ =~= self@.difference(r@));
            }
            return r;
        }
        if count >= n {
            let all = *self;
            self.0 = 0;
            proof {
                assert forall|i: u8| !bit_set(0u128, i) by {
                    if i < 128 {
                        assert((0u128 >> (i as u128)) & 1u128 == 0u128) by (bit_vector);
                    }
                }
                assert(mask_as_set(0u128) =~= Set::<u8>::empty());
                assert(mask_as_set(0u128) =~= all@.difference(all@));
            }
            return all;
        }
        let total = binom(n, count);
        proof {
            lemma_binom_zero_iff(n as nat, count as nat);
        }
        let k = rand_below(rng, total);
        let sel = self.select_ranked(count, k, n);
        proof {
            assert(sel@ == spec_unrank(self.0, 0, count as nat, k as nat));
        }
        let rest = self.difference(sel);
        self.0 = rest.0;
        sel
    }

    /// Remove and return a uniformly random subset of size at most
    /// `max_count`: every subset of admissible size is equally likely, so
    /// the size itself follows the binomial weights. Locates the size bucket
    /// in the cumulative sums, then unranks within the bucket.
    pub fn draw_up_to(&mut self, max_count: u8, rng: &mut SmallRng) -> (r: Self)
        requires
            max_count as u32 <= MAX_DRAW,
        ensures
            r@.subset_of(old(self)@),
            final(self)@ == old(self)@.difference(r@),
            r@.len() <= max_count,
            // A draw that returns cards picked one of the canonical
            // rank-indexed subsets of its size bucket; with
            // `lemma_unrank_injective`, a uniform rank over the cumulative
            // binomial sums yields every admissible subset equally often.
            r@ == Set::<u8>::empty() || exists|size: nat, rk: nat|
                1 <= size <= max_count
                    && rk < spec_binom(old(self)@.len(), size)
                    && r@ == #[trigger] spec_unrank(old(self).0, 0, size, rk),
    {
        proof {
            lemma_popcount_is_len(self.0);
            lemma_count_bits_le_n(self.0, 128);
        }
        let n = self.len();
        let c: u32 = if (max_count as u32) < n { max_count as u32 } else { n };
        if c == 0 {
            let r = UnorderedCards::new();
            proof {
                assert(self@ =~= self@.difference(r@));
            }
            return r;
        }
        let total = binom_cum(n, c);
        proof {
            lemma_binom_cum_pos(n as nat, c as nat);
        }
        let rank_all = rand_below_u128(rng, total);

        // Find the smallest size whose cumulative count exceeds the rank.
        let mut size: u32 = 0;
        let mut cum: u128 = binom_cum(n, 0);
        let mut prev_cum: u128 = 0;
        while rank_all >= cum
            invariant
                size <= c,
                n <= 128,
                c <= MAX_DRAW,
                cum == spec_binom_cum(n as nat, size as nat),
                rank_all < spec_binom_cum(n as nat, c as nat),
                size > 0 ==> prev_cum == spec_binom_cum(n as nat, (size - 1) as nat),
                size > 0 ==> rank_all >= prev_cum,
            decreases c - size,
        {
            size = size + 1;
            prev_cum = cum;
            cum = binom_cum(n, size);
        }
        if size == 0 {
            let r = UnorderedCards::new();
            proof {
                assert(self@ =~= self@.difference(r@));
            }
            return r;
        }
        let rank128 = rank_all - prev_cum;
        proof {
            assert(spec_binom_cum(n as nat, size as nat)
                == spec_binom_cum(n as nat, (size - 1) as nat)
                    + spec_binom(n as nat, size as nat));
            lemma_binom_bound(n as nat, size as nat);
            if size as nat > n as nat {
                lemma_binom_zero_iff(n as nat, size as nat);
                assert(false);
            }
        }
        let rank = rank128 as u64;
        let sel = self.select_ranked(size, rank, n);
        proof {
            assert(sel@ == spec_unrank(self.0, 0, size as nat, rank as nat));
        }
        let rest = self.difference(sel);
        self.0 = rest.0;
        sel
    }
}

proof fn lemma_count_bits_le_n(bits: u128, n: int)
    requires
        0 <= n,
    ensures
        count_bits_below(bits, n) <= n,
    decreases n,
{
    if n > 0 {
        lemma_count_bits_le_n(bits, n - 1);
    }
}

impl UnorderedCards {
    /// Whether every member of this set is a member of `other`.
    pub fn is_subset(&self, other: &UnorderedCards) -> (r: bool)
        ensures
            r == self@.subset_of(other@),
    {
        let d = self.difference(*other);
        let e = d.is_empty();
        proof {
            if e {
                assert forall|x: u8| self@.contains(x) implies other@.contains(x) by {
                    assert(!d@.contains(x));
                }
            } else {
                assert(!(d@ =~= Set::<u8>::empty()));
                let x = choose|x: u8| d@.contains(x);
                assert(self@.contains(x) && !other@.contains(x));
            }
        }
        e
    }
}

/// Bit `i` of the difference mask follows the operand bits.
pub proof fn lemma_bit_diff_public(a: u128, b: u128, i: u8)
    ensures
        i < 128 ==> (bit_set(a & !b, i) == (bit_set(a, i) && !bit_set(b, i))),
{
    if i < 128 {
        lemma_bit_diff(a, b, i);
        lemma_bit_is_zero_or_one(a, i);
        lemma_bit_is_zero_or_one(b, i);
        lemma_bit_is_zero_or_one(a & !b, i);
    }
}

/// The zero mask has no set bits.
pub proof fn lemma_zero_bit_public(i: u8)
    ensures
        !bit_set(0u128, i),
{
    if i < 128 {
        assert((0u128 >> (i as u128)) & 1u128 == 0u128) by (bit_vector);
    }
}

/// A nonzero mask has a set bit; returns one.
pub proof fn lemma_nonzero_bit_public(a: u128) -> (i: u8)
    requires
        a != 0,
    ensures
        i < 128,
        bit_set(a, i),
{
    lemma_nonzero_has_bit(a)
}

/// A 128-bit mask holds at most 128 identifiers.
pub proof fn lemma_count_le_128(bits: u128)
    ensures
        mask_as_set(bits).len() <= 128,
{
    lemma_popcount_is_len(bits);
    lemma_count_bits_le_n(bits, 128);
}

/// The zero mask encodes the empty set.
pub proof fn lemma_zero_set_empty()
    ensures
        mask_as_set(0u128) == Set::<u8>::empty(),
{
    assert forall|i: u8| !bit_set(0u128, i) by {
        lemma_zero_bit_public(i);
    }
    assert(mask_as_set(0u128) =~= Set::<u8>::empty());
}

} // verus!
