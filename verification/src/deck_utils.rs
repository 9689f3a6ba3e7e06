//! Deck handling: uniform shuffles of plain lists, and drawing from a
//! personal deck that refills from its discard pile.

use vstd::prelude::*;
use crate::rng::rand_below_usize;
use crate::unordered_cards::UnorderedCards;
use rand::rngs::SmallRng;

verus! {

/// Rearrange a list uniformly at random in place, by drawing the elements
/// one by one into a fresh order; the multiset of elements is unchanged.
pub fn shuffle_in_place<T: Copy>(array: &mut Vec<T>, rng: &mut SmallRng)
    ensures
        final(array)@.to_multiset() == old(array)@.to_multiset(),
        final(array)@.len() == old(array)@.len(),
{
    broadcast use vstd::seq_lib::group_to_multiset_ensures;

    let ghost orig = array@;
    let mut out: Vec<T> = Vec::new();
    while array.len() > 0
        invariant
            out@.to_multiset().add(array@.to_multiset()) =~= orig.to_multiset(),
        decreases array@.len(),
    {
        let j = rand_below_usize(rng, array.len());
        let ghost arr_before = array@;
        let ghost out_before = out@;
        let v = array.remove(j);
        out.push(v);
        proof {
            arr_before.to_multiset_ensures();
            out_before.to_multiset_ensures();
            array@.to_multiset_ensures();
            out@.to_multiset_ensures();
            assert(array@.to_multiset() =~= arr_before.to_multiset().remove(v));
            assert(out@.to_multiset() =~= out_before.to_multiset().insert(v));
            assert(arr_before.to_multiset().count(v) > 0);
            assert(out@.to_multiset().add(array@.to_multiset())
                =~= out_before.to_multiset().add(arr_before.to_multiset()));
        }
    }
    proof {
        assert(array@.to_multiset() =~= vstd::multiset::Multiset::<T>::empty());
        assert(out@.to_multiset() =~= orig.to_multiset());
        assert(out@.to_multiset().len() == orig.to_multiset().len());
    }
    *array = out;
}

/// A uniformly shuffled copy of a slice of plain values.
pub fn shuffle<T: Copy>(array: &[T], rng: &mut SmallRng) -> (r: Vec<T>)
    ensures
        r@.to_multiset() == array@.to_multiset(),
        r@.len() == array@.len(),
{
    let mut result: Vec<T> = Vec::new();
    let mut i: usize = 0;
    while i < array.len()
        invariant
            i <= array@.len(),
            result@ == array@.take(i as int),
        decreases array@.len() - i,
    {
        let v = array[i];
        result.push(v);
        proof {
            assert(result@ =~= array@.take(i as int + 1));
        }
        i = i + 1;
    }
    proof {
        assert(array@.take(array@.len() as int) =~= array@);
    }
    shuffle_in_place(&mut result, rng);
    result
}

/// Draw up to `count` random cards from `deck` into `dest`; when the deck
/// runs out, the discard pile becomes the new deck (no shuffle is needed:
/// drawing from a bit set is already uniform). Stops early only when both
/// piles are exhausted.
pub fn draw_from_deck(
    deck: &mut UnorderedCards,
    discard: &mut UnorderedCards,
    dest: &mut UnorderedCards,
    count: usize,
    rng: &mut SmallRng,
)
    ensures
        // Cards only move between the three piles, only toward `dest`.
        final(deck)@.union(final(discard)@)
            .subset_of(old(deck)@.union(old(discard)@)),
        old(dest)@.subset_of(final(dest)@),
        final(dest)@.union(final(deck)@).union(final(discard)@)
            == old(dest)@.union(old(deck)@).union(old(discard)@),
        // With distinct cards across the two piles, exactly the requested
        // number is drawn — or everything, when less is available.
        old(deck)@.disjoint(old(discard)@) ==> {
            &&& final(deck)@.len() + final(discard)@.len()
                == if old(deck)@.len() + old(discard)@.len() >= count {
                    old(deck)@.len() + old(discard)@.len() - count
                } else {
                    0
                }
            &&& final(deck)@.disjoint(final(discard)@)
        },
{
    let ghost p0 = deck@.union(discard@);
    let ghost t0 = dest@.union(deck@).union(discard@);
    let ghost dest0 = dest@;
    let ghost dj = deck@.disjoint(discard@);
    let ghost avail0 = deck@.len() + discard@.len();
    proof {
        crate::unordered_cards::lemma_popcount_is_len(deck.0);
        crate::unordered_cards::lemma_popcount_is_len(discard.0);
    }
    let mut drawn: usize = 0;
    let mut exhausted = false;
    while drawn < count && !exhausted
        invariant
            drawn <= count,
            deck@.union(discard@).subset_of(p0),
            dest0.subset_of(dest@),
            dest@.union(deck@).union(discard@) == t0,
            deck@.finite(),
            discard@.finite(),
            dj ==> deck@.disjoint(discard@),
            dj ==> deck@.len() + discard@.len() == avail0 - drawn,
            exhausted ==> deck@ == Set::<u8>::empty()
                && discard@ == Set::<u8>::empty(),
        decreases count - drawn, 1int - if exhausted { 1int } else { 0int },
    {
        if deck.is_empty() && discard.is_empty() {
            exhausted = true;
        } else {
            if deck.is_empty() {
                let tmp = *deck;
                *deck = *discard;
                *discard = tmp;
                proof {
                    assert(deck@.union(discard@).subset_of(p0));
                    assert(dest@.union(deck@).union(discard@) =~= t0);
                }
            }
            if let Some(id) = deck.draw(rng) {
                dest.insert(id);
                proof {
                    assert(deck@.union(discard@).subset_of(p0));
                    assert(dest@.union(deck@).union(discard@) =~= t0);
                }
            }
            proof {
                crate::unordered_cards::lemma_popcount_is_len(deck.0);
                crate::unordered_cards::lemma_popcount_is_len(discard.0);
            }
            drawn = drawn + 1;
        }
    }
}

} // verus!
