//! A player's score: stars on completed buyers plus ducats.

use vstd::prelude::*;
use crate::types::{buyer_stars, BuyerInstance, PlayerState};

verus! {

/// Total stars on a list of completed buyers.
pub open spec fn stars_sum(s: Seq<BuyerInstance>) -> int
    decreases s.len(),
{
    if s.len() == 0 {
        0
    } else {
        stars_sum(s.drop_last()) + buyer_stars(s.last().buyer)
    }
}

/// A player's score: stars plus ducats, capped at the counter's limit.
pub open spec fn score_of(p: PlayerState) -> u32 {
    if stars_sum(p.completed_buyers@) + p.ducats <= u32::MAX {
        (stars_sum(p.completed_buyers@) + p.ducats) as u32
    } else {
        u32::MAX
    }
}

proof fn lemma_stars_sum_take(s: Seq<BuyerInstance>, n: int)
    requires
        0 <= n < s.len(),
    ensures
        stars_sum(s.take(n + 1)) == stars_sum(s.take(n)) + buyer_stars(s[n].buyer),
{
    assert(s.take(n + 1).drop_last() =~= s.take(n));
    assert(s.take(n + 1).last() == s[n]);
}

proof fn lemma_stars_sum_bounds(s: Seq<BuyerInstance>)
    ensures
        0 <= stars_sum(s) <= 4 * s.len(),
    decreases s.len(),
{
    if s.len() > 0 {
        lemma_stars_sum_bounds(s.drop_last());
    }
}

/// A player's current score: the stars on all completed buyers plus held
/// ducats.
pub fn calculate_score(player: &PlayerState) -> (r: u32)
    ensures
        r == score_of(*player),
{
    let ghost full = player.completed_buyers@;
    let mut sum: u128 = 0;
    let mut i: usize = 0;
    while i < player.completed_buyers.len()
        invariant
            i <= full.len(),
            player.completed_buyers@ == full,
            sum == stars_sum(full.take(i as int)),
            sum <= 4 * i,
        decreases full.len() - i,
    {
        let b = player.completed_buyers[i];
        proof {
            lemma_stars_sum_take(full, i as int);
            lemma_stars_sum_bounds(full.take(i as int));
        }
        sum = sum + b.buyer.stars() as u128;
        i = i + 1;
    }
    proof {
        assert(full.take(full.len() as int) =~= full);
        lemma_stars_sum_bounds(full);
    }
    let total = sum + player.ducats as u128;
    if total > u32::MAX as u128 {
        u32::MAX
    } else {
        total as u32
    }
}

} // verus!
