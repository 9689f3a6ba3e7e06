//! Operations on a player's color wheel: storing, removing, mixing, and
//! paying buyer color costs.

use vstd::prelude::*;
use crate::colors::{can_mix, mix_result, spec_can_mix, spec_mix_result};
use crate::types::{color_at, color_index, sat_add_u32, Color, ColorWheel};

verus! {

/// Add one pip of a color to the wheel, saturating at the counter's limit.
pub fn store_color(wheel: &mut ColorWheel, color: Color)
    ensures
        final(wheel).counts@ == old(wheel).counts@.update(
            color_index(color),
            sat_add_u32(old(wheel).counts@[color_index(color)], 1),
        ),
{
    wheel.increment(color);
}

/// Remove one pip of a color; reports whether a pip was present.
pub fn remove_color(wheel: &mut ColorWheel, color: Color) -> (r: bool)
    ensures
        r == (old(wheel).counts@[color_index(color)] > 0),
        r ==> final(wheel).counts@ == old(wheel).counts@.update(
            color_index(color),
            (old(wheel).counts@[color_index(color)] - 1) as u32,
        ),
        !r ==> *final(wheel) == *old(wheel),
{
    wheel.decrement(color)
}

/// The wheel after a successful mix of `a` and `b`: one pip of each is
/// consumed and one pip of the mix result appears.
pub open spec fn spec_after_mix(w: Seq<u32>, a: Color, b: Color) -> Seq<u32> {
    let w1 = w.update(color_index(a), (w[color_index(a)] - 1) as u32);
    let w2 = w1.update(color_index(b), (w1[color_index(b)] - 1) as u32);
    let ri = color_index(spec_mix_result(a, b));
    w2.update(ri, sat_add_u32(w2[ri], 1))
}

/// Mix two colors if the pair is mixable and both pips are present;
/// reports whether the mix happened.
pub fn perform_mix(wheel: &mut ColorWheel, a: Color, b: Color) -> (r: bool)
    ensures
        r == (spec_can_mix(a, b)
            && old(wheel).counts@[color_index(a)] > 0
            && old(wheel).counts@[color_index(b)] > 0),
        r ==> final(wheel).counts@ == spec_after_mix(old(wheel).counts@, a, b),
        !r ==> *final(wheel) == *old(wheel),
{
    if !can_mix(a, b) {
        return false;
    }
    if wheel.get(a) == 0 || wheel.get(b) == 0 {
        return false;
    }
    wheel.decrement(a);
    wheel.decrement(b);
    let result = mix_result(a, b);
    wheel.increment(result);
    true
}

/// Mix two colors without checking mixability or pip counts. The caller
/// must guarantee the pair is mixable and both pips are present.
pub fn perform_mix_unchecked(wheel: &mut ColorWheel, a: Color, b: Color)
    requires
        a != b,
        old(wheel).counts@[color_index(a)] > 0,
        old(wheel).counts@[color_index(b)] > 0,
    ensures
        final(wheel).counts@ == spec_after_mix(old(wheel).counts@, a, b),
{
    wheel.decrement(a);
    wheel.decrement(b);
    let result = mix_result(a, b);
    wheel.increment(result);
}

/// How many times a color occurs in a cost list.
pub open spec fn color_count(cost: Seq<Color>, c: Color) -> int
    decreases cost.len(),
{
    if cost.len() == 0 {
        0
    } else {
        color_count(cost.drop_last(), c) + if cost.last() == c { 1int } else { 0int }
    }
}

/// A wheel covers a cost when it holds at least as many pips of every color
/// as the cost demands.
pub open spec fn spec_can_pay_cost(w: Seq<u32>, cost: Seq<Color>) -> bool {
    forall|c: Color| #[trigger] color_count(cost, c) <= w[color_index(c)]
}

proof fn lemma_color_count_take(cost: Seq<Color>, c: Color, n: int)
    requires
        0 <= n < cost.len(),
    ensures
        color_count(cost.take(n + 1), c)
            == color_count(cost.take(n), c) + if cost[n] == c { 1int } else { 0int },
{
    assert(cost.take(n + 1).drop_last() =~= cost.take(n));
    assert(cost.take(n + 1).last() == cost[n]);
}

proof fn lemma_color_count_nonneg(cost: Seq<Color>, c: Color)
    ensures
        0 <= color_count(cost, c),
    decreases cost.len(),
{
    if cost.len() > 0 {
        lemma_color_count_nonneg(cost.drop_last(), c);
    }
}

/// Whether the wheel holds enough pips of every color a cost demands,
/// counting repeated colors as many times as they occur.
pub fn can_pay_cost(wheel: &ColorWheel, cost: &Vec<Color>) -> (r: bool)
    ensures
        r == spec_can_pay_cost(wheel.counts@, cost@),
{
    let ghost full = cost@;
    let mut used: [u32; 12] = [0; 12];
    let mut k: usize = 0;
    while k < cost.len()
        invariant
            k <= cost@.len(),
            cost@ == full,
            forall|i: int| 0 <= i < 12
                ==> used@[i] == color_count(full.take(k as int), color_at(i)),
            forall|c: Color| #[trigger] color_count(full.take(k as int), c)
                <= wheel.counts@[color_index(c)],
        decreases cost@.len() - k,
    {
        let c = cost[k];
        let idx = c.index();
        proof {
            lemma_color_count_take(full, c, k as int);
            lemma_color_count_nonneg(full.take(k as int), c);
        }
        let needed: u64 = used[idx] as u64 + 1;
        if (wheel.get(c) as u64) < needed {
            proof {
                assert(color_count(full.take(k as int + 1), c)
                    > wheel.counts@[color_index(c)]);
                lemma_color_count_prefix(full, c, k as int + 1);
            }
            return false;
        }
        used[idx] = needed as u32;
        proof {
            assert forall|i: int| 0 <= i < 12
                implies used@[i] == color_count(full.take(k as int + 1), color_at(i)) by {
                lemma_color_count_take(full, color_at(i), k as int);
                if i != color_index(c) {
                    assert(full[k as int] != color_at(i));
                }
            }
            assert forall|cc: Color| #[trigger] color_count(full.take(k as int + 1), cc)
                <= wheel.counts@[color_index(cc)] by {
                lemma_color_count_take(full, cc, k as int);
            }
        }
        k = k + 1;
    }
    proof {
        assert(full.take(cost@.len() as int) =~= full);
    }
    true
}

proof fn lemma_color_count_bound(cost: Seq<Color>, c: Color)
    ensures
        color_count(cost, c) <= cost.len(),
    decreases cost.len(),
{
    if cost.len() > 0 {
        lemma_color_count_bound(cost.drop_last(), c);
    }
}

/// A count over a prefix never exceeds the count over the whole list.
proof fn lemma_color_count_prefix(cost: Seq<Color>, c: Color, n: int)
    requires
        0 <= n <= cost.len(),
    ensures
        color_count(cost.take(n), c) <= color_count(cost, c),
    decreases cost.len() - n,
{
    if n < cost.len() {
        lemma_color_count_take(cost, c, n);
        lemma_color_count_prefix(cost, c, n + 1);
        assert(cost.take(cost.len() as int) =~= cost);
    } else {
        assert(cost.take(n) =~= cost);
    }
}

/// Pay a cost: when the wheel covers it, remove exactly the demanded pips
/// of each color and report success; otherwise leave the wheel unchanged.
pub fn pay_cost(wheel: &mut ColorWheel, cost: &Vec<Color>) -> (r: bool)
    ensures
        r == spec_can_pay_cost(old(wheel).counts@, cost@),
        r ==> forall|i: int| 0 <= i < 12
            ==> final(wheel).counts@[i]
                == old(wheel).counts@[i] - color_count(cost@, color_at(i)),
        !r ==> *final(wheel) == *old(wheel),
{
    if !can_pay_cost(wheel, cost) {
        return false;
    }
    let ghost full = cost@;
    let ghost w0 = wheel.counts@;
    let mut k: usize = 0;
    while k < cost.len()
        invariant
            k <= cost@.len(),
            cost@ == full,
            spec_can_pay_cost(w0, full),
            forall|i: int| 0 <= i < 12
                ==> wheel.counts@[i] == w0[i] - color_count(full.take(k as int), color_at(i)),
        decreases cost@.len() - k,
    {
        let c = cost[k];
        proof {
            lemma_color_count_take(full, c, k as int);
            lemma_color_count_nonneg(full.take(k as int), c);
            lemma_color_count_prefix(full, c, k as int + 1);
            assert(color_count(full.take(k as int + 1), c) <= w0[color_index(c)]);
        }
        wheel.decrement(c);
        proof {
            assert forall|i: int| 0 <= i < 12
                implies wheel.counts@[i]
                    == w0[i] - color_count(full.take(k as int + 1), color_at(i)) by {
                lemma_color_count_take(full, color_at(i), k as int);
                if i != color_index(c) {
                    assert(full[k as int] != color_at(i));
                }
            }
        }
        k = k + 1;
    }
    proof {
        assert(full.take(cost@.len() as int) =~= full);
    }
    true
}

} // verus!
