//! Color-wheel geometry: which colors mix, and what they mix into.

use vstd::prelude::*;
use crate::types::{color_at, color_index, Color};

verus! {

/// Whether a wheel position holds a primary color.
pub open spec fn spec_is_primary_index(i: int) -> bool {
    i == 0 || i == 4 || i == 8
}

/// Whether a wheel position holds a secondary color.
pub open spec fn spec_is_secondary_index(i: int) -> bool {
    i == 2 || i == 6 || i == 10
}

/// The three primary colors.
pub const PRIMARIES: [Color; 3] = [Color::Red, Color::Yellow, Color::Blue];

/// The three secondary colors.
pub const SECONDARIES: [Color; 3] = [Color::Orange, Color::Green, Color::Purple];

/// The six tertiary colors.
pub const TERTIARIES: [Color; 6] = [
    Color::Vermilion,
    Color::Amber,
    Color::Chartreuse,
    Color::Teal,
    Color::Indigo,
    Color::Magenta,
];

/// The 9 color pairs that can legally be mixed:
/// 3 primary+primary and 6 primary+adjacent-secondary.
pub const VALID_MIX_PAIRS: [(Color, Color); 9] = [
    (Color::Red, Color::Yellow),
    (Color::Red, Color::Blue),
    (Color::Yellow, Color::Blue),
    (Color::Red, Color::Orange),
    (Color::Yellow, Color::Orange),
    (Color::Yellow, Color::Green),
    (Color::Blue, Color::Green),
    (Color::Blue, Color::Purple),
    (Color::Red, Color::Purple),
];

fn is_primary(idx: usize) -> (r: bool)
    ensures
        r == spec_is_primary_index(idx as int),
{
    idx == 0 || idx == 4 || idx == 8
}

fn is_secondary(idx: usize) -> (r: bool)
    ensures
        r == spec_is_secondary_index(idx as int),
{
    idx == 2 || idx == 6 || idx == 10
}

/// Whether two colors can be mixed: two distinct primaries, or a primary and
/// a secondary two wheel steps apart.
pub open spec fn spec_can_mix(a: Color, b: Color) -> bool {
    let ai = color_index(a);
    let bi = color_index(b);
    let diff = if ai > bi { ai - bi } else { bi - ai };
    let distance = if diff <= 12 - diff { diff } else { 12 - diff };
    if spec_is_primary_index(ai) && spec_is_primary_index(bi) {
        ai != bi
    } else {
        (spec_is_primary_index(ai) || spec_is_primary_index(bi))
        && (spec_is_secondary_index(ai) || spec_is_secondary_index(bi))
        && distance == 2
    }
}

/// Whether two colors can be mixed.
pub fn can_mix(a: Color, b: Color) -> (r: bool)
    ensures
        r == spec_can_mix(a, b),
{
    let ai = a.index();
    let bi = b.index();
    let diff = if ai > bi { ai - bi } else { bi - ai };
    let distance = if diff <= 12 - diff { diff } else { 12 - diff };

    if is_primary(ai) && is_primary(bi) {
        return ai != bi;
    }

    let one_is_primary = is_primary(ai) || is_primary(bi);
    let one_is_secondary = is_secondary(ai) || is_secondary(bi);
    one_is_primary && one_is_secondary && distance == 2
}

/// The color halfway between two colors along the shorter arc of the wheel.
pub open spec fn spec_mix_result(a: Color, b: Color) -> Color {
    let ai = color_index(a);
    let bi = color_index(b);
    let forward_dist = (bi + 12 - ai) % 12;
    if forward_dist <= 6 {
        color_at((ai + forward_dist / 2) % 12)
    } else {
        let back_dist = 12 - forward_dist;
        color_at((ai + 12 - back_dist / 2) % 12)
    }
}

/// The color two mixable colors combine into.
pub fn mix_result(a: Color, b: Color) -> (r: Color)
    ensures
        r == spec_mix_result(a, b),
{
    let ai = a.index();
    let bi = b.index();
    let forward_dist = (bi + 12 - ai) % 12;
    if forward_dist <= 6 {
        Color::from_index((ai + forward_dist / 2) % 12)
    } else {
        let back_dist = 12 - forward_dist;
        Color::from_index((ai + 12 - back_dist / 2) % 12)
    }
}

/// Mixing is symmetric: the pair order never changes what can be mixed,
/// nor the resulting color.
#[verifier::rlimit(60)]
pub proof fn lemma_mix_symmetric(a: Color, b: Color)
    ensures
        spec_can_mix(a, b) == spec_can_mix(b, a),
        spec_can_mix(a, b) ==> spec_mix_result(a, b) == spec_mix_result(b, a),
{
}

/// `VALID_MIX_PAIRS` holds exactly the mixable pairs, up to order.
pub open spec fn spec_in_valid_mix_pairs(a: Color, b: Color) -> bool {
    exists|i: int| 0 <= i < 9
        && (VALID_MIX_PAIRS@[i] == (a, b) || VALID_MIX_PAIRS@[i] == (b, a))
}

/// The pair list and the mixing predicate agree.
pub proof fn lemma_valid_mix_pairs_exhaustive(a: Color, b: Color)
    ensures
        spec_can_mix(a, b) == spec_in_valid_mix_pairs(a, b),
{
    if spec_can_mix(a, b) {
        let ai = color_index(a);
        let bi = color_index(b);
        if ai == 0 && bi == 4 { assert(VALID_MIX_PAIRS@[0] == (a, b)); }
        else if ai == 4 && bi == 0 { assert(VALID_MIX_PAIRS@[0] == (b, a)); }
        else if ai == 0 && bi == 8 { assert(VALID_MIX_PAIRS@[1] == (a, b)); }
        else if ai == 8 && bi == 0 { assert(VALID_MIX_PAIRS@[1] == (b, a)); }
        else if ai == 4 && bi == 8 { assert(VALID_MIX_PAIRS@[2] == (a, b)); }
        else if ai == 8 && bi == 4 { assert(VALID_MIX_PAIRS@[2] == (b, a)); }
        else if ai == 0 && bi == 2 { assert(VALID_MIX_PAIRS@[3] == (a, b)); }
        else if ai == 2 && bi == 0 { assert(VALID_MIX_PAIRS@[3] == (b, a)); }
        else if ai == 4 && bi == 2 { assert(VALID_MIX_PAIRS@[4] == (a, b)); }
        else if ai == 2 && bi == 4 { assert(VALID_MIX_PAIRS@[4] == (b, a)); }
        else if ai == 4 && bi == 6 { assert(VALID_MIX_PAIRS@[5] == (a, b)); }
        else if ai == 6 && bi == 4 { assert(VALID_MIX_PAIRS@[5] == (b, a)); }
        else if ai == 8 && bi == 6 { assert(VALID_MIX_PAIRS@[6] == (a, b)); }
        else if ai == 6 && bi == 8 { assert(VALID_MIX_PAIRS@[6] == (b, a)); }
        else if ai == 8 && bi == 10 { assert(VALID_MIX_PAIRS@[7] == (a, b)); }
        else if ai == 10 && bi == 8 { assert(VALID_MIX_PAIRS@[7] == (b, a)); }
        else if ai == 0 && bi == 10 { assert(VALID_MIX_PAIRS@[8] == (a, b)); }
        else { assert(VALID_MIX_PAIRS@[8] == (b, a)); }
    }
}

} // verus!
