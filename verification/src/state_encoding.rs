//! Fixed-size integer feature encodings of positions and moves, for a
//! learned evaluator. Features are in sixtieths, so the original unit
//! fractions (fifths, tenths, fifteenths, twentieths) are all exact.

use vstd::prelude::*;
use crate::colori_game::enumerate_choices;
use crate::types::{
    state_wf, Ability, ColoriChoice, GamePhase, GameState, PendingChoice, PlayerState,
};
use crate::unordered_cards::UnorderedCards;

verus! {

/// Features per encoded position.
pub const STATE_ENCODING_SIZE: usize = 768;

/// Features per encoded move.
pub const ACTION_ENCODING_SIZE: usize = 86;

/// The feature unit: 60 is one whole, so fifths, tenths, fifteenths, and
/// twentieths are exact integers.
pub const ENCODING_UNIT: i64 = 60;

const FEATURES_PER_PLAYER: usize = 199;
const MAX_ENCODED_PLAYERS: usize = 3;
const PLAYER_SECTION_SIZE: usize = 597;

/// A zeroed feature buffer.
fn zero_features(len: usize) -> (r: Vec<i64>)
    ensures
        r@.len() == len,
        forall|i: int| 0 <= i < len ==> #[trigger] r@[i] == 0,
{
    let mut out: Vec<i64> = Vec::new();
    let mut i: usize = 0;
    while i < len
        invariant
            i <= len,
            out@.len() == i,
            forall|j: int| 0 <= j < i ==> #[trigger] out@[j] == 0,
        decreases len - i,
    {
        out.push(0);
        i = i + 1;
    }
    out
}

/// Add a value into one feature slot, saturating at the i64 limits.
fn bump(buf: &mut Vec<i64>, idx: usize, delta: i64)
    requires
        idx < old(buf)@.len(),
        delta >= 0,
    ensures
        final(buf)@.len() == old(buf)@.len(),
{
    let cur = buf[idx];
    if cur <= i64::MAX - delta {
        buf.set(idx, cur + delta);
    }
}

/// Write one player's features: the color wheel in fifths, materials in
/// tenths, ducats and score in fifteenths, completed buyers and card zones
/// as per-type counts, and deck sizes in twentieths.
fn encode_player(player: &PlayerState, state: &GameState, buf: &mut Vec<i64>, offset: usize)
    requires
        offset + FEATURES_PER_PLAYER <= old(buf)@.len(),
        old(buf)@.len() <= 1024,
    ensures
        final(buf)@.len() == old(buf)@.len(),
{
    let ghost len0 = buf@.len();
    let mut idx = offset;

    // Color wheel: twelve features, one per color, in fifths.
    let mut c: usize = 0;
    while c < 12
        invariant
            c <= 12,
            idx == offset + c,
            offset + FEATURES_PER_PLAYER <= buf@.len(),
            buf@.len() == len0,
            buf@.len() <= 1024,
        decreases 12 - c,
    {
        let count = player.color_wheel.counts[c];
        let capped: i64 = if count > 1000 { 1000 } else { count as i64 };
        bump(buf, idx, capped * (ENCODING_UNIT / 5));
        idx = idx + 1;
        c = c + 1;
    }

    // Materials: three features in tenths.
    let mut m: usize = 0;
    while m < 3
        invariant
            m <= 3,
            idx == offset + 12 + m,
            offset + FEATURES_PER_PLAYER <= buf@.len(),
            buf@.len() == len0,
            buf@.len() <= 1024,
        decreases 3 - m,
    {
        let count = player.materials.counts[m];
        let capped: i64 = if count > 1000 { 1000 } else { count as i64 };
        bump(buf, idx, capped * (ENCODING_UNIT / 10));
        idx = idx + 1;
        m = m + 1;
    }

    // Ducats and score, in fifteenths.
    let ducats: i64 = if player.ducats > 1000 { 1000 } else { player.ducats as i64 };
    bump(buf, idx, ducats * (ENCODING_UNIT / 15));
    idx = idx + 1;
    let score: i64 = if player.cached_score > 1000 { 1000 } else { player.cached_score as i64 };
    bump(buf, idx, score * (ENCODING_UNIT / 15));
    idx = idx + 1;

    // Completed buyers: 51 per-type counters (whole units).
    let ghost base_buyers = idx as int;
    let mut b: usize = 0;
    while b < player.completed_buyers.len()
        invariant
            idx == offset + 17,
            offset + FEATURES_PER_PLAYER <= buf@.len(),
            buf@.len() == len0,
            buf@.len() <= 1024,
            b <= player.completed_buyers@.len(),
        decreases player.completed_buyers@.len() - b,
    {
        let inst = player.completed_buyers[b];
        let t = inst.buyer.type_index();
        bump(buf, idx + t, ENCODING_UNIT);
        b = b + 1;
    }
    idx = idx + 51;

    // Workshop, drafted, and used cards: 42 per-type counters each.
    encode_card_zone(&player.workshop_cards, state, buf, idx);
    idx = idx + 42;
    encode_card_zone(&player.drafted_cards, state, buf, idx);
    idx = idx + 42;
    encode_card_zone(&player.used_cards, state, buf, idx);
    idx = idx + 42;

    // Deck and discard sizes, in twentieths.
    let deck_len = player.deck.len() as i64;
    bump(buf, idx, deck_len * (ENCODING_UNIT / 20));
    idx = idx + 1;
    let discard_len = player.discard.len() as i64;
    bump(buf, idx, discard_len * (ENCODING_UNIT / 20));
}

/// Count the card types of one zone into 42 consecutive features.
fn encode_card_zone(
    zone: &UnorderedCards,
    state: &GameState,
    buf: &mut Vec<i64>,
    idx: usize,
)
    requires
        idx + 42 <= old(buf)@.len(),
        old(buf)@.len() <= 1024,
    ensures
        final(buf)@.len() == old(buf)@.len(),
{
    let ids = zone.members();
    let mut k: usize = 0;
    while k < ids.len()
        invariant
            k <= ids@.len(),
            idx + 42 <= buf@.len(),
            buf@.len() == old(buf)@.len(),
            buf@.len() <= 1024,
            forall|l: int| 0 <= l < ids@.len() ==> #[trigger] ids@[l] < 128,
        decreases ids@.len() - k,
    {
        let id = ids[k];
        let card = state.card_lookup[id as usize];
        let t = card.type_index();
        bump(buf, idx + t, ENCODING_UNIT);
        k = k + 1;
    }
}

/// Encode a position from one player's perspective: that player's features
/// fill slot zero and the others follow in turn order; global features
/// (buyer display, round, phase, player count, draft context, pending
/// choice, ability stack) close the vector.
pub fn encode_state(state: &GameState, perspective_player: usize) -> (r: Vec<i64>)
    requires
        state_wf(*state),
        perspective_player < state.players@.len(),
    ensures
        r@.len() == STATE_ENCODING_SIZE,
{
    let mut out = zero_features(STATE_ENCODING_SIZE);
    let num_players = state.players.len();

    let mut slot: usize = 0;
    while slot < MAX_ENCODED_PLAYERS
        invariant
            slot <= MAX_ENCODED_PLAYERS,
            out@.len() == STATE_ENCODING_SIZE,
            num_players == state.players@.len(),
            1 <= num_players,
            perspective_player < num_players,
            state_wf(*state),
        decreases MAX_ENCODED_PLAYERS - slot,
    {
        if slot < num_players {
            let actual = (perspective_player + slot) % num_players;
            let offset = slot * FEATURES_PER_PLAYER;
            let player = state.players.get(actual).duplicate();
            encode_player(&player, state, &mut out, offset);
        }
        slot = slot + 1;
    }

    encode_global(state, perspective_player, &mut out);
    out
}

/// Write the global features after the player sections.
fn encode_global(state: &GameState, perspective_player: usize, buf: &mut Vec<i64>)
    requires
        state_wf(*state),
        perspective_player < state.players@.len(),
        old(buf)@.len() == STATE_ENCODING_SIZE,
    ensures
        final(buf)@.len() == STATE_ENCODING_SIZE,
{
    let mut idx: usize = PLAYER_SECTION_SIZE;

    // Buyer display: 51 per-type counters.
    let mut j: usize = 0;
    while j < state.buyer_display.len()
        invariant
            j <= state.buyer_display@.len(),
            idx == PLAYER_SECTION_SIZE,
            buf@.len() == STATE_ENCODING_SIZE,
        decreases state.buyer_display@.len() - j,
    {
        let inst = state.buyer_display.get(j);
        let t = inst.buyer.type_index();
        bump(buf, idx + t, ENCODING_UNIT);
        j = j + 1;
    }
    idx = idx + 51;

    // Round, in tenths.
    let round: i64 = if state.round > 1000 { 1000 } else { state.round as i64 };
    bump(buf, idx, round * (ENCODING_UNIT / 10));
    idx = idx + 1;

    // Phase: a one-hot over draw, draft, action, cleanup.
    match &state.phase {
        GamePhase::Draw => bump(buf, idx, ENCODING_UNIT),
        GamePhase::Draft { .. } => bump(buf, idx + 1, ENCODING_UNIT),
        GamePhase::Action { .. } => bump(buf, idx + 2, ENCODING_UNIT),
        GamePhase::Cleanup { .. } => bump(buf, idx + 3, ENCODING_UNIT),
        GamePhase::GameOver => {}
    }
    idx = idx + 4;

    // Player count: a one-hot over two, three, four.
    let num_players = state.players.len();
    if num_players == 2 {
        bump(buf, idx, ENCODING_UNIT);
    } else if num_players == 3 {
        bump(buf, idx + 1, ENCODING_UNIT);
    } else if num_players == 4 {
        bump(buf, idx + 2, ENCODING_UNIT);
    }
    idx = idx + 3;

    // The perspective player's current draft hand, pick number (in fifths),
    // and pass direction.
    match &state.phase {
        GamePhase::Draft { draft_state } => {
            let hand = draft_state.hands[perspective_player];
            encode_card_zone(&hand, state, buf, idx);
            let pick: i64 = if draft_state.pick_number > 1000 {
                1000
            } else {
                draft_state.pick_number as i64
            };
            bump(buf, idx + 42, pick * (ENCODING_UNIT / 5));
            if draft_state.direction == 1 {
                bump(buf, idx + 43, ENCODING_UNIT);
            }
        }
        _ => {}
    }
    idx = idx + 44;

    // Pending choice: a one-hot over the seven choice kinds.
    match &state.phase {
        GamePhase::Action { action_state } => {
            match &action_state.pending_choice {
                Some(PendingChoice::ChooseCardsForWorkshop { .. }) => bump(buf, idx, ENCODING_UNIT),
                Some(PendingChoice::ChooseCardsToDestroy { .. }) =>
                    bump(buf, idx + 1, ENCODING_UNIT),
                Some(PendingChoice::ChooseMix { .. }) => bump(buf, idx + 2, ENCODING_UNIT),
                Some(PendingChoice::ChooseBuyer) => bump(buf, idx + 3, ENCODING_UNIT),
                Some(PendingChoice::ChooseSecondaryColor) => bump(buf, idx + 4, ENCODING_UNIT),
                Some(PendingChoice::ChoosePrimaryColor) => bump(buf, idx + 5, ENCODING_UNIT),
                Some(PendingChoice::ChooseTertiaryToLose) => bump(buf, idx + 6, ENCODING_UNIT),
                None => {}
            }
        }
        _ => {}
    }
    idx = idx + 7;

    // Ability stack summary: per-kind counts over the queued abilities.
    match &state.phase {
        GamePhase::Action { action_state } => {
            let mut a: usize = 0;
            while a < action_state.ability_stack.len()
                invariant
                    a <= action_state.ability_stack@.len(),
                    idx + 9 <= STATE_ENCODING_SIZE,
                    buf@.len() == STATE_ENCODING_SIZE,
                decreases action_state.ability_stack@.len() - a,
            {
                let off: usize = match action_state.ability_stack[a] {
                    Ability::Workshop { .. } => 0,
                    Ability::DrawCards { .. } => 1,
                    Ability::MixColors { .. } => 2,
                    Ability::DestroyCards { .. } => 3,
                    Ability::Sell => 4,
                    Ability::GainDucats { .. } => 5,
                    Ability::GainSecondary => 6,
                    Ability::GainPrimary => 7,
                    Ability::ChangeTertiary => 8,
                };
                bump(buf, idx + off, ENCODING_UNIT);
                a = a + 1;
            }
        }
        _ => {}
    }
}

/// Encode one move: a one-hot over the move kind, per-type counters of the
/// cards involved, the buyer category, and the colors involved.
pub fn encode_action(choice: &ColoriChoice, state: &GameState) -> (r: Vec<i64>)
    ensures
        r@.len() == ACTION_ENCODING_SIZE,
{
    let mut out = zero_features(ACTION_ENCODING_SIZE);
    let mut idx: usize = 0;

    let kind: usize = match choice {
        ColoriChoice::DraftPick { .. } => 0,
        ColoriChoice::DestroyDraftedCard { .. } => 1,
        ColoriChoice::EndTurn => 2,
        ColoriChoice::Workshop { .. } => 3,
        ColoriChoice::SkipWorkshop => 4,
        ColoriChoice::DestroyDrawnCards { .. } => 5,
        ColoriChoice::SelectBuyer { .. } => 6,
        ColoriChoice::GainSecondary { .. } => 7,
        ColoriChoice::GainPrimary { .. } => 8,
        ColoriChoice::MixAll { .. } => 9,
        ColoriChoice::SwapTertiary { .. } => 10,
        ColoriChoice::DestroyAndMixAll { .. } => 11,
        ColoriChoice::DestroyAndSell { .. } => 12,
        ColoriChoice::KeepWorkshopCards { .. } => 13,
    };
    bump(&mut out, kind, ENCODING_UNIT);
    idx = idx + 14;

    // The card types involved.
    match choice {
        ColoriChoice::DraftPick { card_instance_id }
        | ColoriChoice::DestroyDraftedCard { card_instance_id }
        | ColoriChoice::DestroyAndMixAll { card_instance_id, .. }
        | ColoriChoice::DestroyAndSell { card_instance_id, .. } => {
            if *card_instance_id < 128 {
                let card = state.card_lookup[*card_instance_id as usize];
                bump(&mut out, idx + card.type_index(), ENCODING_UNIT);
            }
        }
        ColoriChoice::Workshop { card_instance_ids }
        | ColoriChoice::DestroyDrawnCards { card_instance_ids }
        | ColoriChoice::KeepWorkshopCards { card_instance_ids } => {
            encode_card_zone(card_instance_ids, state, &mut out, idx);
        }
        _ => {}
    }
    idx = idx + 42;

    // The buyer category (three buyer types per category).
    match choice {
        ColoriChoice::SelectBuyer { buyer_instance_id }
        | ColoriChoice::DestroyAndSell { buyer_instance_id, .. } => {
            if *buyer_instance_id < 128 {
                let buyer = state.buyer_lookup[*buyer_instance_id as usize];
                let category = buyer.type_index() / 3;
                bump(&mut out, idx + category, ENCODING_UNIT);
            }
        }
        _ => {}
    }
    idx = idx + 18;

    // The colors involved.
    match choice {
        ColoriChoice::GainSecondary { color } | ColoriChoice::GainPrimary { color } => {
            bump(&mut out, idx + color.index(), ENCODING_UNIT);
        }
        ColoriChoice::SwapTertiary { lose, gain } => {
            bump(&mut out, idx + lose.index(), ENCODING_UNIT);
            bump(&mut out, idx + gain.index(), ENCODING_UNIT);
        }
        ColoriChoice::MixAll { mixes } | ColoriChoice::DestroyAndMixAll { mixes, .. } => {
            let len = mixes.len();
            let mut k: usize = 0;
            while k < len
                invariant
                    k <= len,
                    len == crate::types::mixes_seq(*mixes).len(),
                    idx == 74,
                    out@.len() == ACTION_ENCODING_SIZE,
                decreases len - k,
            {
                let p = mixes.get(k);
                bump(&mut out, idx + p.a.index(), ENCODING_UNIT);
                bump(&mut out, idx + p.b.index(), ENCODING_UNIT);
                k = k + 1;
            }
        }
        _ => {}
    }

    out
}

/// Encode every legal move of a position, in enumeration order.
pub fn encode_legal_actions(state: &GameState) -> (r: Vec<Vec<i64>>)
    requires
        state_wf(*state),
    ensures
        forall|i: int| 0 <= i < r@.len() ==> (#[trigger] r@[i])@.len() == ACTION_ENCODING_SIZE,
{
    let choices = enumerate_choices(state);
    let mut out: Vec<Vec<i64>> = Vec::new();
    let mut k: usize = 0;
    while k < choices.len()
        invariant
            k <= choices@.len(),
            state_wf(*state),
            forall|i: int| 0 <= i < out@.len()
                ==> (#[trigger] out@[i])@.len() == ACTION_ENCODING_SIZE,
        decreases choices@.len() - k,
    {
        let c = choices[k];
        let enc = encode_action(&c, state);
        out.push(enc);
        k = k + 1;
    }
    out
}

} // verus!
