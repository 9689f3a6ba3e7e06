//! Applying a chosen move to a game state.

use vstd::prelude::*;
use crate::action_phase::{
    destroy_drafted_card, end_player_turn, resolve_choose_tertiary_to_gain,
    resolve_choose_tertiary_to_lose, resolve_destroy_cards, resolve_gain_primary,
    resolve_gain_secondary, resolve_keep_workshop_cards, resolve_mix_colors_checked,
    resolve_select_buyer, resolve_workshop_choice, skip_mix, skip_workshop,
};
use crate::colori_game::spec_choice_available;
use crate::draft_phase::{confirm_pass, player_pick};
use crate::draw_phase::execute_draw_phase;
use crate::types::{ColoriChoice, GamePhase, GameState, Mixes, PendingChoice, state_wf};
use rand::rngs::SmallRng;

verus! {

/// Apply the mixes of a mix move one by one, then close the pending mix
/// choice if any of it remains.
fn apply_mixes(state: &mut GameState, mixes: &Mixes, rng: &mut SmallRng)
    requires
        state_wf(*old(state)),
        old(state).phase is Action,
    ensures
        state_wf(*final(state)),
{
    let len = mixes.len();
    let mut k: usize = 0;
    while k < len
        invariant
            k <= len,
            len <= 2,
            len == crate::types::mixes_seq(*mixes).len(),
            state_wf(*state),
            state.phase is Action,
        decreases len - k,
    {
        let p = mixes.get(k);
        resolve_mix_colors_checked(state, p.a, p.b, rng);
        k = k + 1;
    }
    match &state.phase {
        GamePhase::Action { action_state } => {
            if matches!(action_state.pending_choice, Some(PendingChoice::ChooseMix { .. })) {
                skip_mix(state, rng);
            }
        }
        _ => {}
    }
}

/// Apply a legal move to a position. The caller must have checked the move
/// against `spec_choice_available`; applying keeps the state well formed.
pub fn apply_choice(state: &mut GameState, choice: &ColoriChoice, rng: &mut SmallRng)
    requires
        state_wf(*old(state)),
        spec_choice_available(*old(state), *choice),
    ensures
        state_wf(*final(state)),
{
    match choice {
        ColoriChoice::DraftPick { card_instance_id } => {
            player_pick(state, *card_instance_id);
        }
        ColoriChoice::DestroyDraftedCard { card_instance_id } => {
            destroy_drafted_card(state, *card_instance_id, rng);
        }
        ColoriChoice::EndTurn => {
            end_player_turn(state, rng);
        }
        ColoriChoice::Workshop { card_instance_ids } => {
            resolve_workshop_choice(state, *card_instance_ids, rng);
        }
        ColoriChoice::SkipWorkshop => {
            skip_workshop(state, rng);
        }
        ColoriChoice::DestroyDrawnCards { card_instance_ids } => {
            resolve_destroy_cards(state, *card_instance_ids, rng);
        }
        ColoriChoice::SelectBuyer { buyer_instance_id } => {
            resolve_select_buyer(state, *buyer_instance_id, rng);
        }
        ColoriChoice::GainSecondary { color } => {
            resolve_gain_secondary(state, *color, rng);
        }
        ColoriChoice::GainPrimary { color } => {
            resolve_gain_primary(state, *color, rng);
        }
        ColoriChoice::MixAll { mixes } => {
            apply_mixes(state, mixes, rng);
        }
        ColoriChoice::SwapTertiary { lose, gain } => {
            resolve_choose_tertiary_to_lose(state, *lose);
            resolve_choose_tertiary_to_gain(state, *gain, rng);
        }
        ColoriChoice::DestroyAndMixAll { card_instance_id, mixes } => {
            destroy_drafted_card(state, *card_instance_id, rng);
            apply_mixes(state, mixes, rng);
        }
        ColoriChoice::DestroyAndSell { card_instance_id, buyer_instance_id } => {
            destroy_drafted_card(state, *card_instance_id, rng);
            resolve_select_buyer(state, *buyer_instance_id, rng);
        }
        ColoriChoice::KeepWorkshopCards { card_instance_ids } => {
            resolve_keep_workshop_cards(state, *card_instance_ids, rng);
        }
    }
}

/// Apply a move and run the book-keeping the search expects: confirming a
/// pending hand pass after a draft pick, and starting the next round's draw
/// phase when a turn or cleanup ends the round.
pub fn apply_choice_to_state(state: &mut GameState, choice: &ColoriChoice, rng: &mut SmallRng)
    requires
        state_wf(*old(state)),
        spec_choice_available(*old(state), *choice),
    ensures
        state_wf(*final(state)),
{
    apply_choice(state, choice, rng);

    if matches!(choice, ColoriChoice::DraftPick { .. }) {
        match &state.phase {
            GamePhase::Draft { draft_state } => {
                if draft_state.waiting_for_pass {
                    confirm_pass(state);
                }
            }
            _ => {}
        }
    }
    if matches!(choice, ColoriChoice::EndTurn)
        || matches!(choice, ColoriChoice::KeepWorkshopCards { .. }) {
        if matches!(state.phase, GamePhase::Draw) {
            execute_draw_phase(state, rng);
        }
    }
}

} // verus!
