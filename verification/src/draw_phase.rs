//! The draw phase: every player refills their workshop row to five cards,
//! then the round's draft begins.

use vstd::prelude::*;
use crate::deck_utils::draw_from_deck;
use crate::draft_phase::initialize_draft;
use crate::types::{state_wf, GameState};
use rand::rngs::SmallRng;

verus! {

/// Refill each player's workshop row to five cards from their deck (and
/// discard pile), then deal the draft.
pub fn execute_draw_phase(state: &mut GameState, rng: &mut SmallRng)
    requires
        state_wf(*old(state)),
    ensures
        state_wf(*final(state)),
{
    let num_players = state.players.len();
    let mut i: usize = 0;
    while i < num_players
        invariant
            i <= num_players,
            num_players == state.players@.len(),
            state_wf(*state),
        decreases num_players - i,
    {
        let mut player = state.players.get(i).duplicate();
        let current = player.workshop_cards.len() as usize;
        let to_draw = if current >= 5 { 0 } else { 5 - current };
        if to_draw > 0 {
            let mut deck = player.deck;
            let mut discard = player.discard;
            let mut workshop = player.workshop_cards;
            draw_from_deck(&mut deck, &mut discard, &mut workshop, to_draw, rng);
            player.deck = deck;
            player.discard = discard;
            player.workshop_cards = workshop;
        }
        state.players.set(i, player);
        i = i + 1;
    }
    initialize_draft(state, rng);
}

} // verus!
