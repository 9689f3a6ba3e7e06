//! Decision engine for an imperfect-information, multi-phase card game.
//!
//! The crate provides a compact 128-bit card-set substrate with uniform
//! combinatorial sampling, the game's rule engine (phases, choices, scoring),
//! and two tree searches over hidden information: an Information-Set Monte
//! Carlo Tree Search with an availability-corrected UCB1 policy, and a
//! prior-guided PUCT variant driven by an injected evaluator.

pub mod action_phase;
pub mod apply_choice;
pub mod binomial;
pub mod cards;
pub mod color_wheel;
pub mod colori_game;
pub mod colors;
pub mod deck_utils;
pub mod draft_phase;
pub mod draw_phase;
pub mod fixed_vec;
pub mod ismcts;
pub mod nn_mcts;
pub mod numeric;
pub mod rng;
pub mod scoring;
pub mod setup;
pub mod state_encoding;
pub mod types;
pub mod unordered_cards;

use vstd::prelude::*;

verus! {

/// Number of distinct colors on the color wheel.
pub const NUM_COLORS: usize = 12;

/// Maximum number of players in a game.
pub const MAX_PLAYERS: usize = 4;

/// Maximum number of buyers on display at once.
pub const MAX_BUYER_DISPLAY: usize = 6;

} // verus!
