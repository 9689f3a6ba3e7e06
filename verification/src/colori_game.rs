//! The choice layer of the rule engine: which moves are legal, how moves
//! are enumerated, abstracted over interchangeable card copies, and
//! resolved back to concrete cards.

use vstd::prelude::*;
use crate::action_phase::{
    ability_canonical_phase, can_afford_buyer, can_sell_to_any_buyer, spec_can_afford,
};
use crate::colors::{can_mix, spec_can_mix, VALID_MIX_PAIRS};
use crate::color_wheel::perform_mix_unchecked;
use crate::types::{
    card_ability, card_type_index, color_index, phase_eq, AbstractChoice, Ability, Card,
    CardCounts, ColoriChoice, ColorWheel, GamePhase, GameState, MixPair, Mixes, PendingChoice,
    state_wf,
};
use crate::unordered_cards::{bit_set, mask_as_set, UnorderedCards};

verus! {

/// Whether a position on the wheel holds a secondary color.
pub open spec fn spec_is_secondary(c: crate::types::Color) -> bool {
    crate::colors::spec_is_secondary_index(color_index(c))
}

/// Whether a position on the wheel holds a primary color.
pub open spec fn spec_is_primary(c: crate::types::Color) -> bool {
    crate::colors::spec_is_primary_index(color_index(c))
}

/// Whether a color is tertiary.
pub open spec fn spec_is_tertiary(c: crate::types::Color) -> bool {
    !spec_is_primary(c) && !spec_is_secondary(c)
}

/// Whether a mix list can start on a wheel: empty, or its first pair is
/// mixable with both pips present.
pub open spec fn spec_mixes_startable(w: ColorWheel, mixes: Mixes) -> bool {
    let s = crate::types::mixes_seq(mixes);
    s.len() == 0 || {
        let p = s[0];
        &&& w.counts@[color_index(p.a)] > 0
        &&& w.counts@[color_index(p.b)] > 0
        &&& spec_can_mix(p.a, p.b)
    }
}

/// Whether a concrete move is legal in a position. This is the filter the
/// search applies to tree children against each new determinization.
pub open spec fn spec_choice_available(s: GameState, c: ColoriChoice) -> bool {
    match c {
        ColoriChoice::DraftPick { card_instance_id } => match s.phase {
            GamePhase::Draft { draft_state } => {
                &&& card_instance_id < 128
                &&& draft_state.hands@[draft_state.current_player_index as int]@
                    .contains(card_instance_id as u8)
            }
            _ => false,
        },
        ColoriChoice::DestroyDraftedCard { card_instance_id } => match s.phase {
            GamePhase::Action { action_state } => {
                &&& action_state.pending_choice is None
                &&& card_instance_id < 128
                &&& s.players@[action_state.current_player_index as int]
                    .drafted_cards@.contains(card_instance_id as u8)
            }
            _ => false,
        },
        ColoriChoice::EndTurn => match s.phase {
            GamePhase::Action { action_state } => action_state.pending_choice is None,
            _ => false,
        },
        ColoriChoice::Workshop { card_instance_ids } => match s.phase {
            GamePhase::Action { action_state } => {
                &&& action_state.pending_choice matches Option::Some(
                    PendingChoice::ChooseCardsForWorkshop { .. })
                &&& card_instance_ids@ != Set::<u8>::empty()
                &&& card_instance_ids@.subset_of(
                    s.players@[action_state.current_player_index as int].workshop_cards@)
            }
            _ => false,
        },
        ColoriChoice::SkipWorkshop => match s.phase {
            GamePhase::Action { action_state } => action_state.pending_choice matches
                Option::Some(PendingChoice::ChooseCardsForWorkshop { .. }),
            _ => false,
        },
        ColoriChoice::DestroyDrawnCards { card_instance_ids } => match s.phase {
            GamePhase::Action { action_state } => {
                &&& action_state.pending_choice matches Option::Some(
                    PendingChoice::ChooseCardsToDestroy { .. })
                &&& card_instance_ids@.subset_of(
                    s.players@[action_state.current_player_index as int].workshop_cards@)
            }
            _ => false,
        },
        ColoriChoice::SelectBuyer { buyer_instance_id } => match s.phase {
            GamePhase::Action { action_state } => {
                &&& action_state.pending_choice matches Option::Some(PendingChoice::ChooseBuyer)
                &&& exists|j: int| 0 <= j < s.buyer_display@.len()
                    && (#[trigger] s.buyer_display@[j]).instance_id == buyer_instance_id
                    && spec_can_afford(
                        s.players@[action_state.current_player_index as int],
                        s.buyer_display@[j].buyer,
                    )
            }
            _ => false,
        },
        ColoriChoice::GainSecondary { color } => match s.phase {
            GamePhase::Action { action_state } => {
                &&& action_state.pending_choice matches Option::Some(
                    PendingChoice::ChooseSecondaryColor)
                &&& spec_is_secondary(color)
            }
            _ => false,
        },
        ColoriChoice::GainPrimary { color } => match s.phase {
            GamePhase::Action { action_state } => {
                &&& action_state.pending_choice matches Option::Some(
                    PendingChoice::ChoosePrimaryColor)
                &&& spec_is_primary(color)
            }
            _ => false,
        },
        ColoriChoice::MixAll { mixes } => match s.phase {
            GamePhase::Action { action_state } => {
                &&& action_state.pending_choice matches Option::Some(
                    PendingChoice::ChooseMix { .. })
                &&& spec_mixes_startable(
                    s.players@[action_state.current_player_index as int].color_wheel, mixes)
            }
            _ => false,
        },
        ColoriChoice::SwapTertiary { lose, gain } => match s.phase {
            GamePhase::Action { action_state } => {
                &&& action_state.pending_choice matches Option::Some(
                    PendingChoice::ChooseTertiaryToLose)
                &&& spec_is_tertiary(lose)
                &&& s.players@[action_state.current_player_index as int]
                    .color_wheel.counts@[color_index(lose)] > 0
                &&& spec_is_tertiary(gain)
                &&& lose != gain
            }
            _ => false,
        },
        ColoriChoice::DestroyAndMixAll { card_instance_id, mixes } => match s.phase {
            GamePhase::Action { action_state } => {
                &&& action_state.pending_choice is None
                &&& card_instance_id < 128
                &&& s.players@[action_state.current_player_index as int]
                    .drafted_cards@.contains(card_instance_id as u8)
                &&& spec_mixes_startable(
                    s.players@[action_state.current_player_index as int].color_wheel, mixes)
            }
            _ => false,
        },
        ColoriChoice::DestroyAndSell { card_instance_id, buyer_instance_id } => match s.phase {
            GamePhase::Action { action_state } => {
                &&& action_state.pending_choice is None
                &&& card_instance_id < 128
                &&& s.players@[action_state.current_player_index as int]
                    .drafted_cards@.contains(card_instance_id as u8)
                &&& exists|j: int| 0 <= j < s.buyer_display@.len()
                    && (#[trigger] s.buyer_display@[j]).instance_id == buyer_instance_id
                    && spec_can_afford(
                        s.players@[action_state.current_player_index as int],
                        s.buyer_display@[j].buyer,
                    )
            }
            _ => false,
        },
        ColoriChoice::KeepWorkshopCards { card_instance_ids } => match s.phase {
            GamePhase::Cleanup { cleanup_state } => card_instance_ids@.subset_of(
                s.players@[cleanup_state.current_player_index as int].workshop_cards@),
            _ => false,
        },
    }
}

/// Whether a concrete move is legal in a position; used during selection to
/// filter tree children against the current determinization.
pub fn check_choice_available(state: &GameState, choice: &ColoriChoice) -> (r: bool)
    requires
        state_wf(*state),
    ensures
        r == spec_choice_available(*state, *choice),
{
    match choice {
        ColoriChoice::DraftPick { card_instance_id } => avail_draft_pick(state, *card_instance_id),
        ColoriChoice::DestroyDraftedCard { card_instance_id } =>
            avail_destroy_drafted(state, *card_instance_id),
        ColoriChoice::EndTurn => avail_end_turn(state),
        ColoriChoice::Workshop { card_instance_ids } => avail_workshop(state, *card_instance_ids),
        ColoriChoice::SkipWorkshop => avail_skip_workshop(state),
        ColoriChoice::DestroyDrawnCards { card_instance_ids } =>
            avail_destroy_drawn(state, *card_instance_ids),
        ColoriChoice::SelectBuyer { buyer_instance_id } =>
            avail_select_buyer(state, *buyer_instance_id),
        ColoriChoice::GainSecondary { color } => avail_gain_secondary(state, *color),
        ColoriChoice::GainPrimary { color } => avail_gain_primary(state, *color),
        ColoriChoice::MixAll { mixes } => avail_mix_all(state, *mixes),
        ColoriChoice::SwapTertiary { lose, gain } => avail_swap_tertiary(state, *lose, *gain),
        ColoriChoice::DestroyAndMixAll { card_instance_id, mixes } =>
            avail_destroy_and_mix(state, *card_instance_id, *mixes),
        ColoriChoice::DestroyAndSell { card_instance_id, buyer_instance_id } =>
            avail_destroy_and_sell(state, *card_instance_id, *buyer_instance_id),
        ColoriChoice::KeepWorkshopCards { card_instance_ids } =>
            avail_keep_workshop(state, *card_instance_ids),
    }
}

fn avail_draft_pick(state: &GameState, id: u32) -> (r: bool)
    requires
        state_wf(*state),
    ensures
        r == spec_choice_available(*state, ColoriChoice::DraftPick { card_instance_id: id }),
{
    match &state.phase {
        GamePhase::Draft { draft_state } => {
            id < 128 && draft_state.hands[draft_state.current_player_index].contains(id as u8)
        }
        _ => false,
    }
}

fn avail_destroy_drafted(state: &GameState, id: u32) -> (r: bool)
    requires
        state_wf(*state),
    ensures
        r == spec_choice_available(
            *state, ColoriChoice::DestroyDraftedCard { card_instance_id: id }),
{
    match &state.phase {
        GamePhase::Action { action_state } => {
            action_state.pending_choice.is_none()
                && id < 128
                && state.players.get(action_state.current_player_index)
                    .drafted_cards.contains(id as u8)
        }
        _ => false,
    }
}

fn avail_end_turn(state: &GameState) -> (r: bool)
    requires
        state_wf(*state),
    ensures
        r == spec_choice_available(*state, ColoriChoice::EndTurn),
{
    match &state.phase {
        GamePhase::Action { action_state } => action_state.pending_choice.is_none(),
        _ => false,
    }
}

fn avail_workshop(state: &GameState, ids: UnorderedCards) -> (r: bool)
    requires
        state_wf(*state),
    ensures
        r == spec_choice_available(*state, ColoriChoice::Workshop { card_instance_ids: ids }),
{
    match &state.phase {
        GamePhase::Action { action_state } => match &action_state.pending_choice {
            Some(PendingChoice::ChooseCardsForWorkshop { .. }) => {
                !ids.is_empty()
                    && ids.is_subset(
                        &state.players.get(action_state.current_player_index).workshop_cards,
                    )
            }
            _ => false,
        },
        _ => false,
    }
}

fn avail_skip_workshop(state: &GameState) -> (r: bool)
    requires
        state_wf(*state),
    ensures
        r == spec_choice_available(*state, ColoriChoice::SkipWorkshop),
{
    match &state.phase {
        GamePhase::Action { action_state } => matches!(
            action_state.pending_choice,
            Some(PendingChoice::ChooseCardsForWorkshop { .. })
        ),
        _ => false,
    }
}

fn avail_destroy_drawn(state: &GameState, ids: UnorderedCards) -> (r: bool)
    requires
        state_wf(*state),
    ensures
        r == spec_choice_available(
            *state, ColoriChoice::DestroyDrawnCards { card_instance_ids: ids }),
{
    match &state.phase {
        GamePhase::Action { action_state } => match &action_state.pending_choice {
            Some(PendingChoice::ChooseCardsToDestroy { .. }) => {
                ids.is_subset(
                    &state.players.get(action_state.current_player_index).workshop_cards,
                )
            }
            _ => false,
        },
        _ => false,
    }
}

fn avail_select_buyer(state: &GameState, id: u32) -> (r: bool)
    requires
        state_wf(*state),
    ensures
        r == spec_choice_available(*state, ColoriChoice::SelectBuyer { buyer_instance_id: id }),
{
    match &state.phase {
        GamePhase::Action { action_state } => match &action_state.pending_choice {
            Some(PendingChoice::ChooseBuyer) => {
                find_affordable_buyer(state, action_state.current_player_index, id).is_some()
            }
            _ => false,
        },
        _ => false,
    }
}

fn avail_gain_secondary(state: &GameState, color: crate::types::Color) -> (r: bool)
    requires
        state_wf(*state),
    ensures
        r == spec_choice_available(*state, ColoriChoice::GainSecondary { color }),
{
    match &state.phase {
        GamePhase::Action { action_state } => {
            matches!(action_state.pending_choice, Some(PendingChoice::ChooseSecondaryColor))
                && {
                    let i = color.index();
                    i == 2 || i == 6 || i == 10
                }
        }
        _ => false,
    }
}

fn avail_gain_primary(state: &GameState, color: crate::types::Color) -> (r: bool)
    requires
        state_wf(*state),
    ensures
        r == spec_choice_available(*state, ColoriChoice::GainPrimary { color }),
{
    match &state.phase {
        GamePhase::Action { action_state } => {
            matches!(action_state.pending_choice, Some(PendingChoice::ChoosePrimaryColor))
                && {
                    let i = color.index();
                    i == 0 || i == 4 || i == 8
                }
        }
        _ => false,
    }
}

fn avail_mix_all(state: &GameState, mixes: Mixes) -> (r: bool)
    requires
        state_wf(*state),
    ensures
        r == spec_choice_available(*state, ColoriChoice::MixAll { mixes }),
{
    match &state.phase {
        GamePhase::Action { action_state } => match &action_state.pending_choice {
            Some(PendingChoice::ChooseMix { .. }) => {
                mixes_startable(
                    &state.players.get(action_state.current_player_index).color_wheel,
                    &mixes,
                )
            }
            _ => false,
        },
        _ => false,
    }
}

fn avail_swap_tertiary(
    state: &GameState,
    lose: crate::types::Color,
    gain: crate::types::Color,
) -> (r: bool)
    requires
        state_wf(*state),
    ensures
        r == spec_choice_available(*state, ColoriChoice::SwapTertiary { lose, gain }),
{
    match &state.phase {
        GamePhase::Action { action_state } => match &action_state.pending_choice {
            Some(PendingChoice::ChooseTertiaryToLose) => {
                let li = lose.index();
                let gi = gain.index();
                li % 2 == 1
                    && state.players.get(action_state.current_player_index)
                        .color_wheel.get(lose) > 0
                    && gi % 2 == 1
                    && lose != gain
            }
            _ => false,
        },
        _ => false,
    }
}

fn avail_destroy_and_mix(state: &GameState, id: u32, mixes: Mixes) -> (r: bool)
    requires
        state_wf(*state),
    ensures
        r == spec_choice_available(
            *state, ColoriChoice::DestroyAndMixAll { card_instance_id: id, mixes }),
{
    match &state.phase {
        GamePhase::Action { action_state } => {
            action_state.pending_choice.is_none()
                && id < 128
                && state.players.get(action_state.current_player_index)
                    .drafted_cards.contains(id as u8)
                && mixes_startable(
                    &state.players.get(action_state.current_player_index).color_wheel,
                    &mixes,
                )
        }
        _ => false,
    }
}

fn avail_destroy_and_sell(state: &GameState, id: u32, buyer_id: u32) -> (r: bool)
    requires
        state_wf(*state),
    ensures
        r == spec_choice_available(
            *state,
            ColoriChoice::DestroyAndSell { card_instance_id: id, buyer_instance_id: buyer_id },
        ),
{
    match &state.phase {
        GamePhase::Action { action_state } => {
            action_state.pending_choice.is_none()
                && id < 128
                && state.players.get(action_state.current_player_index)
                    .drafted_cards.contains(id as u8)
                && find_affordable_buyer(state, action_state.current_player_index, buyer_id)
                    .is_some()
        }
        _ => false,
    }
}

fn avail_keep_workshop(state: &GameState, ids: UnorderedCards) -> (r: bool)
    requires
        state_wf(*state),
    ensures
        r == spec_choice_available(
            *state, ColoriChoice::KeepWorkshopCards { card_instance_ids: ids }),
{
    match &state.phase {
        GamePhase::Cleanup { cleanup_state } => {
            ids.is_subset(
                &state.players.get(cleanup_state.current_player_index).workshop_cards,
            )
        }
        _ => false,
    }
}

/// Whether a mix list can start on the wheel.
pub fn mixes_startable(wheel: &ColorWheel, mixes: &Mixes) -> (r: bool)
    ensures
        r == spec_mixes_startable(*wheel, *mixes),
{
    if mixes.len() == 0 {
        return true;
    }
    let p = mixes.get(0);
    wheel.get(p.a) > 0 && wheel.get(p.b) > 0 && can_mix(p.a, p.b)
}

/// The position in the buyer display of the buyer with this instance id, if
/// it is there and the player can afford it.
pub fn find_affordable_buyer(state: &GameState, player_index: usize, buyer_instance_id: u32)
    -> (r: Option<usize>)
    requires
        state_wf(*state),
        player_index < state.players@.len(),
    ensures
        match r {
            Option::Some(j) => j < state.buyer_display@.len()
                && state.buyer_display@[j as int].instance_id == buyer_instance_id
                && spec_can_afford(
                    state.players@[player_index as int],
                    state.buyer_display@[j as int].buyer,
                ),
            Option::None => !exists|j: int| 0 <= j < state.buyer_display@.len()
                && (#[trigger] state.buyer_display@[j]).instance_id == buyer_instance_id
                && spec_can_afford(
                    state.players@[player_index as int],
                    state.buyer_display@[j].buyer,
                ),
        },
{
    let player = state.players.get(player_index);
    let mut j: usize = 0;
    while j < state.buyer_display.len()
        invariant
            j <= state.buyer_display@.len(),
            player_index < state.players@.len(),
            player == state.players@[player_index as int],
            forall|l: int| 0 <= l < j ==> !(
                (#[trigger] state.buyer_display@[l]).instance_id == buyer_instance_id
                && spec_can_afford(
                    state.players@[player_index as int],
                    state.buyer_display@[l].buyer,
                )
            ),
        decreases state.buyer_display@.len() - j,
    {
        let g = state.buyer_display.get(j);
        if g.instance_id == buyer_instance_id {
            if can_afford_buyer(player, &g.buyer) {
                return Some(j);
            }
        }
        j = j + 1;
    }
    None
}

/// Positions whose active player is owed at least one legal move: a free
/// action turn (EndTurn always stands), a draft pick from a nonempty hand,
/// or a cleanup keep (keeping nothing is always offered).
pub open spec fn spec_must_offer(s: GameState) -> bool {
    match s.phase {
        GamePhase::Action { action_state } => action_state.pending_choice is None,
        GamePhase::Draft { draft_state } => !draft_state.waiting_for_pass
            && draft_state.hands@[draft_state.current_player_index as int]@
                != Set::<u8>::empty(),
        GamePhase::Cleanup { .. } => true,
        _ => false,
    }
}

/// Lists growing only by available choices: the old entries stand, and every
/// new entry is legal in `s`.
pub open spec fn grows_available(s: GameState, before: Seq<ColoriChoice>, after: Seq<ColoriChoice>) -> bool {
    &&& after.len() >= before.len()
    &&& forall|i: int| 0 <= i < before.len() ==> after[i] == before[i]
    &&& forall|i: int| before.len() <= i < after.len()
        ==> spec_choice_available(s, #[trigger] after[i])
}

/// Which choice variant a subset enumeration feeds.
enum SubsetKind {
    Workshop,
    DestroyDrawn,
    KeepWorkshop,
}

proof fn lemma_sub_walk(sub: u128, mask: u128)
    by (bit_vector)
    requires
        sub > 0,
    ensures
        (((sub - 1) as u128) & mask) < sub,
        (((sub - 1) as u128) & mask) & !mask == 0,
{
}

proof fn lemma_and_not_zero_subset(a: u128, b: u128)
    requires
        a & !b == 0,
    ensures
        mask_as_set(a).subset_of(mask_as_set(b)),
{
    assert forall|i: u8| mask_as_set(a).contains(i) implies mask_as_set(b).contains(i) by {
        crate::unordered_cards::lemma_bit_diff_public(a, b, i);
        assert(!bit_set(a & !b, i)) by {
            crate::unordered_cards::lemma_zero_bit_public(i);
        }
    }
}

/// Push every non-empty subset of `mask` with at most `max_size` members,
/// wrapped in the choice variant `kind` names.
fn push_subsets(
    state: &GameState,
    mask: UnorderedCards,
    max_size: u32,
    kind: SubsetKind,
    choices: &mut Vec<ColoriChoice>,
)
    requires
        state_wf(*state),
        match kind {
            SubsetKind::Workshop => match state.phase {
                GamePhase::Action { action_state } => {
                    &&& action_state.pending_choice matches Option::Some(
                        PendingChoice::ChooseCardsForWorkshop { .. })
                    &&& mask@.subset_of(s_workshop(*state, action_state.current_player_index as int))
                }
                _ => false,
            },
            SubsetKind::DestroyDrawn => match state.phase {
                GamePhase::Action { action_state } => {
                    &&& action_state.pending_choice matches Option::Some(
                        PendingChoice::ChooseCardsToDestroy { .. })
                    &&& mask@.subset_of(s_workshop(*state, action_state.current_player_index as int))
                }
                _ => false,
            },
            SubsetKind::KeepWorkshop => match state.phase {
                GamePhase::Cleanup { cleanup_state } => mask@.subset_of(
                    s_workshop(*state, cleanup_state.current_player_index as int)),
                _ => false,
            },
        },
    ensures
        grows_available(*state, old(choices)@, final(choices)@),
{
    let ghost s = *state;
    let ghost before = choices@;
    let mut sub: u128 = mask.0;
    proof {
        let m = mask.0;
        assert(m & !m == 0) by (bit_vector);
    }
    while sub != 0
        invariant
            sub & !mask.0 == 0,
            grows_available(s, before, choices@),
            s == *state,
            state_wf(s),
            match kind {
                SubsetKind::Workshop => match s.phase {
                    GamePhase::Action { action_state } => {
                        &&& action_state.pending_choice matches Option::Some(
                            PendingChoice::ChooseCardsForWorkshop { .. })
                        &&& mask@.subset_of(s_workshop(s, action_state.current_player_index as int))
                    }
                    _ => false,
                },
                SubsetKind::DestroyDrawn => match s.phase {
                    GamePhase::Action { action_state } => {
                        &&& action_state.pending_choice matches Option::Some(
                            PendingChoice::ChooseCardsToDestroy { .. })
                        &&& mask@.subset_of(s_workshop(s, action_state.current_player_index as int))
                    }
                    _ => false,
                },
                SubsetKind::KeepWorkshop => match s.phase {
                    GamePhase::Cleanup { cleanup_state } => mask@.subset_of(
                        s_workshop(s, cleanup_state.current_player_index as int)),
                    _ => false,
                },
            },
        decreases sub,
    {
        let subset = UnorderedCards(sub);
        proof {
            lemma_and_not_zero_subset(sub, mask.0);
            assert(subset@.subset_of(mask@));
            assert(subset@ != Set::<u8>::empty()) by {
                let i = crate::unordered_cards::lemma_nonzero_bit_public(sub);
                assert(subset@.contains(i));
            }
        }
        let size = subset.len();
        let keep = match kind {
            SubsetKind::Workshop => size <= max_size,
            SubsetKind::DestroyDrawn => size <= max_size,
            SubsetKind::KeepWorkshop => true,
        };
        if keep {
            let c = match kind {
                SubsetKind::Workshop => ColoriChoice::Workshop { card_instance_ids: subset },
                SubsetKind::DestroyDrawn =>
                    ColoriChoice::DestroyDrawnCards { card_instance_ids: subset },
                SubsetKind::KeepWorkshop =>
                    ColoriChoice::KeepWorkshopCards { card_instance_ids: subset },
            };
            proof {
                assert(spec_choice_available(s, c));
            }
            choices.push(c);
        }
        proof {
            lemma_sub_walk(sub, mask.0);
        }
        sub = (sub - 1) & mask.0;
    }
}

/// The workshop cards of player `i` in `s`.
pub open spec fn s_workshop(s: GameState, i: int) -> Set<u8> {
    s.players@[i].workshop_cards@
}

/// Push the mix moves a wheel allows, at most two deep: the empty list, every
/// startable single mix, and every startable pair when two mixes remain.
fn push_mix_sequences(
    state: &GameState,
    wheel: &ColorWheel,
    remaining: u32,
    destroy_card: Option<u32>,
    choices: &mut Vec<ColoriChoice>,
)
    requires
        state_wf(*state),
        match destroy_card {
            Option::Some(id) => match state.phase {
                GamePhase::Action { action_state } => {
                    &&& action_state.pending_choice is None
                    &&& id < 128
                    &&& state.players@[action_state.current_player_index as int]
                        .drafted_cards@.contains(id as u8)
                    &&& *wheel == state.players@[
                        action_state.current_player_index as int].color_wheel
                }
                _ => false,
            },
            Option::None => match state.phase {
                GamePhase::Action { action_state } => {
                    &&& action_state.pending_choice matches Option::Some(
                        PendingChoice::ChooseMix { .. })
                    &&& *wheel == state.players@[
                        action_state.current_player_index as int].color_wheel
                }
                _ => false,
            },
        },
    ensures
        grows_available(*state, old(choices)@, final(choices)@),
        final(choices)@.len() > old(choices)@.len(),
{
    let ghost s = *state;
    let ghost before = choices@;

    let empty_choice = match destroy_card {
        Some(id) => ColoriChoice::DestroyAndMixAll {
            card_instance_id: id,
            mixes: Mixes::Zero,
        },
        None => ColoriChoice::MixAll { mixes: Mixes::Zero },
    };
    proof {
        assert(spec_choice_available(s, empty_choice));
    }
    choices.push(empty_choice);

    let mut k: usize = 0;
    while k < 9
        invariant
            k <= 9,
            grows_available(s, before, choices@),
            choices@.len() > before.len(),
            s == *state,
            state_wf(s),
            match destroy_card {
                Option::Some(id) => match s.phase {
                    GamePhase::Action { action_state } => {
                        &&& action_state.pending_choice is None
                        &&& id < 128
                        &&& s.players@[action_state.current_player_index as int]
                            .drafted_cards@.contains(id as u8)
                        &&& *wheel == s.players@[
                            action_state.current_player_index as int].color_wheel
                    }
                    _ => false,
                },
                Option::None => match s.phase {
                    GamePhase::Action { action_state } => {
                        &&& action_state.pending_choice matches Option::Some(
                            PendingChoice::ChooseMix { .. })
                        &&& *wheel == s.players@[
                            action_state.current_player_index as int].color_wheel
                    }
                    _ => false,
                },
            },
        decreases 9 - k,
    {
        let (a, b) = VALID_MIX_PAIRS[k];
        if wheel.get(a) > 0 && wheel.get(b) > 0 {
            proof {
                assert(spec_can_mix(a, b));
            }
            let first = MixPair { a, b };
            let one = match destroy_card {
                Some(id) => ColoriChoice::DestroyAndMixAll {
                    card_instance_id: id,
                    mixes: Mixes::One(first),
                },
                None => ColoriChoice::MixAll { mixes: Mixes::One(first) },
            };
            proof {
                assert(spec_choice_available(s, one));
            }
            choices.push(one);

            if remaining > 1 {
                let mut wheel2 = *wheel;
                perform_mix_unchecked(&mut wheel2, a, b);
                let mut l: usize = 0;
                while l < 9
                    invariant
                        l <= 9,
                        k < 9,
                        grows_available(s, before, choices@),
                        choices@.len() > before.len(),
                        s == *state,
                        state_wf(s),
                        first == (MixPair { a: VALID_MIX_PAIRS@[k as int].0, b: VALID_MIX_PAIRS@[k as int].1 }),
                        spec_mixes_startable(
                            match s.phase {
                                GamePhase::Action { action_state } => s.players@[
                                    action_state.current_player_index as int].color_wheel,
                                _ => arbitrary(),
                            },
                            Mixes::One(first),
                        ),
                        match destroy_card {
                            Option::Some(id) => match s.phase {
                                GamePhase::Action { action_state } => {
                                    &&& action_state.pending_choice is None
                                    &&& id < 128
                                    &&& s.players@[action_state.current_player_index as int]
                                        .drafted_cards@.contains(id as u8)
                                }
                                _ => false,
                            },
                            Option::None => match s.phase {
                                GamePhase::Action { action_state } => {
                                    action_state.pending_choice matches Option::Some(
                                        PendingChoice::ChooseMix { .. })
                                }
                                _ => false,
                            },
                        },
                    decreases 9 - l,
                {
                    let (c, d) = VALID_MIX_PAIRS[l];
                    if wheel2.get(c) > 0 && wheel2.get(d) > 0 {
                        let second = MixPair { a: c, b: d };
                        let two = match destroy_card {
                            Some(id) => ColoriChoice::DestroyAndMixAll {
                                card_instance_id: id,
                                mixes: Mixes::Two(first, second),
                            },
                            None => ColoriChoice::MixAll { mixes: Mixes::Two(first, second) },
                        };
                        proof {
                            assert(spec_choice_available(s, two));
                        }
                        choices.push(two);
                    }
                    l = l + 1;
                }
            }
        }
        k = k + 1;
    }
}

/// List the legal moves of a position. Every returned move is available, and
/// a player whose turn it is to play a card always has at least `EndTurn`.
pub fn enumerate_choices_into(state: &GameState, choices: &mut Vec<ColoriChoice>)
    requires
        state_wf(*state),
    ensures
        forall|i: int| 0 <= i < final(choices)@.len()
            ==> spec_choice_available(*state, #[trigger] final(choices)@[i]),
        (match state.phase {
            GamePhase::Action { action_state } => action_state.pending_choice is None,
            _ => false,
        }) ==> final(choices)@.len() > 0
            && final(choices)@.contains(ColoriChoice::EndTurn),
        // Whoever is owed a move gets at least one; a draft waiting on a
        // hand pass offers none.
        spec_must_offer(*state) ==> final(choices)@.len() > 0,
        (match state.phase {
            GamePhase::Draft { draft_state } => draft_state.waiting_for_pass,
            _ => false,
        }) ==> final(choices)@.len() == 0,
{
    let ghost s = *state;
    choices.clear();
    match &state.phase {
        GamePhase::Draft { draft_state } => {
            if draft_state.waiting_for_pass {
                return;
            }
            let hand = draft_state.hands[draft_state.current_player_index];
            let ids = hand.members();
            proof {
                crate::unordered_cards::lemma_popcount_is_len(hand.0);
                if hand@ != Set::<u8>::empty() {
                    vstd::set_lib::lemma_set_empty_equivalency_len(hand@);
                    assert(ids@.len() > 0);
                }
            }
            let mut k: usize = 0;
            while k < ids.len()
                invariant
                    k <= ids@.len(),
                    s == *state,
                    state_wf(s),
                    s.phase matches GamePhase::Draft { draft_state: ds }
                        && !ds.waiting_for_pass
                        && hand == ds.hands@[ds.current_player_index as int],
                    forall|l: int| 0 <= l < ids@.len()
                        ==> hand@.contains(#[trigger] ids@[l]),
                    choices@.len() == k,
                    forall|i: int| 0 <= i < choices@.len()
                        ==> spec_choice_available(s, #[trigger] choices@[i]),
                decreases ids@.len() - k,
            {
                let id = ids[k];
                let c = ColoriChoice::DraftPick { card_instance_id: id as u32 };
                proof {
                    assert(spec_choice_available(s, c));
                }
                choices.push(c);
                k = k + 1;
            }
        }
        GamePhase::Action { action_state } => {
            let pi = action_state.current_player_index;
            match &action_state.pending_choice {
                None => {
                    let ids = state.players.get(pi).drafted_cards.members();
                    let mut k: usize = 0;
                    while k < ids.len()
                        invariant
                            k <= ids@.len(),
                            s == *state,
                            state_wf(s),
                            s.phase matches GamePhase::Action { action_state: a }
                                && a.pending_choice is None
                                && a.current_player_index == pi,
                            pi < s.players@.len(),
                            forall|l: int| 0 <= l < ids@.len()
                                ==> s.players@[pi as int].drafted_cards@
                                    .contains(#[trigger] ids@[l]),
                            forall|i: int| 0 <= i < choices@.len()
                                ==> spec_choice_available(s, #[trigger] choices@[i]),
                        decreases ids@.len() - k,
                    {
                        let id = ids[k];
                        let card_instance_id = id as u32;
                        let card = state.card_lookup[id as usize];
                        match card.ability() {
                            Ability::MixColors { count } => {
                                let wheel = state.players.get(pi).color_wheel;
                                push_mix_sequences(
                                    state, &wheel, count, Some(card_instance_id), choices);
                            }
                            Ability::Sell => {
                                let mut has_buyer = false;
                                let mut j: usize = 0;
                                while j < state.buyer_display.len()
                                    invariant
                                        j <= state.buyer_display@.len(),
                                        s == *state,
                                        state_wf(s),
                                        s.phase matches GamePhase::Action { action_state: a }
                                            && a.pending_choice is None
                                            && a.current_player_index == pi,
                                        pi < s.players@.len(),
                                        id < 128,
                                        s.players@[pi as int].drafted_cards@.contains(id),
                                        card_instance_id == id as u32,
                                        forall|i: int| 0 <= i < choices@.len()
                                            ==> spec_choice_available(
                                                s, #[trigger] choices@[i]),
                                    decreases state.buyer_display@.len() - j,
                                {
                                    let g = state.buyer_display.get(j);
                                    if can_afford_buyer(state.players.get(pi), &g.buyer) {
                                        has_buyer = true;
                                        let c = ColoriChoice::DestroyAndSell {
                                            card_instance_id,
                                            buyer_instance_id: g.instance_id,
                                        };
                                        proof {
                                            assert(s.buyer_display@[j as int].instance_id
                                                == g.instance_id);
                                            assert(spec_can_afford(
                                                s.players@[pi as int],
                                                s.buyer_display@[j as int].buyer,
                                            ));
                                            assert(spec_choice_available(s, c));
                                        }
                                        choices.push(c);
                                    }
                                    j = j + 1;
                                }
                                if !has_buyer {
                                    let c = ColoriChoice::DestroyDraftedCard {
                                        card_instance_id,
                                    };
                                    proof {
                                        assert(spec_choice_available(s, c));
                                    }
                                    choices.push(c);
                                }
                            }
                            _ => {
                                let c = ColoriChoice::DestroyDraftedCard { card_instance_id };
                                proof {
                                    assert(spec_choice_available(s, c));
                                }
                                choices.push(c);
                            }
                        }
                        k = k + 1;
                    }
                    let c = ColoriChoice::EndTurn;
                    proof {
                        assert(spec_choice_available(s, c));
                    }
                    choices.push(c);
                    proof {
                        assert(choices@[choices@.len() - 1] == ColoriChoice::EndTurn);
                    }
                }
                Some(PendingChoice::ChooseCardsForWorkshop { count }) => {
                    let c = ColoriChoice::SkipWorkshop;
                    proof {
                        assert(spec_choice_available(s, c));
                    }
                    choices.push(c);
                    let workshop = state.players.get(pi).workshop_cards;
                    push_subsets(state, workshop, *count, SubsetKind::Workshop, choices);
                }
                Some(PendingChoice::ChooseCardsToDestroy { .. }) => {
                    let workshop = state.players.get(pi).workshop_cards;
                    if workshop.is_empty() {
                        let c = ColoriChoice::DestroyDrawnCards {
                            card_instance_ids: UnorderedCards::new(),
                        };
                        proof {
                            assert(spec_choice_available(s, c));
                        }
                        choices.push(c);
                    } else {
                        push_subsets(state, workshop, 1, SubsetKind::DestroyDrawn, choices);
                    }
                }
                Some(PendingChoice::ChooseMix { remaining }) => {
                    let wheel = state.players.get(pi).color_wheel;
                    push_mix_sequences(state, &wheel, *remaining, None, choices);
                }
                Some(PendingChoice::ChooseBuyer) => {
                    let mut j: usize = 0;
                    while j < state.buyer_display.len()
                        invariant
                            j <= state.buyer_display@.len(),
                            s == *state,
                            state_wf(s),
                            s.phase matches GamePhase::Action { action_state: a }
                                && a.pending_choice matches Option::Some(
                                    PendingChoice::ChooseBuyer)
                                && a.current_player_index == pi,
                            pi < s.players@.len(),
                            forall|i: int| 0 <= i < choices@.len()
                                ==> spec_choice_available(s, #[trigger] choices@[i]),
                        decreases state.buyer_display@.len() - j,
                    {
                        let g = state.buyer_display.get(j);
                        if can_afford_buyer(state.players.get(pi), &g.buyer) {
                            let c = ColoriChoice::SelectBuyer {
                                buyer_instance_id: g.instance_id,
                            };
                            proof {
                                assert(s.buyer_display@[j as int].instance_id == g.instance_id);
                                assert(spec_can_afford(
                                    s.players@[pi as int],
                                    s.buyer_display@[j as int].buyer,
                                ));
                                assert(spec_choice_available(s, c));
                            }
                            choices.push(c);
                        }
                        j = j + 1;
                    }
                }
                Some(PendingChoice::ChooseSecondaryColor) => {
                    let mut k: usize = 0;
                    while k < 3
                        invariant
                            k <= 3,
                            s == *state,
                            state_wf(s),
                            s.phase matches GamePhase::Action { action_state: a }
                                && a.pending_choice matches Option::Some(
                                    PendingChoice::ChooseSecondaryColor),
                            forall|i: int| 0 <= i < choices@.len()
                                ==> spec_choice_available(s, #[trigger] choices@[i]),
                        decreases 3 - k,
                    {
                        let color = crate::colors::SECONDARIES[k];
                        let c = ColoriChoice::GainSecondary { color };
                        proof {
                            assert(spec_choice_available(s, c));
                        }
                        choices.push(c);
                        k = k + 1;
                    }
                }
                Some(PendingChoice::ChoosePrimaryColor) => {
                    let mut k: usize = 0;
                    while k < 3
                        invariant
                            k <= 3,
                            s == *state,
                            state_wf(s),
                            s.phase matches GamePhase::Action { action_state: a }
                                && a.pending_choice matches Option::Some(
                                    PendingChoice::ChoosePrimaryColor),
                            forall|i: int| 0 <= i < choices@.len()
                                ==> spec_choice_available(s, #[trigger] choices@[i]),
                        decreases 3 - k,
                    {
                        let color = crate::colors::PRIMARIES[k];
                        let c = ColoriChoice::GainPrimary { color };
                        proof {
                            assert(spec_choice_available(s, c));
                        }
                        choices.push(c);
                        k = k + 1;
                    }
                }
                Some(PendingChoice::ChooseTertiaryToLose) => {
                    let mut k: usize = 0;
                    while k < 6
                        invariant
                            k <= 6,
                            s == *state,
                            state_wf(s),
                            s.phase matches GamePhase::Action { action_state: a }
                                && a.pending_choice matches Option::Some(
                                    PendingChoice::ChooseTertiaryToLose)
                                && a.current_player_index == pi,
                            pi < s.players@.len(),
                            forall|i: int| 0 <= i < choices@.len()
                                ==> spec_choice_available(s, #[trigger] choices@[i]),
                        decreases 6 - k,
                    {
                        let lose = crate::colors::TERTIARIES[k];
                        if state.players.get(pi).color_wheel.get(lose) > 0 {
                            let mut l: usize = 0;
                            while l < 6
                                invariant
                                    l <= 6,
                                    k < 6,
                                    s == *state,
                                    state_wf(s),
                                    s.phase matches GamePhase::Action { action_state: a }
                                        && a.pending_choice matches Option::Some(
                                            PendingChoice::ChooseTertiaryToLose)
                                        && a.current_player_index == pi,
                                    pi < s.players@.len(),
                                    lose == crate::colors::TERTIARIES@[k as int],
                                    s.players@[pi as int].color_wheel
                                        .counts@[color_index(lose)] > 0,
                                    forall|i: int| 0 <= i < choices@.len()
                                        ==> spec_choice_available(s, #[trigger] choices@[i]),
                                decreases 6 - l,
                            {
                                let gain = crate::colors::TERTIARIES[l];
                                if gain != lose {
                                    let c = ColoriChoice::SwapTertiary { lose, gain };
                                    proof {
                                        assert(spec_choice_available(s, c));
                                    }
                                    choices.push(c);
                                }
                                l = l + 1;
                            }
                        }
                        k = k + 1;
                    }
                }
            }
        }
        GamePhase::Cleanup { cleanup_state } => {
            let c = ColoriChoice::KeepWorkshopCards {
                card_instance_ids: UnorderedCards::new(),
            };
            proof {
                assert(spec_choice_available(s, c));
            }
            choices.push(c);
            let workshop = state.players.get(cleanup_state.current_player_index).workshop_cards;
            push_subsets(state, workshop, 0, SubsetKind::KeepWorkshop, choices);
        }
        _ => {}
    }
}

/// The legal moves of a position, as a fresh list.
pub fn enumerate_choices(state: &GameState) -> (choices: Vec<ColoriChoice>)
    requires
        state_wf(*state),
    ensures
        forall|i: int| 0 <= i < choices@.len()
            ==> spec_choice_available(*state, #[trigger] choices@[i]),
        spec_must_offer(*state) ==> choices@.len() > 0,
{
    let mut choices = Vec::new();
    enumerate_choices_into(state, &mut choices);
    choices
}

/// Drop card plays that a canonical ordering already covers: once a later
/// ordering phase has been entered this turn, earlier-phase plays are pruned.
pub fn filter_choices_canonical(state: &GameState, choices: &mut Vec<ColoriChoice>)
    requires
        state_wf(*state),
        forall|i: int| 0 <= i < old(choices)@.len()
            ==> spec_choice_available(*state, #[trigger] old(choices)@[i]),
    ensures
        forall|i: int| 0 <= i < final(choices)@.len()
            ==> spec_choice_available(*state, #[trigger] final(choices)@[i]),
        forall|i: int| 0 <= i < final(choices)@.len()
            ==> old(choices)@.contains(#[trigger] final(choices)@[i]),
        (match state.phase {
            GamePhase::Action { action_state } => action_state.pending_choice is None,
            _ => false,
        }) && old(choices)@.contains(ColoriChoice::EndTurn)
            ==> final(choices)@.contains(ColoriChoice::EndTurn),
        // Only a free action turn is ever pruned; all other positions keep
        // their list word for word.
        !(match state.phase {
            GamePhase::Action { action_state } => action_state.pending_choice is None,
            _ => false,
        }) ==> final(choices)@ == old(choices)@,
{
    let canonical_phase = match &state.phase {
        GamePhase::Action { action_state } => {
            if action_state.pending_choice.is_none() {
                action_state.canonical_phase
            } else {
                return;
            }
        }
        _ => {
            return;
        }
    };
    if canonical_phase == 0 {
        return;
    }
    let ghost s = *state;
    let ghost before = choices@;
    let mut kept: Vec<ColoriChoice> = Vec::new();
    let mut k: usize = 0;
    while k < choices.len()
        invariant
            k <= choices@.len(),
            choices@ == before,
            s == *state,
            forall|i: int| 0 <= i < before.len()
                ==> spec_choice_available(s, #[trigger] before[i]),
            forall|i: int| 0 <= i < kept@.len()
                ==> spec_choice_available(s, #[trigger] kept@[i]),
            forall|i: int| 0 <= i < kept@.len() ==> before.contains(#[trigger] kept@[i]),
            before.take(k as int).contains(ColoriChoice::EndTurn)
                ==> kept@.contains(ColoriChoice::EndTurn),
        decreases choices@.len() - k,
    {
        let choice = choices[k];
        let keep = match choice {
            ColoriChoice::EndTurn => true,
            ColoriChoice::DestroyDraftedCard { card_instance_id } => {
                if card_instance_id < 128 {
                    let card = state.card_lookup[card_instance_id as usize];
                    match ability_canonical_phase(&card.ability()) {
                        Some(phase) => phase >= canonical_phase,
                        None => true,
                    }
                } else {
                    true
                }
            }
            ColoriChoice::DestroyAndMixAll { .. } => 1 >= canonical_phase,
            ColoriChoice::DestroyAndSell { .. } => true,
            _ => true,
        };
        let ghost kept_before = kept@;
        if keep {
            proof {
                assert(before[k as int] == choice);
                assert(before.contains(choice));
            }
            kept.push(choice);
            proof {
                assert(kept@[kept@.len() - 1] == choice);
            }
        }
        proof {
            if kept_before.contains(ColoriChoice::EndTurn) {
                let w = choose|w: int| 0 <= w < kept_before.len()
                    && kept_before[w] == ColoriChoice::EndTurn;
                assert(kept@[w] == ColoriChoice::EndTurn);
            }
            assert(before.take(k as int + 1).drop_last() =~= before.take(k as int));
            if before.take(k as int + 1).contains(ColoriChoice::EndTurn)
                && !before.take(k as int).contains(ColoriChoice::EndTurn) {
                assert(before.take(k as int + 1).last() == ColoriChoice::EndTurn);
                assert(before[k as int] == ColoriChoice::EndTurn);
            }
        }
        k = k + 1;
    }
    proof {
        assert(before.take(before.len() as int) =~= before);
    }
    *choices = kept;
}

/// The legal moves of a position after canonical-ordering pruning.
pub fn enumerate_choices_canonical_into(state: &GameState, choices: &mut Vec<ColoriChoice>)
    requires
        state_wf(*state),
    ensures
        forall|i: int| 0 <= i < final(choices)@.len()
            ==> spec_choice_available(*state, #[trigger] final(choices)@[i]),
        spec_must_offer(*state) ==> final(choices)@.len() > 0,
{
    enumerate_choices_into(state, choices);
    filter_choices_canonical(state, choices);
    proof {
        if choices@.contains(ColoriChoice::EndTurn) {
            let w = choose|w: int| 0 <= w < choices@.len()
                && choices@[w] == ColoriChoice::EndTurn;
            assert(choices@.len() > 0);
        }
    }
}

/// Membership test for instances of card type `t` under a lookup.
pub open spec fn type_pred(lookup: Seq<Card>, t: Card) -> spec_fn(u8) -> bool {
    |id: u8| id < 128 && lookup[id as int] == t
}

/// How many members of `ids` are instances of card type `t` under a lookup.
pub open spec fn type_count(ids: Set<u8>, lookup: Seq<Card>, t: Card) -> nat {
    ids.filter(type_pred(lookup, t)).len()
}

proof fn lemma_type_count_insert(ids: Set<u8>, lookup: Seq<Card>, t: Card, id: u8)
    requires
        ids.finite(),
        !ids.contains(id),
        id < 128,
        lookup.len() == 128,
    ensures
        lookup[id as int] == t
            ==> type_count(ids.insert(id), lookup, t) == type_count(ids, lookup, t) + 1,
        lookup[id as int] != t
            ==> type_count(ids.insert(id), lookup, t) == type_count(ids, lookup, t),
{
    let f = type_pred(lookup, t);
    assert(ids.filter(f).subset_of(ids));
    if lookup[id as int] == t {
        assert(ids.insert(id).filter(f) =~= ids.filter(f).insert(id));
        assert(ids.filter(f).finite()) by {
            vstd::set_lib::lemma_len_subset(ids.filter(f), ids);
        }
        assert(!ids.filter(f).contains(id));
    } else {
        assert(ids.insert(id).filter(f) =~= ids.filter(f));
    }
}

proof fn lemma_type_count_le(ids: Set<u8>, lookup: Seq<Card>, t: Card)
    requires
        ids.finite(),
    ensures
        type_count(ids, lookup, t) <= ids.len(),
{
    let f = type_pred(lookup, t);
    assert(ids.filter(f).subset_of(ids));
    vstd::set_lib::lemma_len_subset(ids.filter(f), ids);
}

proof fn lemma_type_count_mono(s1: Set<u8>, s2: Set<u8>, lookup: Seq<Card>, t: Card)
    requires
        s1.subset_of(s2),
        s2.finite(),
    ensures
        type_count(s1, lookup, t) <= type_count(s2, lookup, t),
{
    let f = type_pred(lookup, t);
    assert(s1.filter(f).subset_of(s2.filter(f)));
    assert(s2.filter(f).subset_of(s2));
    vstd::set_lib::lemma_len_subset(s2.filter(f), s2);
    vstd::set_lib::lemma_len_subset(s1.filter(f), s2.filter(f));
}

/// The card-type multiset of a selection of instances.
fn counts_of_selection(ids: &UnorderedCards, state: &GameState) -> (r: CardCounts)
    ensures
        forall|t: Card| r.counts@[card_type_index(t)]
            == type_count(ids@, state.card_lookup@, t),
{
    let list = ids.members();
    let mut counts = CardCounts::new();
    let ghost lookup = state.card_lookup@;
    let ghost full = ids@;
    let mut k: usize = 0;
    proof {
        crate::unordered_cards::lemma_popcount_is_len(ids.0);
        crate::unordered_cards::lemma_count_le_128(ids.0);
        assert forall|t: Card| counts.counts@[card_type_index(t)]
            == type_count(Set::<u8>::empty(), lookup, t) by {
            let f = type_pred(lookup, t);
            assert(Set::<u8>::empty().filter(f) =~= Set::<u8>::empty());
        }
    }
    let ghost done: Set<u8> = Set::empty();
    let mut ghost_done = Ghost(done);
    while k < list.len()
        invariant
            k <= list@.len(),
            lookup == state.card_lookup@,
            lookup.len() == 128,
            full == ids@,
            full.finite(),
            full.len() == list@.len(),
            full.len() <= 128,
            forall|l: int| 0 <= l < list@.len()
                ==> full.contains(#[trigger] list@[l]) && list@[l] < 128,
            forall|a: int, b: int| 0 <= a < b < list@.len() ==> list@[a] < list@[b],
            ghost_done@.finite(),
            ghost_done@.subset_of(full),
            ghost_done@.len() == k,
            forall|l: int| 0 <= l < k ==> ghost_done@.contains(#[trigger] list@[l]),
            forall|x: u8| ghost_done@.contains(x)
                ==> exists|l: int| 0 <= l < k && list@[l] == x,
            forall|t: Card| #[trigger] counts.counts@[card_type_index(t)]
                == type_count(ghost_done@, lookup, t),
        decreases list@.len() - k,
    {
        let id = list[k];
        proof {
            if ghost_done@.contains(id) {
                let l = choose|l: int| 0 <= l < k && list@[l] == id;
                assert(list@[l] < list@[k as int]);
                assert(false);
            }
            lemma_type_count_le(ghost_done@, lookup, state.card_lookup@[id as int]);
            vstd::set_lib::lemma_len_subset(ghost_done@, full);
        }
        let card = state.card_lookup[id as usize];
        let ghost prev = ghost_done@;
        let ghost prev_counts = counts.counts@;
        counts.add(card);
        proof {
            ghost_done@ = prev.insert(id);
        }
        proof {
            assert forall|t: Card| #[trigger] counts.counts@[card_type_index(t)]
                == type_count(prev.insert(id), lookup, t) by {
                lemma_type_count_insert(prev, lookup, t, id);
                lemma_type_count_le(prev, lookup, t);
                vstd::set_lib::lemma_len_subset(prev, full);
                if card_type_index(t) != card_type_index(card) {
                    assert(counts.counts@[card_type_index(t)]
                        == prev_counts[card_type_index(t)]);
                    assert(lookup[id as int] != t);
                } else {
                    assert(t == card) by {
                        crate::types::lemma_card_index_injective(t, card);
                    }
                }
            }
        }
        k = k + 1;
    }
    proof {
        assert(ghost_done@ =~= full) by {
            assert forall|x: u8| full.contains(x) implies ghost_done@.contains(x) by {
                vstd::set_lib::lemma_len_subset(ghost_done@, full);
                if !ghost_done@.contains(x) {
                    assert(ghost_done@.insert(x).subset_of(full));
                    vstd::set_lib::lemma_len_subset(ghost_done@.insert(x), full);
                }
            }
        }
    }
    counts
}


/// The buyer type an instance id stands for, with the catalog's first entry
/// standing in for an id outside the table.
pub open spec fn spec_buyer_of(s: GameState, id: u32) -> crate::types::BuyerCard {
    if id < 128 {
        s.buyer_lookup@[id as int]
    } else {
        s.buyer_lookup@[0]
    }
}

/// The abstraction relation: which abstract move a concrete choice stands
/// for in a position. For each concrete choice and position there is
/// exactly one such abstract move (`lemma_abstraction_functional`).
pub open spec fn spec_abstracts_to(c: ColoriChoice, a: AbstractChoice, s: GameState) -> bool {
    match (c, a) {
        (
            ColoriChoice::DraftPick { card_instance_id },
            AbstractChoice::DraftPick { card },
        ) => card_instance_id < 128 && card == s.card_lookup@[card_instance_id as int],
        (
            ColoriChoice::DestroyDraftedCard { card_instance_id },
            AbstractChoice::DestroyDraftedCard { card },
        ) => card_instance_id < 128 && card == s.card_lookup@[card_instance_id as int],
        (ColoriChoice::EndTurn, AbstractChoice::EndTurn) => true,
        (
            ColoriChoice::Workshop { card_instance_ids },
            AbstractChoice::Workshop { card_types },
        ) => forall|t: Card| card_types.counts@[card_type_index(t)]
            == type_count(card_instance_ids@, s.card_lookup@, t),
        (ColoriChoice::SkipWorkshop, AbstractChoice::SkipWorkshop) => true,
        (
            ColoriChoice::DestroyDrawnCards { card_instance_ids },
            AbstractChoice::DestroyDrawnCards { card_types },
        ) => forall|t: Card| card_types.counts@[card_type_index(t)]
            == type_count(card_instance_ids@, s.card_lookup@, t),
        (
            ColoriChoice::SelectBuyer { buyer_instance_id },
            AbstractChoice::SelectBuyer { buyer },
        ) => buyer == spec_buyer_of(s, buyer_instance_id),
        (
            ColoriChoice::GainSecondary { color: c1 },
            AbstractChoice::GainSecondary { color: c2 },
        ) => c1 == c2,
        (
            ColoriChoice::GainPrimary { color: c1 },
            AbstractChoice::GainPrimary { color: c2 },
        ) => c1 == c2,
        (ColoriChoice::MixAll { mixes: m1 }, AbstractChoice::MixAll { mixes: m2 }) => m1 == m2,
        (
            ColoriChoice::SwapTertiary { lose: l1, gain: g1 },
            AbstractChoice::SwapTertiary { lose: l2, gain: g2 },
        ) => l1 == l2 && g1 == g2,
        (
            ColoriChoice::DestroyAndMixAll { card_instance_id, mixes: m1 },
            AbstractChoice::DestroyAndMixAll { card, mixes: m2 },
        ) => card_instance_id < 128
            && card == s.card_lookup@[card_instance_id as int]
            && m1 == m2,
        (
            ColoriChoice::DestroyAndSell { card_instance_id, buyer_instance_id },
            AbstractChoice::DestroyAndSell { card, buyer },
        ) => card_instance_id < 128
            && card == s.card_lookup@[card_instance_id as int]
            && buyer == spec_buyer_of(s, buyer_instance_id),
        (
            ColoriChoice::KeepWorkshopCards { card_instance_ids },
            AbstractChoice::KeepWorkshopCards { card_types },
        ) => forall|t: Card| card_types.counts@[card_type_index(t)]
            == type_count(card_instance_ids@, s.card_lookup@, t),
        _ => false,
    }
}

/// Each concrete choice stands for at most one abstract move.
pub proof fn lemma_abstraction_functional(
    c: ColoriChoice,
    a1: AbstractChoice,
    a2: AbstractChoice,
    s: GameState,
)
    requires
        spec_abstracts_to(c, a1, s),
        spec_abstracts_to(c, a2, s),
    ensures
        a1 == a2,
{
    match c {
        ColoriChoice::Workshop { card_instance_ids } => {
            match (a1, a2) {
                (
                    AbstractChoice::Workshop { card_types: t1 },
                    AbstractChoice::Workshop { card_types: t2 },
                ) => {
                    assert forall|cc: Card| t1.counts@[#[trigger] card_type_index(cc)]
                        == t2.counts@[card_type_index(cc)] by {
                        assert(t1.counts@[card_type_index(cc)]
                            == type_count(card_instance_ids@, s.card_lookup@, cc));
                    }
                    lemma_counts_determined(t1, t2);
                }
                _ => {}
            }
        }
        ColoriChoice::DestroyDrawnCards { card_instance_ids } => {
            match (a1, a2) {
                (
                    AbstractChoice::DestroyDrawnCards { card_types: t1 },
                    AbstractChoice::DestroyDrawnCards { card_types: t2 },
                ) => {
                    assert forall|cc: Card| t1.counts@[#[trigger] card_type_index(cc)]
                        == t2.counts@[card_type_index(cc)] by {
                        assert(t1.counts@[card_type_index(cc)]
                            == type_count(card_instance_ids@, s.card_lookup@, cc));
                    }
                    lemma_counts_determined(t1, t2);
                }
                _ => {}
            }
        }
        ColoriChoice::KeepWorkshopCards { card_instance_ids } => {
            match (a1, a2) {
                (
                    AbstractChoice::KeepWorkshopCards { card_types: t1 },
                    AbstractChoice::KeepWorkshopCards { card_types: t2 },
                ) => {
                    assert forall|cc: Card| t1.counts@[#[trigger] card_type_index(cc)]
                        == t2.counts@[card_type_index(cc)] by {
                        assert(t1.counts@[card_type_index(cc)]
                            == type_count(card_instance_ids@, s.card_lookup@, cc));
                    }
                    lemma_counts_determined(t1, t2);
                }
                _ => {}
            }
        }
        _ => {}
    }
}

proof fn lemma_counts_determined(t1: CardCounts, t2: CardCounts)
    requires
        forall|c: Card| t1.counts@[#[trigger] card_type_index(c)]
            == t2.counts@[card_type_index(c)],
    ensures
        t1 == t2,
{
    assert forall|i: int| 0 <= i < 42
        implies t1.counts@[i] == t2.counts@[i] by {
        let c = crate::types::card_of_index(i);
        assert(card_type_index(c) == i);
        assert(t1.counts@[card_type_index(c)] == t2.counts@[card_type_index(c)]);
    }
    assert(t1.counts =~= t2.counts);
}

/// The move a concrete choice stands for, up to interchangeable card copies.
pub fn abstract_choice(choice: &ColoriChoice, state: &GameState) -> (r: AbstractChoice)
    requires
        state_wf(*state),
        spec_choice_available(*state, *choice),
    ensures
        spec_abstracts_to(*choice, r, *state),
{
    match choice {
        ColoriChoice::DraftPick { card_instance_id } => AbstractChoice::DraftPick {
            card: state.card_lookup[*card_instance_id as usize],
        },
        ColoriChoice::DestroyDraftedCard { card_instance_id } =>
            AbstractChoice::DestroyDraftedCard {
                card: state.card_lookup[*card_instance_id as usize],
            },
        ColoriChoice::EndTurn => AbstractChoice::EndTurn,
        ColoriChoice::Workshop { card_instance_ids } => AbstractChoice::Workshop {
            card_types: counts_of_selection(card_instance_ids, state),
        },
        ColoriChoice::SkipWorkshop => AbstractChoice::SkipWorkshop,
        ColoriChoice::DestroyDrawnCards { card_instance_ids } =>
            AbstractChoice::DestroyDrawnCards {
                card_types: counts_of_selection(card_instance_ids, state),
            },
        ColoriChoice::SelectBuyer { buyer_instance_id } => AbstractChoice::SelectBuyer {
            buyer: buyer_type_of(state, *buyer_instance_id),
        },
        ColoriChoice::GainSecondary { color } => AbstractChoice::GainSecondary { color: *color },
        ColoriChoice::GainPrimary { color } => AbstractChoice::GainPrimary { color: *color },
        ColoriChoice::MixAll { mixes } => AbstractChoice::MixAll { mixes: *mixes },
        ColoriChoice::SwapTertiary { lose, gain } => AbstractChoice::SwapTertiary {
            lose: *lose,
            gain: *gain,
        },
        ColoriChoice::DestroyAndMixAll { card_instance_id, mixes } =>
            AbstractChoice::DestroyAndMixAll {
                card: state.card_lookup[*card_instance_id as usize],
                mixes: *mixes,
            },
        ColoriChoice::DestroyAndSell { card_instance_id, buyer_instance_id } =>
            AbstractChoice::DestroyAndSell {
                card: state.card_lookup[*card_instance_id as usize],
                buyer: buyer_type_of(state, *buyer_instance_id),
            },
        ColoriChoice::KeepWorkshopCards { card_instance_ids } =>
            AbstractChoice::KeepWorkshopCards {
                card_types: counts_of_selection(card_instance_ids, state),
            },
    }
}

/// The buyer type behind an instance id, as far as the lookup reaches.
fn buyer_type_of(state: &GameState, buyer_instance_id: u32) -> (r: crate::types::BuyerCard)
    ensures
        r == spec_buyer_of(*state, buyer_instance_id),
{
    if buyer_instance_id < 128 {
        state.buyer_lookup[buyer_instance_id as usize]
    } else {
        state.buyer_lookup[0]
    }
}

/// Find a concrete card in `from` whose type is `card`; `None` exactly
/// when `from` holds no instance of that type.
fn find_instance_of(state: &GameState, from: &UnorderedCards, card: Card) -> (r: Option<u8>)
    ensures
        match r {
            Option::Some(id) => id < 128 && from@.contains(id)
                && state.card_lookup@[id as int] == card,
            Option::None => forall|id: u8| from@.contains(id)
                ==> state.card_lookup@[id as int] != card,
        },
{
    let ids = from.members();
    let mut k: usize = 0;
    while k < ids.len()
        invariant
            k <= ids@.len(),
            forall|l: int| 0 <= l < ids@.len()
                ==> from@.contains(#[trigger] ids@[l]) && ids@[l] < 128,
            forall|id: u8| from@.contains(id) ==> ids@.contains(id),
            forall|l: int| 0 <= l < k
                ==> state.card_lookup@[#[trigger] ids@[l] as int] != card,
        decreases ids@.len() - k,
    {
        let id = ids[k];
        let c = state.card_lookup[id as usize];
        if c.type_index() == card.type_index() {
            proof {
                crate::types::lemma_card_index_injective(c, card);
            }
            return Some(id);
        }
        proof {
            crate::types::lemma_card_index_injective(c, card);
        }
        k = k + 1;
    }
    proof {
        assert forall|id: u8| from@.contains(id)
            implies state.card_lookup@[id as int] != card by {
            assert(ids@.contains(id));
            let w = choose|w: int| 0 <= w < ids@.len() && ids@[w] == id;
        }
    }
    None
}

/// Pick, for every card type, as many distinct workshop instances as the
/// multiset demands. The pick succeeds exactly when the source covers every
/// demand, and then holds exactly the demanded number of instances of every
/// type.
fn select_by_counts(state: &GameState, from: &UnorderedCards, counts: &CardCounts)
    -> (r: Option<UnorderedCards>)
    ensures
        match r {
            Option::Some(sel) => sel@.subset_of(from@)
                && (forall|c: Card| type_count(sel@, state.card_lookup@, c)
                    == counts.counts@[card_type_index(c)])
                && (forall|c: Card| type_count(from@, state.card_lookup@, c)
                    >= counts.counts@[card_type_index(c)]),
            Option::None => exists|c: Card|
                type_count(from@, state.card_lookup@, c)
                    < counts.counts@[card_type_index(c)],
        },
{
    let ids = from.members();
    let ghost lookup = state.card_lookup@;
    let mut out = UnorderedCards::new();
    proof {
        assert forall|c: Card| type_count(out@, lookup, c) == 0 by {
            let f = type_pred(lookup, c);
            assert(out@.filter(f) =~= Set::<u8>::empty());
        }
    }
    let mut t: usize = 0;
    while t < 42
        invariant
            t <= 42,
            lookup == state.card_lookup@,
            out@.subset_of(from@),
            forall|l: int| 0 <= l < ids@.len()
                ==> from@.contains(#[trigger] ids@[l]) && ids@[l] < 128,
            forall|id: u8| from@.contains(id) ==> ids@.contains(id),
            forall|c: Card| card_type_index(c) < t as int
                ==> type_count(out@, lookup, c)
                    == counts.counts@[card_type_index(c)],
            forall|c: Card| card_type_index(c) >= t as int
                ==> type_count(out@, lookup, c) == 0,
        decreases 42 - t,
    {
        let need = counts.counts[t];
        let ghost target = crate::types::card_of_index(t as int);
        proof {
            assert(card_type_index(target) == t as int);
        }
        let mut found: u8 = 0;
        let mut k: usize = 0;
        while k < ids.len() && found < need
            invariant
                k <= ids@.len(),
                found <= need,
                need == counts.counts@[t as int],
                lookup == state.card_lookup@,
                out@.subset_of(from@),
                t < 42,
                target == crate::types::card_of_index(t as int),
                card_type_index(target) == t as int,
                forall|l: int| 0 <= l < ids@.len()
                    ==> from@.contains(#[trigger] ids@[l]) && ids@[l] < 128,
                forall|id: u8| from@.contains(id) ==> ids@.contains(id),
                type_count(out@, lookup, target) == found,
                forall|c: Card| card_type_index(c) < t as int
                    ==> type_count(out@, lookup, c)
                        == counts.counts@[card_type_index(c)],
                forall|c: Card| card_type_index(c) > t as int
                    ==> type_count(out@, lookup, c) == 0,
                // Every instance of the sought type scanned so far went in.
                forall|l: int| 0 <= l < k
                    ==> (lookup[#[trigger] ids@[l] as int] == target
                        ==> out@.contains(ids@[l])),
        decreases ids@.len() - k,
        {
            let id = ids[k];
            if !out.contains(id) {
                let c = state.card_lookup[id as usize];
                if c.type_index() == t {
                    proof {
                        crate::types::lemma_card_index_roundtrip(c);
                        assert(c == target);
                        crate::unordered_cards::lemma_popcount_is_len(out.0);
                    }
                    let ghost out_before = out@;
                    out.insert(id);
                    found = found + 1;
                    proof {
                        assert forall|cc: Card| #[trigger] type_count(out@, lookup, cc)
                            == type_count(out_before, lookup, cc)
                                + if cc == target { 1int } else { 0int } by {
                            lemma_type_count_insert(out_before, lookup, cc, id);
                            if cc != target {
                                crate::types::lemma_card_index_injective(cc, target);
                                assert(lookup[id as int] != cc);
                            }
                        }
                    }
                }
            }
            k = k + 1;
        }
        if found < need {
            proof {
                // The scan covered every member, so the source simply lacks
                // instances of this type.
                crate::unordered_cards::lemma_popcount_is_len(from.0);
                crate::unordered_cards::lemma_popcount_is_len(out.0);
                let f = type_pred(lookup, target);
                assert forall|id: u8| from@.contains(id) && lookup[id as int] == target
                    implies out@.contains(id) by {
                    assert(ids@.contains(id));
                    let w = choose|w: int| 0 <= w < ids@.len() && ids@[w] == id;
                }
                assert(from@.filter(f).subset_of(out@.filter(f)));
                assert(out@.filter(f).subset_of(out@));
                vstd::set_lib::lemma_len_subset(out@.filter(f), out@);
                vstd::set_lib::lemma_len_subset(from@.filter(f), out@.filter(f));
                assert(type_count(from@, lookup, target) <= type_count(out@, lookup, target));
                assert(type_count(from@, lookup, target)
                    < counts.counts@[card_type_index(target)]);
            }
            return None;
        }
        t = t + 1;
    }
    proof {
        assert forall|c: Card| type_count(out@, lookup, c)
            == counts.counts@[card_type_index(c)] by {
            assert(card_type_index(c) < 42);
        }
        crate::unordered_cards::lemma_popcount_is_len(from.0);
        assert forall|c: Card| type_count(from@, lookup, c)
            >= counts.counts@[card_type_index(c)] by {
            lemma_type_count_mono(out@, from@, lookup, c);
        }
    }
    Some(out)
}

/// A concrete move realizes an abstract one: the same move shape, with the
/// named instances carrying exactly the abstract card and buyer types (and,
/// for selections, exactly the demanded per-type counts) — so resolving and
/// re-abstracting round-trips.
pub open spec fn spec_resolves_to(abs: AbstractChoice, c: ColoriChoice, s: GameState) -> bool {
    match (abs, c) {
        (AbstractChoice::EndTurn, ColoriChoice::EndTurn) => true,
        (AbstractChoice::SkipWorkshop, ColoriChoice::SkipWorkshop) => true,
        (
            AbstractChoice::GainSecondary { color: a },
            ColoriChoice::GainSecondary { color: b },
        ) => a == b,
        (
            AbstractChoice::GainPrimary { color: a },
            ColoriChoice::GainPrimary { color: b },
        ) => a == b,
        (
            AbstractChoice::SwapTertiary { lose: l1, gain: g1 },
            ColoriChoice::SwapTertiary { lose: l2, gain: g2 },
        ) => l1 == l2 && g1 == g2,
        (AbstractChoice::MixAll { mixes: m1 }, ColoriChoice::MixAll { mixes: m2 }) => m1 == m2,
        (
            AbstractChoice::DraftPick { card },
            ColoriChoice::DraftPick { card_instance_id },
        ) => card_instance_id < 128 && s.card_lookup@[card_instance_id as int] == card,
        (
            AbstractChoice::DestroyDraftedCard { card },
            ColoriChoice::DestroyDraftedCard { card_instance_id },
        ) => card_instance_id < 128 && s.card_lookup@[card_instance_id as int] == card,
        (
            AbstractChoice::DestroyAndMixAll { card, mixes: m1 },
            ColoriChoice::DestroyAndMixAll { card_instance_id, mixes: m2 },
        ) => card_instance_id < 128
            && s.card_lookup@[card_instance_id as int] == card
            && m1 == m2,
        (
            AbstractChoice::DestroyAndSell { card, buyer },
            ColoriChoice::DestroyAndSell { card_instance_id, buyer_instance_id },
        ) => card_instance_id < 128
            && s.card_lookup@[card_instance_id as int] == card
            && buyer_instance_id < 128
            && s.buyer_lookup@[buyer_instance_id as int] == buyer,
        (
            AbstractChoice::SelectBuyer { buyer },
            ColoriChoice::SelectBuyer { buyer_instance_id },
        ) => buyer_instance_id < 128
            && s.buyer_lookup@[buyer_instance_id as int] == buyer,
        (
            AbstractChoice::Workshop { card_types },
            ColoriChoice::Workshop { card_instance_ids },
        ) => forall|c: Card| type_count(card_instance_ids@, s.card_lookup@, c)
            == card_types.counts@[card_type_index(c)],
        (
            AbstractChoice::DestroyDrawnCards { card_types },
            ColoriChoice::DestroyDrawnCards { card_instance_ids },
        ) => forall|c: Card| type_count(card_instance_ids@, s.card_lookup@, c)
            == card_types.counts@[card_type_index(c)],
        (
            AbstractChoice::KeepWorkshopCards { card_types },
            ColoriChoice::KeepWorkshopCards { card_instance_ids },
        ) => forall|c: Card| type_count(card_instance_ids@, s.card_lookup@, c)
            == card_types.counts@[card_type_index(c)],
        _ => false,
    }
}

/// Exactly when an abstract move resolves in a position. This is stricter
/// than the bare existence of a legal realizing choice in two deliberate
/// ways, matching the canonical-action design: a mix chain must be
/// applicable in full (not merely startable), and a Sell or MixColors card
/// resolves only through its dedicated selling or mixing move, never as a
/// plain destroy-for-ability play.
pub open spec fn spec_resolvable(abs: AbstractChoice, s: GameState) -> bool {
    match abs {
        AbstractChoice::EndTurn => match s.phase {
            GamePhase::Action { action_state } => action_state.pending_choice is None,
            _ => false,
        },
        AbstractChoice::SkipWorkshop => match s.phase {
            GamePhase::Action { action_state } => action_state.pending_choice matches
                Option::Some(PendingChoice::ChooseCardsForWorkshop { .. }),
            _ => false,
        },
        AbstractChoice::GainSecondary { color } => match s.phase {
            GamePhase::Action { action_state } => {
                &&& action_state.pending_choice matches Option::Some(
                    PendingChoice::ChooseSecondaryColor)
                &&& spec_is_secondary(color)
            }
            _ => false,
        },
        AbstractChoice::GainPrimary { color } => match s.phase {
            GamePhase::Action { action_state } => {
                &&& action_state.pending_choice matches Option::Some(
                    PendingChoice::ChoosePrimaryColor)
                &&& spec_is_primary(color)
            }
            _ => false,
        },
        AbstractChoice::SwapTertiary { lose, gain } => match s.phase {
            GamePhase::Action { action_state } => {
                &&& action_state.pending_choice matches Option::Some(
                    PendingChoice::ChooseTertiaryToLose)
                &&& spec_is_tertiary(lose)
                &&& s.players@[action_state.current_player_index as int]
                    .color_wheel.counts@[color_index(lose)] > 0
                &&& spec_is_tertiary(gain)
                &&& lose != gain
            }
            _ => false,
        },
        AbstractChoice::MixAll { mixes } => match s.phase {
            GamePhase::Action { action_state } => {
                &&& action_state.pending_choice matches Option::Some(
                    PendingChoice::ChooseMix { .. })
                &&& spec_mixes_applicable(
                    s.players@[action_state.current_player_index as int].color_wheel, mixes)
            }
            _ => false,
        },
        AbstractChoice::DraftPick { card } => match s.phase {
            GamePhase::Draft { draft_state } => {
                &&& !draft_state.waiting_for_pass
                &&& exists|id: u8| #[trigger] draft_state.hands@[
                        draft_state.current_player_index as int]@.contains(id)
                    && s.card_lookup@[id as int] == card
            }
            _ => false,
        },
        AbstractChoice::DestroyDraftedCard { card } => match s.phase {
            GamePhase::Action { action_state } => {
                &&& action_state.pending_choice is None
                &&& exists|id: u8| #[trigger] s.players@[
                        action_state.current_player_index as int].drafted_cards@.contains(id)
                    && s.card_lookup@[id as int] == card
                &&& !(card_ability(card) is Sell && crate::action_phase::spec_can_sell_any(s))
                &&& !(card_ability(card) is MixColors)
            }
            _ => false,
        },
        AbstractChoice::DestroyAndMixAll { card, mixes } => match s.phase {
            GamePhase::Action { action_state } => {
                &&& action_state.pending_choice is None
                &&& exists|id: u8| #[trigger] s.players@[
                        action_state.current_player_index as int].drafted_cards@.contains(id)
                    && s.card_lookup@[id as int] == card
                &&& spec_mixes_applicable(
                    s.players@[action_state.current_player_index as int].color_wheel, mixes)
            }
            _ => false,
        },
        AbstractChoice::DestroyAndSell { card, buyer } => match s.phase {
            GamePhase::Action { action_state } => {
                &&& action_state.pending_choice is None
                &&& exists|id: u8| #[trigger] s.players@[
                        action_state.current_player_index as int].drafted_cards@.contains(id)
                    && s.card_lookup@[id as int] == card
                &&& exists|j: int| 0 <= j < s.buyer_display@.len()
                    && (#[trigger] s.buyer_display@[j]).instance_id < 128
                    && s.buyer_lookup@[s.buyer_display@[j].instance_id as int] == buyer
                    && spec_can_afford(
                        s.players@[action_state.current_player_index as int],
                        s.buyer_display@[j].buyer,
                    )
            }
            _ => false,
        },
        AbstractChoice::SelectBuyer { buyer } => match s.phase {
            GamePhase::Action { action_state } => {
                &&& action_state.pending_choice matches Option::Some(PendingChoice::ChooseBuyer)
                &&& exists|j: int| 0 <= j < s.buyer_display@.len()
                    && (#[trigger] s.buyer_display@[j]).instance_id < 128
                    && s.buyer_lookup@[s.buyer_display@[j].instance_id as int] == buyer
                    && spec_can_afford(
                        s.players@[action_state.current_player_index as int],
                        s.buyer_display@[j].buyer,
                    )
            }
            _ => false,
        },
        AbstractChoice::Workshop { card_types } => match s.phase {
            GamePhase::Action { action_state } => {
                &&& action_state.pending_choice matches Option::Some(
                    PendingChoice::ChooseCardsForWorkshop { .. })
                &&& forall|c: Card| type_count(
                        s.players@[action_state.current_player_index as int].workshop_cards@,
                        s.card_lookup@, c)
                    >= card_types.counts@[card_type_index(c)]
                &&& exists|c: Card| card_types.counts@[#[trigger] card_type_index(c)] > 0
            }
            _ => false,
        },
        AbstractChoice::DestroyDrawnCards { card_types } => match s.phase {
            GamePhase::Action { action_state } => {
                &&& action_state.pending_choice matches Option::Some(
                    PendingChoice::ChooseCardsToDestroy { .. })
                &&& forall|c: Card| type_count(
                        s.players@[action_state.current_player_index as int].workshop_cards@,
                        s.card_lookup@, c)
                    >= card_types.counts@[card_type_index(c)]
            }
            _ => false,
        },
        AbstractChoice::KeepWorkshopCards { card_types } => match s.phase {
            GamePhase::Cleanup { cleanup_state } => forall|c: Card| type_count(
                    s.players@[cleanup_state.current_player_index as int].workshop_cards@,
                    s.card_lookup@, c)
                >= card_types.counts@[card_type_index(c)],
            _ => false,
        },
    }
}

/// Resolve an abstract move back to a concrete choice that is legal in the
/// given position. Resolution succeeds exactly on `spec_resolvable` moves,
/// and whatever is resolved is legal and realizes the abstract move.
pub fn resolve_abstract_choice(abs: &AbstractChoice, state: &GameState)
    -> (r: Option<ColoriChoice>)
    requires
        state_wf(*state),
    ensures
        (r is Some) == spec_resolvable(*abs, *state),
        match r {
            Option::Some(c) => spec_choice_available(*state, c)
                && spec_resolves_to(*abs, c, *state),
            Option::None => true,
        },
{
    match abs {
        AbstractChoice::EndTurn => {
            match &state.phase {
                GamePhase::Action { action_state } => {
                    if action_state.pending_choice.is_none() {
                        return Some(ColoriChoice::EndTurn);
                    }
                }
                _ => {}
            }
            None
        }
        AbstractChoice::SkipWorkshop => {
            match &state.phase {
                GamePhase::Action { action_state } => {
                    if matches!(
                        action_state.pending_choice,
                        Some(PendingChoice::ChooseCardsForWorkshop { .. })
                    ) {
                        return Some(ColoriChoice::SkipWorkshop);
                    }
                }
                _ => {}
            }
            None
        }
        AbstractChoice::GainSecondary { color } => {
            match &state.phase {
                GamePhase::Action { action_state } => {
                    if matches!(
                        action_state.pending_choice,
                        Some(PendingChoice::ChooseSecondaryColor)
                    ) {
                        let i = color.index();
                        if i == 2 || i == 6 || i == 10 {
                            return Some(ColoriChoice::GainSecondary { color: *color });
                        }
                    }
                }
                _ => {}
            }
            None
        }
        AbstractChoice::GainPrimary { color } => {
            match &state.phase {
                GamePhase::Action { action_state } => {
                    if matches!(
                        action_state.pending_choice,
                        Some(PendingChoice::ChoosePrimaryColor)
                    ) {
                        let i = color.index();
                        if i == 0 || i == 4 || i == 8 {
                            return Some(ColoriChoice::GainPrimary { color: *color });
                        }
                    }
                }
                _ => {}
            }
            None
        }
        AbstractChoice::SwapTertiary { lose, gain } => {
            match &state.phase {
                GamePhase::Action { action_state } => {
                    if matches!(
                        action_state.pending_choice,
                        Some(PendingChoice::ChooseTertiaryToLose)
                    ) {
                        let player = state.players.get(action_state.current_player_index);
                        let li = lose.index();
                        let gi = gain.index();
                        if li % 2 == 1 && player.color_wheel.get(*lose) > 0
                            && gi % 2 == 1 && *lose != *gain {
                            return Some(ColoriChoice::SwapTertiary {
                                lose: *lose,
                                gain: *gain,
                            });
                        }
                    }
                }
                _ => {}
            }
            None
        }
        AbstractChoice::MixAll { mixes } => {
            match &state.phase {
                GamePhase::Action { action_state } => {
                    if matches!(
                        action_state.pending_choice,
                        Some(PendingChoice::ChooseMix { .. })
                    ) {
                        let player = state.players.get(action_state.current_player_index);
                        if mixes_ok(&player.color_wheel, mixes) {
                            return Some(ColoriChoice::MixAll { mixes: *mixes });
                        }
                    }
                }
                _ => {}
            }
            None
        }
        AbstractChoice::DraftPick { card } => {
            match &state.phase {
                GamePhase::Draft { draft_state } => {
                    if !draft_state.waiting_for_pass {
                        let hand = draft_state.hands[draft_state.current_player_index];
                        match find_instance_of(state, &hand, *card) {
                            Some(id) => {
                                return Some(ColoriChoice::DraftPick {
                                    card_instance_id: id as u32,
                                });
                            }
                            None => {}
                        }
                    }
                }
                _ => {}
            }
            None
        }
        AbstractChoice::DestroyDraftedCard { card } => {
            match &state.phase {
                GamePhase::Action { action_state } => {
                    if action_state.pending_choice.is_none() {
                        let player = state.players.get(action_state.current_player_index);
                        match find_instance_of(state, &player.drafted_cards, *card) {
                            Some(id) => {
                                match card.ability() {
                                    Ability::Sell => {
                                        if can_sell_to_any_buyer(state) {
                                            return None;
                                        }
                                    }
                                    Ability::MixColors { .. } => {
                                        return None;
                                    }
                                    _ => {}
                                }
                                return Some(ColoriChoice::DestroyDraftedCard {
                                    card_instance_id: id as u32,
                                });
                            }
                            None => {}
                        }
                    }
                }
                _ => {}
            }
            None
        }
        AbstractChoice::DestroyAndMixAll { card, mixes } => {
            match &state.phase {
                GamePhase::Action { action_state } => {
                    if action_state.pending_choice.is_none() {
                        let player = state.players.get(action_state.current_player_index);
                        match find_instance_of(state, &player.drafted_cards, *card) {
                            Some(id) => {
                                if mixes_ok(&player.color_wheel, mixes) {
                                    return Some(ColoriChoice::DestroyAndMixAll {
                                        card_instance_id: id as u32,
                                        mixes: *mixes,
                                    });
                                }
                            }
                            None => {}
                        }
                    }
                }
                _ => {}
            }
            None
        }
        AbstractChoice::DestroyAndSell { card, buyer } => {
            match &state.phase {
                GamePhase::Action { action_state } => {
                    if action_state.pending_choice.is_none() {
                        let pi = action_state.current_player_index;
                        let player = state.players.get(pi);
                        match find_instance_of(state, &player.drafted_cards, *card) {
                            Some(id) => {
                                match find_buyer_of_type(state, pi, *buyer) {
                                    Some(buyer_instance_id) => {
                                        return Some(ColoriChoice::DestroyAndSell {
                                            card_instance_id: id as u32,
                                            buyer_instance_id,
                                        });
                                    }
                                    None => {}
                                }
                            }
                            None => {}
                        }
                    }
                }
                _ => {}
            }
            None
        }
        AbstractChoice::SelectBuyer { buyer } => {
            match &state.phase {
                GamePhase::Action { action_state } => {
                    if matches!(action_state.pending_choice, Some(PendingChoice::ChooseBuyer)) {
                        let pi = action_state.current_player_index;
                        match find_buyer_of_type(state, pi, *buyer) {
                            Some(buyer_instance_id) => {
                                return Some(ColoriChoice::SelectBuyer { buyer_instance_id });
                            }
                            None => {}
                        }
                    }
                }
                _ => {}
            }
            None
        }
        AbstractChoice::Workshop { card_types } => {
            match &state.phase {
                GamePhase::Action { action_state } => {
                    if matches!(
                        action_state.pending_choice,
                        Some(PendingChoice::ChooseCardsForWorkshop { .. })
                    ) {
                        let player = state.players.get(action_state.current_player_index);
                        match select_by_counts(state, &player.workshop_cards, card_types) {
                            Some(ids) => {
                                if !ids.is_empty() {
                                    proof {
                                        // A nonempty selection witnesses some
                                        // demanded card type.
                                        let m = crate::unordered_cards
                                            ::lemma_nonzero_bit_public(ids.0);
                                        let mc = state.card_lookup@[m as int];
                                        let f = type_pred(state.card_lookup@, mc);
                                        assert(ids@.filter(f).contains(m));
                                        crate::unordered_cards::lemma_popcount_is_len(ids.0);
                                        assert(ids@.filter(f).subset_of(ids@));
                                        vstd::set_lib::lemma_len_subset(
                                            ids@.filter(f), ids@);
                                        if ids@.filter(f).len() == 0 {
                                            vstd::set_lib::lemma_set_empty_equivalency_len(
                                                ids@.filter(f));
                                        }
                                        assert(type_count(ids@, state.card_lookup@, mc) > 0);
                                        assert(card_types.counts@[card_type_index(mc)] > 0);
                                    }
                                    return Some(ColoriChoice::Workshop {
                                        card_instance_ids: ids,
                                    });
                                }
                                proof {
                                    // An empty selection means every demand
                                    // was zero.
                                    assert forall|c: Card|
                                        !(card_types.counts@[
                                            #[trigger] card_type_index(c)] > 0) by {
                                        let f = type_pred(state.card_lookup@, c);
                                        assert(ids@.filter(f) =~= Set::<u8>::empty());
                                        assert(type_count(ids@, state.card_lookup@, c) == 0);
                                    }
                                }
                            }
                            None => {}
                        }
                    }
                }
                _ => {}
            }
            None
        }
        AbstractChoice::DestroyDrawnCards { card_types } => {
            match &state.phase {
                GamePhase::Action { action_state } => {
                    if matches!(
                        action_state.pending_choice,
                        Some(PendingChoice::ChooseCardsToDestroy { .. })
                    ) {
                        let player = state.players.get(action_state.current_player_index);
                        match select_by_counts(state, &player.workshop_cards, card_types) {
                            Some(ids) => {
                                return Some(ColoriChoice::DestroyDrawnCards {
                                    card_instance_ids: ids,
                                });
                            }
                            None => {}
                        }
                    }
                }
                _ => {}
            }
            None
        }
        AbstractChoice::KeepWorkshopCards { card_types } => {
            match &state.phase {
                GamePhase::Cleanup { cleanup_state } => {
                    let player = state.players.get(cleanup_state.current_player_index);
                    match select_by_counts(state, &player.workshop_cards, card_types) {
                        Some(ids) => {
                            return Some(ColoriChoice::KeepWorkshopCards {
                                card_instance_ids: ids,
                            });
                        }
                        None => {}
                    }
                }
                _ => {}
            }
            None
        }
    }
}

/// Whether every mix in the list can be applied in order on the wheel.
/// Whether a whole mix list can be applied in order on a wheel: the first
/// pair must be a startable mix, and a second pair must be a valid mix on
/// the wheel left by the first. Stricter than `spec_mixes_startable`, which
/// the legality filter checks: resolution refuses chains it could not carry
/// out in full.
pub open spec fn spec_mixes_applicable(w: ColorWheel, mixes: Mixes) -> bool {
    let s = crate::types::mixes_seq(mixes);
    if s.len() == 0 {
        true
    } else {
        let p = s[0];
        &&& w.counts@[color_index(p.a)] > 0
        &&& w.counts@[color_index(p.b)] > 0
        &&& spec_can_mix(p.a, p.b)
        &&& (s.len() <= 1 || {
            let q = s[1];
            let w2 = crate::color_wheel::spec_after_mix(w.counts@, p.a, p.b);
            &&& p.a != p.b
            &&& w2[color_index(q.a)] > 0
            &&& w2[color_index(q.b)] > 0
            &&& spec_can_mix(q.a, q.b)
        })
    }
}

fn mixes_ok(wheel: &ColorWheel, mixes: &Mixes) -> (r: bool)
    ensures
        r == spec_mixes_applicable(*wheel, *mixes),
        r ==> spec_mixes_startable(*wheel, *mixes),
{
    if mixes.len() == 0 {
        return true;
    }
    let p = mixes.get(0);
    if !(wheel.get(p.a) > 0 && wheel.get(p.b) > 0 && can_mix(p.a, p.b)) {
        return false;
    }
    if mixes.len() > 1 {
        let mut wheel2 = *wheel;
        proof {
            crate::types::lemma_color_index_roundtrip(p.a);
            crate::types::lemma_color_index_roundtrip(p.b);
        }
        if p.a == p.b {
            return false;
        }
        perform_mix_unchecked(&mut wheel2, p.a, p.b);
        let q = mixes.get(1);
        if !(wheel2.get(q.a) > 0 && wheel2.get(q.b) > 0 && can_mix(q.a, q.b)) {
            return false;
        }
    }
    true
}

/// Find a buyer of this type on display that the player can afford.
fn find_buyer_of_type(state: &GameState, player_index: usize, buyer: crate::types::BuyerCard)
    -> (r: Option<u32>)
    requires
        state_wf(*state),
        player_index < state.players@.len(),
    ensures
        match r {
            Option::Some(id) => id < 128
                && state.buyer_lookup@[id as int] == buyer
                && exists|j: int| 0 <= j < state.buyer_display@.len()
                    && (#[trigger] state.buyer_display@[j]).instance_id == id
                    && spec_can_afford(
                        state.players@[player_index as int],
                        state.buyer_display@[j].buyer,
                    ),
            Option::None => forall|j: int| 0 <= j < state.buyer_display@.len()
                ==> !((#[trigger] state.buyer_display@[j]).instance_id < 128
                    && state.buyer_lookup@[state.buyer_display@[j].instance_id as int] == buyer
                    && spec_can_afford(
                        state.players@[player_index as int],
                        state.buyer_display@[j].buyer,
                    )),
        },
{
    let player = state.players.get(player_index);
    let mut j: usize = 0;
    while j < state.buyer_display.len()
        invariant
            j <= state.buyer_display@.len(),
            player_index < state.players@.len(),
            player == state.players@[player_index as int],
            forall|l: int| 0 <= l < j
                ==> !((#[trigger] state.buyer_display@[l]).instance_id < 128
                    && state.buyer_lookup@[state.buyer_display@[l].instance_id as int] == buyer
                    && spec_can_afford(
                        state.players@[player_index as int],
                        state.buyer_display@[l].buyer,
                    )),
        decreases state.buyer_display@.len() - j,
    {
        let g = state.buyer_display.get(j);
        if g.instance_id < 128 {
            let bt = state.buyer_lookup[g.instance_id as usize];
            proof {
                crate::types::lemma_buyer_index_injective(bt, buyer);
            }
            if bt.type_index() == buyer.type_index() {
                if can_afford_buyer(player, &g.buyer) {
                    proof {
                        crate::types::lemma_buyer_index_injective(bt, buyer);
                        assert(state.buyer_display@[j as int].instance_id == g.instance_id);
                        assert(spec_can_afford(
                            state.players@[player_index as int],
                            state.buyer_display@[j as int].buyer,
                        ));
                    }
                    return Some(g.instance_id);
                }
            }
        }
        j = j + 1;
    }
    None
}

/// Whether two concrete moves stand for the same abstract move.
pub open spec fn spec_same_abstraction(c1: ColoriChoice, c2: ColoriChoice, s: GameState) -> bool {
    exists|a: AbstractChoice|
        spec_abstracts_to(c1, a, s) && #[trigger] spec_abstracts_to(c2, a, s)
}

/// Whether the move `c` has a representative in `r` with the same
/// abstraction.
pub open spec fn spec_represented_in(c: ColoriChoice, r: Seq<ColoriChoice>, s: GameState) -> bool {
    exists|j: int| 0 <= j < r.len() && #[trigger] spec_same_abstraction(c, r[j], s)
}

/// Every move of `orig` has a representative in `r` with the same
/// abstraction.
pub open spec fn spec_all_represented(
    orig: Seq<ColoriChoice>,
    r: Seq<ColoriChoice>,
    s: GameState,
) -> bool
    decreases orig.len(),
{
    orig.len() == 0
        || (spec_represented_in(orig.last(), r, s)
            && spec_all_represented(orig.drop_last(), r, s))
}

/// Folding of the pointwise representative witnesses (each scanned move's
/// position in the kept list) into `spec_all_represented`, kept apart to
/// keep the caller's proof small.
proof fn lemma_dedup_represented(
    orig: Seq<ColoriChoice>,
    kept: Seq<ColoriChoice>,
    seen: Seq<AbstractChoice>,
    rep: Seq<int>,
    s: GameState,
)
    requires
        kept.len() == seen.len(),
        forall|i: int| 0 <= i < kept.len()
            ==> spec_abstracts_to(#[trigger] kept[i], seen[i], s),
        rep.len() == orig.len(),
        forall|i: int| 0 <= i < orig.len()
            ==> 0 <= #[trigger] rep[i] < seen.len()
                && spec_abstracts_to(orig[i], seen[rep[i]], s),
    ensures
        spec_all_represented(orig, kept, s),
    decreases orig.len(),
{
    if orig.len() > 0 {
        let i = orig.len() - 1;
        let j0 = rep[i];
        assert(spec_abstracts_to(orig[i], seen[j0], s));
        assert(spec_abstracts_to(kept[j0], seen[j0], s));
        assert(spec_same_abstraction(orig[i], kept[j0], s));
        assert(spec_represented_in(orig.last(), kept, s));
        assert(forall|x: int| 0 <= x < orig.len() - 1
            ==> #[trigger] orig.drop_last()[x] == orig[x]);
        assert(forall|x: int| 0 <= x < rep.len() - 1
            ==> #[trigger] rep.drop_last()[x] == rep[x]);
        lemma_dedup_represented(orig.drop_last(), kept, seen, rep.drop_last(), s);
    }
}

/// Drop choices whose abstraction repeats an earlier entry, keeping the
/// first concrete representative of every abstract move: afterwards no two
/// entries share an abstraction, and every dropped move is still
/// represented by a kept move with the same abstraction.
#[verifier::rlimit(100)]
#[verifier::spinoff_prover]
pub fn deduplicate_choices(choices: &mut Vec<ColoriChoice>, state: &GameState)
    requires
        state_wf(*state),
        forall|i: int| 0 <= i < old(choices)@.len()
            ==> spec_choice_available(*state, #[trigger] old(choices)@[i]),
    ensures
        forall|i: int| 0 <= i < final(choices)@.len()
            ==> spec_choice_available(*state, #[trigger] final(choices)@[i]),
        forall|i: int| 0 <= i < final(choices)@.len()
            ==> old(choices)@.contains(#[trigger] final(choices)@[i]),
        old(choices)@.len() > 0 ==> final(choices)@.len() > 0,
        // No two kept moves stand for the same abstract move.
        forall|i: int, j: int| 0 <= i < j < final(choices)@.len()
            ==> !(#[trigger] spec_same_abstraction(
                final(choices)@[i], final(choices)@[j], *state)),
        // Every original move's abstraction is represented by a kept move.
        spec_all_represented(old(choices)@, final(choices)@, *state),
{
    let ghost s = *state;
    let ghost before = choices@;
    let mut seen: Vec<AbstractChoice> = Vec::new();
    let mut kept: Vec<ColoriChoice> = Vec::new();
    // For each scanned index, the position in `seen` of its abstraction.
    let ghost mut rep: Seq<int> = Seq::empty();
    let mut k: usize = 0;
    while k < choices.len()
        invariant
            k <= choices@.len(),
            choices@ == before,
            s == *state,
            state_wf(s),
            forall|i: int| 0 <= i < before.len()
                ==> spec_choice_available(s, #[trigger] before[i]),
            forall|i: int| 0 <= i < kept@.len()
                ==> spec_choice_available(s, #[trigger] kept@[i]),
            forall|i: int| 0 <= i < kept@.len() ==> before.contains(#[trigger] kept@[i]),
            seen@.len() == kept@.len(),
            forall|i: int| 0 <= i < kept@.len()
                ==> spec_abstracts_to(#[trigger] kept@[i], seen@[i], s),
            forall|i: int, j: int| 0 <= i < j < seen@.len()
                ==> #[trigger] seen@[i] != #[trigger] seen@[j],
            rep.len() == k,
            forall|i: int| 0 <= i < k
                ==> 0 <= #[trigger] rep[i] < seen@.len()
                    && spec_abstracts_to(before[i], seen@[rep[i]], s),
            k > 0 ==> kept@.len() > 0,
        decreases choices@.len() - k,
    {
        let choice = choices[k];
        let abs = abstract_choice(&choice, state);
        let mut dup = false;
        let mut m: usize = 0;
        while m < seen.len()
            invariant
                m <= seen@.len(),
                dup ==> seen@.contains(abs),
                !dup ==> forall|l: int| 0 <= l < m ==> #[trigger] seen@[l] != abs,
            decreases seen@.len() - m,
        {
            if seen[m].same(&abs) {
                dup = true;
                proof {
                    assert(seen@.contains(abs));
                }
            }
            m = m + 1;
        }
        let ghost seen_before = seen@;
        if !dup {
            proof {
                assert(before[k as int] == choice);
                assert(before.contains(choice));
            }
            kept.push(choice);
            seen.push(abs);
            proof {
                assert(seen@[seen@.len() - 1] == abs);
                assert forall|i: int, j: int| 0 <= i < j < seen@.len()
                    implies #[trigger] seen@[i] != #[trigger] seen@[j] by {
                    if j == seen@.len() - 1 {
                        assert(seen@[i] == seen_before[i]);
                        assert(seen_before[i] != abs);
                    }
                }
            }
        }
        proof {
            if dup {
                let l = choose|l: int| 0 <= l < seen_before.len()
                    && seen_before[l] == abs;
                rep = rep.push(l);
                assert(seen@[l] == abs);
                assert(spec_abstracts_to(before[k as int], seen@[rep[k as int]], s));
            } else {
                rep = rep.push(seen@.len() - 1);
                assert(seen@[seen@.len() - 1] == abs);
                assert(spec_abstracts_to(before[k as int], seen@[rep[k as int]], s));
            }
            assert forall|i: int| 0 <= i < k + 1
                implies 0 <= #[trigger] rep[i] < seen@.len()
                    && spec_abstracts_to(before[i], seen@[rep[i]], s) by {
                if i < k {
                    assert(rep[i] < seen_before.len());
                    assert(seen@[rep[i]] == seen_before[rep[i]]);
                }
            }
        }
        k = k + 1;
    }
    *choices = kept;
    proof {
        assert(choices@ == kept@);
        assert forall|i: int, j: int| 0 <= i < j < choices@.len()
            implies !(#[trigger] spec_same_abstraction(
                choices@[i], choices@[j], *state)) by {
            if spec_same_abstraction(choices@[i], choices@[j], *state) {
                let a = choose|a: AbstractChoice|
                    spec_abstracts_to(choices@[i], a, *state)
                        && #[trigger] spec_abstracts_to(choices@[j], a, *state);
                lemma_abstraction_functional(kept@[i], a, seen@[i], s);
                lemma_abstraction_functional(kept@[j], a, seen@[j], s);
                assert(false);
            }
        }
        lemma_dedup_represented(before, kept@, seen@, rep, s);
        assert(spec_all_represented(old(choices)@, choices@, *state));
    }
}

/// One unit of terminal reward, split evenly among winners. Twelve divides
/// evenly by every possible number of winners (one through four players).
pub const SCORE_UNIT: u32 = 12;

/// Whether the game is over, and if so how the single reward unit is
/// shared; otherwise, who is to act.
#[derive(Debug)]
pub enum GameStatus {
    AwaitingAction { player_id: usize },
    Terminated { scores: Vec<u32> },
}

/// Whether a position is over: the game-over phase, or past a round cutoff.
pub open spec fn spec_is_over(s: GameState, max_round: Option<u32>) -> bool {
    s.phase is GameOver || match max_round {
        Option::Some(mr) => s.round > mr,
        Option::None => false,
    }
}

/// The highest cached score among the first `n` players.
pub open spec fn spec_max_score(players: Seq<crate::types::PlayerState>, n: int) -> int
    decreases n,
{
    if n <= 0 {
        0
    } else {
        let prev = spec_max_score(players, n - 1);
        if players[n - 1].cached_score > prev {
            players[n - 1].cached_score as int
        } else {
            prev
        }
    }
}

/// How many of the first `n` players hold the given score.
pub open spec fn spec_count_at(players: Seq<crate::types::PlayerState>, n: int, v: int) -> int
    decreases n,
{
    if n <= 0 {
        0
    } else {
        spec_count_at(players, n - 1, v)
            + if players[n - 1].cached_score == v { 1int } else { 0int }
    }
}

/// What a terminal score vector must say: winners share `SCORE_UNIT`
/// evenly, everyone else gets nothing.
pub open spec fn spec_terminal_scores(s: GameState, scores: Seq<u32>) -> bool {
    let ps = s.players@;
    let n = ps.len() as int;
    let m = spec_max_score(ps, n);
    let w = spec_count_at(ps, n, m);
    &&& scores.len() == n
    &&& forall|i: int| 0 <= i < n
        ==> #[trigger] scores[i] == if ps[i].cached_score == m {
            (SCORE_UNIT as int / w) as u32
        } else {
            0u32
        }
}

proof fn lemma_max_is_some_player(players: Seq<crate::types::PlayerState>, n: int)
    requires
        1 <= n <= players.len(),
    ensures
        spec_count_at(players, n, spec_max_score(players, n)) >= 1,
        forall|i: int| 0 <= i < n
            ==> (#[trigger] players[i].cached_score) <= spec_max_score(players, n),
        spec_count_at(players, n, spec_max_score(players, n)) <= n,
    decreases n,
{
    lemma_count_bounds(players, n, spec_max_score(players, n));
    if n == 1 {
        let m = spec_max_score(players, 1);
        assert(spec_max_score(players, 0) == 0);
        assert(m == players[0].cached_score || m == 0);
        assert(players[0].cached_score == m);
        assert(spec_count_at(players, 1, m) == spec_count_at(players, 0, m) + 1);
    } else {
        lemma_max_is_some_player(players, n - 1);
        if players[n - 1].cached_score > spec_max_score(players, n - 1) {
            lemma_count_bounds(players, n - 1, spec_max_score(players, n));
            assert(spec_max_score(players, n) == players[n - 1].cached_score);
            assert(spec_count_at(players, n, spec_max_score(players, n))
                == spec_count_at(players, n - 1, spec_max_score(players, n)) + 1);
        } else {
            assert(spec_max_score(players, n) == spec_max_score(players, n - 1));
            lemma_count_monotone(players, n - 1, spec_max_score(players, n - 1));
        }
    }
}

proof fn lemma_count_bounds(players: Seq<crate::types::PlayerState>, n: int, v: int)
    requires
        0 <= n <= players.len(),
    ensures
        0 <= spec_count_at(players, n, v) <= n,
    decreases n,
{
    if n > 0 {
        lemma_count_bounds(players, n - 1, v);
    }
}

proof fn lemma_count_monotone(players: Seq<crate::types::PlayerState>, n: int, v: int)
    requires
        0 <= n <= players.len(),
        spec_count_at(players, n, v) >= 1,
        n < players.len(),
    ensures
        spec_count_at(players, n + 1, v) >= 1,
{
}

/// Build the terminal score vector: winners split the reward unit evenly.
fn terminal_scores(state: &GameState) -> (r: Vec<u32>)
    requires
        state_wf(*state),
    ensures
        spec_terminal_scores(*state, r@),
{
    let ghost ps = state.players@;
    let n = state.players.len();

    let mut max_score: u32 = 0;
    let mut i: usize = 0;
    while i < n
        invariant
            i <= n,
            n == ps.len(),
            ps == state.players@,
            max_score == spec_max_score(ps, i as int),
        decreases n - i,
    {
        let sc = state.players.get(i).cached_score;
        if sc > max_score {
            max_score = sc;
        }
        i = i + 1;
    }

    let mut winners: u32 = 0;
    let mut j: usize = 0;
    while j < n
        invariant
            j <= n,
            n <= 4,
            n == ps.len(),
            ps == state.players@,
            winners == spec_count_at(ps, j as int, max_score as int),
            winners <= j,
        decreases n - j,
    {
        if state.players.get(j).cached_score == max_score {
            winners = winners + 1;
        }
        j = j + 1;
    }
    proof {
        lemma_max_is_some_player(ps, n as int);
    }
    let share = SCORE_UNIT / winners;

    let mut scores: Vec<u32> = Vec::new();
    let mut k: usize = 0;
    while k < n
        invariant
            k <= n,
            n == ps.len(),
            ps == state.players@,
            max_score == spec_max_score(ps, n as int),
            winners == spec_count_at(ps, n as int, max_score as int),
            share == SCORE_UNIT as int / winners as int,
            scores@.len() == k,
            forall|l: int| 0 <= l < k
                ==> #[trigger] scores@[l] == if ps[l].cached_score == max_score {
                    (SCORE_UNIT as int / winners as int) as u32
                } else {
                    0u32
                },
        decreases n - k,
    {
        if state.players.get(k).cached_score == max_score {
            scores.push(share);
        } else {
            scores.push(0);
        }
        k = k + 1;
    }
    scores
}

/// The winners' shares always add up to the whole reward unit: terminal
/// score vectors assign total weight `SCORE_UNIT`, split evenly among the
/// maximal-score players and nothing to anyone else.
pub proof fn lemma_terminal_scores_sum(s: GameState, scores: Seq<u32>)
    requires
        state_wf(s),
        spec_terminal_scores(s, scores),
    ensures
        seq_sum(scores) == SCORE_UNIT,
{
    let ps = s.players@;
    let n = ps.len() as int;
    let m = spec_max_score(ps, n);
    let w = spec_count_at(ps, n, m);
    lemma_max_is_some_player(ps, n);
    assert(1 <= w <= 4);
    assert(w * (SCORE_UNIT as int / w) == SCORE_UNIT) by {
        if w == 1 {
            assert(1int * (12int / 1) == 12);
        } else if w == 2 {
            assert(2int * (12int / 2) == 12);
        } else if w == 3 {
            assert(3int * (12int / 3) == 12);
        } else {
            assert(4int * (12int / 4) == 12);
        }
    }
    lemma_sum_of_shares(ps, scores, n, m, w);
    assert(scores.take(n) =~= scores);
    assert(spec_count_at(ps, n, m) * (SCORE_UNIT as int / w) == SCORE_UNIT);
}

/// Sum of a score vector.
pub open spec fn seq_sum(s: Seq<u32>) -> int
    decreases s.len(),
{
    if s.len() == 0 {
        0
    } else {
        seq_sum(s.drop_last()) + s.last()
    }
}

proof fn lemma_sum_of_shares(
    ps: Seq<crate::types::PlayerState>,
    scores: Seq<u32>,
    n: int,
    m: int,
    w: int,
)
    requires
        0 <= n <= ps.len(),
        scores.len() >= n,
        w >= 1,
        forall|i: int| 0 <= i < n
            ==> #[trigger] scores[i] == if ps[i].cached_score == m {
                (SCORE_UNIT as int / w) as u32
            } else {
                0u32
            },
    ensures
        seq_sum(scores.take(n)) == spec_count_at(ps, n, m) * (SCORE_UNIT as int / w),
    decreases n,
{
    if n == 0 {
        assert(scores.take(0).len() == 0);
    } else {
        lemma_sum_of_shares(ps, scores, n - 1, m, w);
        assert(scores.take(n).drop_last() =~= scores.take(n - 1));
        assert(scores.take(n).last() == scores[n - 1]);
        let share = SCORE_UNIT as int / w;
        assert(spec_count_at(ps, n, m) * share
            == spec_count_at(ps, n - 1, m) * share
                + if ps[n - 1].cached_score == m { share } else { 0int }) by {
            vstd::arithmetic::mul::lemma_mul_is_distributive_add_other_way(
                share, spec_count_at(ps, n - 1, m),
                if ps[n - 1].cached_score == m { 1int } else { 0int });
        }
    }
}

/// Whether the game is over — by reaching the game-over phase or a round
/// cutoff — and the terminal score split if so; otherwise whose turn it is.
pub fn get_game_status(state: &GameState, max_round: Option<u32>) -> (r: GameStatus)
    requires
        state_wf(*state),
    ensures
        match r {
            GameStatus::Terminated { scores } => spec_terminal_scores(*state, scores@),
            GameStatus::AwaitingAction { player_id } => player_id < state.players@.len(),
        },
        (match r {
            GameStatus::Terminated { .. } => true,
            _ => false,
        }) == spec_is_over(*state, max_round),
{
    match max_round {
        Some(mr) => {
            if state.round > mr {
                return GameStatus::Terminated { scores: terminal_scores(state) };
            }
        }
        None => {}
    }

    match &state.phase {
        GamePhase::Draft { draft_state } => {
            // A draft waiting on a hand pass offers no choice yet; it still
            // awaits that player, and the playout policy confirms the pass.
            GameStatus::AwaitingAction { player_id: draft_state.current_player_index }
        }
        GamePhase::Action { action_state } => GameStatus::AwaitingAction {
            player_id: action_state.current_player_index,
        },
        GamePhase::Cleanup { cleanup_state } => GameStatus::AwaitingAction {
            player_id: cleanup_state.current_player_index,
        },
        GamePhase::GameOver => GameStatus::Terminated { scores: terminal_scores(state) },
        GamePhase::Draw => GameStatus::AwaitingAction { player_id: 0 },
    }
}

/// Whether a position is over: the game-over phase, or past a round cutoff.
pub fn is_terminal(state: &GameState, max_round: Option<u32>) -> (r: bool)
    ensures
        r == spec_is_over(*state, max_round),
{
    if matches!(state.phase, GamePhase::GameOver) {
        return true;
    }
    match max_round {
        Some(mr) => state.round > mr,
        None => false,
    }
}

/// Union of the first `n` draft hands.
pub open spec fn hands_union(hands: Seq<UnorderedCards>, n: int) -> Set<u8>
    decreases n,
{
    if n <= 0 {
        Set::empty()
    } else {
        hands_union(hands, n - 1).union(hands[n - 1]@)
    }
}

/// Pairwise disjointness of the first `n` draft hands.
pub open spec fn hands_pairwise_disjoint(hands: Seq<UnorderedCards>, n: int) -> bool {
    forall|i: int, j: int| 0 <= i < j < n
        ==> (#[trigger] hands[i])@.disjoint((#[trigger] hands[j])@)
}

/// Whether a position's draft hands represent physically distinct cards and
/// are small enough for one combinatorial draw each.
pub open spec fn draft_hands_ok(s: GameState) -> bool {
    match s.phase {
        GamePhase::Draft { draft_state } => {
            &&& hands_pairwise_disjoint(draft_state.hands@, draft_state.num_hands as int)
            &&& forall|i: int| 0 <= i < draft_state.num_hands
                ==> (#[trigger] draft_state.hands@[i])@.len() <= 9
        }
        _ => true,
    }
}

pub proof fn lemma_len_disjoint_union(a: Set<u8>, b: Set<u8>)
    requires
        a.finite(),
        b.finite(),
        a.disjoint(b),
    ensures
        a.union(b).len() == a.len() + b.len(),
        a.union(b).finite(),
    decreases a.len(),
{
    if a.len() == 0 {
        vstd::set_lib::lemma_set_empty_equivalency_len(a);
        assert(a.union(b) =~= b);
    } else {
        let x = a.choose();
        assert(a.contains(x));
        assert(a.remove(x).union(b) =~= a.union(b).remove(x));
        lemma_len_disjoint_union(a.remove(x), b);
        assert(a.union(b).contains(x));
    }
}

proof fn lemma_hands_union_update(hands: Seq<UnorderedCards>, n: int, i: int, x: UnorderedCards)
    requires
        0 <= i < n <= hands.len(),
    ensures
        hands_union(hands.update(i, x), n).union(hands[i]@)
            == hands_union(hands, n).union(x@),
    decreases n,
{
    if i == n - 1 {
        assert(hands_union(hands.update(i, x), n)
            == hands_union(hands.update(i, x), n - 1).union(x@));
        assert(hands_union_eq_prefix(hands.update(i, x), hands, n - 1)) by {
            lemma_hands_union_prefix(hands.update(i, x), hands, n - 1);
        }
        assert(hands_union(hands.update(i, x), n).union(hands[i]@)
            =~= hands_union(hands, n).union(x@));
    } else {
        lemma_hands_union_update(hands, n - 1, i, x);
        assert(hands.update(i, x)[n - 1] == hands[n - 1]);
        assert(hands_union(hands.update(i, x), n)
            == hands_union(hands.update(i, x), n - 1).union(hands[n - 1]@));
        assert(hands_union(hands, n) == hands_union(hands, n - 1).union(hands[n - 1]@));
        assert(hands_union(hands.update(i, x), n - 1).union(hands[i]@)
            == hands_union(hands, n - 1).union(x@));
        assert(hands_union(hands.update(i, x), n).union(hands[i]@)
            =~= hands_union(hands.update(i, x), n - 1).union(hands[i]@).union(hands[n - 1]@));
        assert(hands_union(hands, n).union(x@)
            =~= hands_union(hands, n - 1).union(x@).union(hands[n - 1]@));
        assert(hands_union(hands.update(i, x), n - 1).union(hands[i]@).union(hands[n - 1]@)
            =~= hands_union(hands, n - 1).union(x@).union(hands[n - 1]@));
    }
}

/// Replacing one hand trades its cards for the new hand's in the union.
pub proof fn lemma_hands_union_update_public(
    hands: Seq<UnorderedCards>,
    n: int,
    i: int,
    x: UnorderedCards,
)
    requires
        0 <= i < n <= hands.len(),
    ensures
        hands_union(hands.update(i, x), n).union(hands[i]@)
            == hands_union(hands, n).union(x@),
{
    lemma_hands_union_update(hands, n, i, x);
}

/// Hand lists that agree below `n` have the same union below `n`.
pub proof fn lemma_hands_union_prefix_public(
    a: Seq<UnorderedCards>,
    b: Seq<UnorderedCards>,
    n: int,
)
    requires
        0 <= n <= a.len(),
        n <= b.len(),
        forall|k: int| 0 <= k < n ==> a[k] == b[k],
    ensures
        hands_union(a, n) == hands_union(b, n),
{
    lemma_hands_union_prefix(a, b, n);
}

spec fn hands_union_eq_prefix(a: Seq<UnorderedCards>, b: Seq<UnorderedCards>, n: int) -> bool {
    hands_union(a, n) == hands_union(b, n)
}

proof fn lemma_hands_union_prefix(a: Seq<UnorderedCards>, b: Seq<UnorderedCards>, n: int)
    requires
        0 <= n <= a.len(),
        n <= b.len(),
        forall|k: int| 0 <= k < n ==> a[k] == b[k],
    ensures
        hands_union(a, n) == hands_union(b, n),
    decreases n,
{
    if n > 0 {
        lemma_hands_union_prefix(a, b, n - 1);
    }
}

pub proof fn lemma_hands_union_member(hands: Seq<UnorderedCards>, n: int, i: int)
    requires
        0 <= i < n <= hands.len(),
    ensures
        hands[i]@.subset_of(hands_union(hands, n)),
    decreases n,
{
    if i < n - 1 {
        lemma_hands_union_member(hands, n - 1, i);
    }
}

proof fn lemma_hands_union_finite(hands: Seq<UnorderedCards>, n: int)
    requires
        0 <= n <= hands.len(),
    ensures
        hands_union(hands, n).finite(),
    decreases n,
{
    if n > 0 {
        lemma_hands_union_finite(hands, n - 1);
        crate::unordered_cards::lemma_popcount_is_len(hands[n - 1].0);
    }
}

/// How one determinization relates to the true position: everything the
/// searching player can see is preserved — only hidden draft hands are
/// re-dealt, keeping each player's hand size and the pool of hidden cards.
pub open spec fn spec_determinized(
    det: GameState,
    source: GameState,
    perspective_player: int,
    cached_scores: Seq<u32>,
) -> bool {
    &&& det.players@.len() == source.players@.len()
    &&& forall|i: int| 0 <= i < det.players@.len() ==> {
        let a = #[trigger] det.players@[i];
        let b = source.players@[i];
        &&& a.deck == b.deck
        &&& a.discard == b.discard
        &&& a.used_cards == b.used_cards
        &&& a.workshop_cards == b.workshop_cards
        &&& a.drafted_cards == b.drafted_cards
        &&& a.color_wheel == b.color_wheel
        &&& a.materials == b.materials
        &&& a.completed_buyers@ == b.completed_buyers@
        &&& a.ducats == b.ducats
        &&& a.cached_score == cached_scores[i]
    }
    &&& det.draft_deck == source.draft_deck
    &&& det.destroyed_pile == source.destroyed_pile
    &&& det.buyer_deck == source.buyer_deck
    &&& det.buyer_display@ == source.buyer_display@
    &&& det.round == source.round
    &&& det.ai_players@ == source.ai_players@
    &&& det.card_lookup@ == source.card_lookup@
    &&& det.buyer_lookup@ == source.buyer_lookup@
    &&& match (det.phase, source.phase) {
        (GamePhase::Draft { draft_state: d }, GamePhase::Draft { draft_state: sd }) => {
            &&& d.pick_number == sd.pick_number
            &&& d.current_player_index == sd.current_player_index
            &&& d.num_hands == sd.num_hands
            &&& d.direction == sd.direction
            &&& d.waiting_for_pass == sd.waiting_for_pass
            // The searching player's own hand is preserved bit for bit.
            &&& d.hands@[perspective_player] == sd.hands@[perspective_player]
            // Every hand keeps its size.
            &&& forall|i: int| 0 <= i < d.num_hands
                ==> (#[trigger] d.hands@[i])@.len() == sd.hands@[i]@.len()
            // The hidden cards in play are exactly the same pool.
            &&& hands_union(d.hands@, d.num_hands as int)
                == hands_union(sd.hands@, sd.num_hands as int)
            // The re-dealt hands still hold physically distinct cards.
            &&& hands_pairwise_disjoint(d.hands@, d.num_hands as int)
        }
        (a, b) => phase_eq(a, b),
    }
}

/// Produce one fully specified guess of the hidden information: hands the
/// searching player knows (their own, plus any reconstructed from the
/// observation history) stay fixed, and the remaining hidden cards are
/// pooled and re-dealt uniformly at random, preserving every hand's size.
pub fn determinize_in_place(
    det: &mut GameState,
    source: &GameState,
    perspective_player: usize,
    seen_hands: &Option<Vec<Vec<crate::types::CardInstance>>>,
    cached_scores: &[u32; 4],
    rng: &mut rand::rngs::SmallRng,
)
    requires
        state_wf(*source),
        perspective_player < source.players@.len(),
        draft_hands_ok(*source),
    ensures
        state_wf(*final(det)),
        spec_determinized(*final(det), *source, perspective_player as int, cached_scores@),
{
    let mut fresh = source.duplicate();
    let n = fresh.players.len();
    let mut i: usize = 0;
    while i < n
        invariant
            i <= n,
            n == fresh.players@.len(),
            n == source.players@.len(),
            n <= 4,
            forall|k: int| 0 <= k < n ==> player_eq_except_score(
                #[trigger] fresh.players@[k], source.players@[k]),
            forall|k: int| 0 <= k < i
                ==> (#[trigger] fresh.players@[k]).cached_score == cached_scores@[k],
            phase_eq(fresh.phase, source.phase),
            fresh.draft_deck == source.draft_deck,
            fresh.destroyed_pile == source.destroyed_pile,
            fresh.buyer_deck == source.buyer_deck,
            fresh.buyer_display@ == source.buyer_display@,
            fresh.round == source.round,
            fresh.ai_players@ == source.ai_players@,
            fresh.card_lookup@ == source.card_lookup@,
            fresh.buyer_lookup@ == source.buyer_lookup@,
            state_wf(fresh),
        decreases n - i,
    {
        let mut p = fresh.players.get(i).duplicate();
        p.cached_score = cached_scores[i];
        fresh.players.set(i, p);
        i = i + 1;
    }

    let is_draft = matches!(&fresh.phase, GamePhase::Draft { .. });
    if is_draft {
        redistribute_hidden_hands(&mut fresh, source, perspective_player, seen_hands, rng);
    }
    *det = fresh;
}

/// Two players that agree on everything but the cached score.
pub open spec fn player_eq_except_score(
    a: crate::types::PlayerState,
    b: crate::types::PlayerState,
) -> bool {
    &&& a.deck == b.deck
    &&& a.discard == b.discard
    &&& a.used_cards == b.used_cards
    &&& a.workshop_cards == b.workshop_cards
    &&& a.drafted_cards == b.drafted_cards
    &&& a.color_wheel == b.color_wheel
    &&& a.materials == b.materials
    &&& a.completed_buyers@ == b.completed_buyers@
    &&& a.ducats == b.ducats
}

spec fn unknown_sum(sizes: Seq<u32>, known: Seq<bool>, lo: int, hi: int) -> int
    decreases hi - lo,
{
    if lo >= hi {
        0
    } else {
        (if known[lo] { 0int } else { sizes[lo] as int }) + unknown_sum(sizes, known, lo + 1, hi)
    }
}

proof fn lemma_unknown_sum_nonneg(sizes: Seq<u32>, known: Seq<bool>, lo: int, hi: int)
    ensures
        unknown_sum(sizes, known, lo, hi) >= 0,
    decreases hi - lo,
{
    if lo < hi {
        lemma_unknown_sum_nonneg(sizes, known, lo + 1, hi);
    }
}

proof fn lemma_unknown_sum_snoc(sizes: Seq<u32>, known: Seq<bool>, lo: int, hi: int)
    requires
        lo <= hi,
    ensures
        unknown_sum(sizes, known, lo, hi + 1)
            == unknown_sum(sizes, known, lo, hi)
                + if known[hi] { 0int } else { sizes[hi] as int },
    decreases hi - lo,
{
    if lo < hi {
        lemma_unknown_sum_snoc(sizes, known, lo + 1, hi);
    } else {
        assert(unknown_sum(sizes, known, lo + 1, hi + 1) == 0);
        assert(unknown_sum(sizes, known, lo, hi) == 0);
    }
}

proof fn lemma_unknown_sum_same(a: Seq<bool>, b: Seq<bool>, sizes: Seq<u32>, lo: int, hi: int)
    requires
        forall|k: int| lo <= k < hi ==> a[k] == b[k],
    ensures
        unknown_sum(sizes, a, lo, hi) == unknown_sum(sizes, b, lo, hi),
    decreases hi - lo,
{
    if lo < hi {
        lemma_unknown_sum_same(a, b, sizes, lo + 1, hi);
    }
}

proof fn lemma_union_disjoint_hand(hands: Seq<UnorderedCards>, i: int, j: int, n: int)
    requires
        0 <= i <= j < n <= hands.len(),
        hands_pairwise_disjoint(hands, n),
    ensures
        hands_union(hands, i).disjoint(hands[j]@),
    decreases i,
{
    if i == 0 {
        assert(hands_union(hands, 0) =~= Set::<u8>::empty());
    } else {
        lemma_union_disjoint_hand(hands, i - 1, j, n);
        assert(hands[i - 1]@.disjoint(hands[j]@));
    }
}

/// Pool the hands the searching player cannot see and deal them back out at
/// random, one hand of the original size per hidden player.
fn redistribute_hidden_hands(
    state: &mut GameState,
    source: &GameState,
    perspective_player: usize,
    seen_hands: &Option<Vec<Vec<crate::types::CardInstance>>>,
    rng: &mut rand::rngs::SmallRng,
)
    requires
        state_wf(*old(state)),
        old(state).phase is Draft,
        source.phase is Draft,
        phase_eq(old(state).phase, source.phase),
        perspective_player < old(state).players@.len(),
        old(state).players@.len() == source.players@.len(),
        draft_hands_ok(*source),
    ensures
        state_wf(*final(state)),
        final(state).players@ == old(state).players@,
        final(state).draft_deck == old(state).draft_deck,
        final(state).destroyed_pile == old(state).destroyed_pile,
        final(state).buyer_deck == old(state).buyer_deck,
        final(state).buyer_display@ == old(state).buyer_display@,
        final(state).round == old(state).round,
        final(state).ai_players@ == old(state).ai_players@,
        final(state).card_lookup@ == old(state).card_lookup@,
        final(state).buyer_lookup@ == old(state).buyer_lookup@,
        match (final(state).phase, old(state).phase) {
            (GamePhase::Draft { draft_state: d }, GamePhase::Draft { draft_state: sd }) => {
                &&& d.pick_number == sd.pick_number
                &&& d.current_player_index == sd.current_player_index
                &&& d.num_hands == sd.num_hands
                &&& d.direction == sd.direction
                &&& d.waiting_for_pass == sd.waiting_for_pass
                &&& d.hands@[perspective_player as int] == sd.hands@[perspective_player as int]
                &&& forall|i: int| 0 <= i < d.num_hands
                    ==> (#[trigger] d.hands@[i])@.len() == sd.hands@[i]@.len()
                &&& hands_union(d.hands@, d.num_hands as int)
                    == hands_union(sd.hands@, sd.num_hands as int)
                &&& hands_pairwise_disjoint(d.hands@, d.num_hands as int)
            }
            _ => false,
        },
{
    let ds0 = crate::draft_phase::get_draft_state(state);
    let mut ds = ds0;
    let n = state.players.len();
    proof {
        assert(ds0.num_hands == n);
        assert(hands_pairwise_disjoint(ds0.hands@, n as int)) by {
            match source.phase {
                GamePhase::Draft { draft_state: sd } => {
                    assert(sd == ds0);
                }
                _ => {}
            }
        }
    }

    // Which hands the searching player knows. Their own is always known; the
    // observation history may pin down others, one causal pick at a time.
    let mut known: [bool; 4] = [false; 4];
    known[perspective_player] = true;

    match seen_hands {
        Some(sh) => {
            let direction = ds0.direction;
            let mut persp_accounted = UnorderedCards::new();
            let mut receiver_accounted: [UnorderedCards; 4] = [UnorderedCards::new(); 4];

            let mut round: usize = 0;
            while round < sh.len()
                invariant
                    known@[perspective_player as int],
                    known@.len() == 4,
                    perspective_player < n,
                    1 <= n <= 4,
                    n == source.players@.len(),
                decreases sh@.len() - round,
            {
                let hand = &sh[round];
                if hand.len() > 0 {
                    // The observed hand, as a bit set.
                    let mut current_hand = UnorderedCards::new();
                    let mut c: usize = 0;
                    while c < hand.len()
                        invariant
                            known@[perspective_player as int],
                            known@.len() == 4,
                            perspective_player < n,
                            1 <= n <= 4,
                        decreases hand@.len() - c,
                    {
                        let inst = hand[c].instance_id;
                        if inst < 128 {
                            current_hand.insert(inst as u8);
                        }
                        c = c + 1;
                    }

                    // Remove the searching player's own pick for this round.
                    let persp_drafted = source.players.get(perspective_player).drafted_cards;
                    let pick_mask = current_hand
                        .intersection(persp_drafted)
                        .difference(persp_accounted);
                    match pick_mask.lowest_bit() {
                        Some(persp_pick) => {
                            persp_accounted.insert(persp_pick);
                            current_hand.remove(persp_pick);

                            // Chain through the players the hand passed to.
                            let mut receiver = perspective_player;
                            let mut step: usize = 0;
                            let mut stop = false;
                            while step < n - 1 && !stop
                                invariant
                                    known@[perspective_player as int],
                                    known@.len() == 4,
                                    perspective_player < n,
                                    receiver < n,
                                    1 <= n <= 4,
                                    n == source.players@.len(),
                                decreases n - 1 - step,
                            {
                                receiver = if direction == 1 {
                                    (receiver + 1) % n
                                } else {
                                    (receiver + n - 1) % n
                                };
                                if receiver == perspective_player {
                                    stop = true;
                                } else {
                                    let pick_round = round as u128 + step as u128 + 1;
                                    let limit = ds0.pick_number as u128;
                                    if pick_round > limit {
                                        stop = true;
                                    } else if pick_round >= limit
                                        && ds0.current_player_index <= receiver {
                                        stop = true;
                                    } else {
                                        let recv_drafted =
                                            source.players.get(receiver).drafted_cards;
                                        let recv_mask = current_hand
                                            .intersection(recv_drafted)
                                            .difference(receiver_accounted[receiver]);
                                        match recv_mask.lowest_bit() {
                                            Some(recv_pick) => {
                                                let mut acc = receiver_accounted[receiver];
                                                acc.insert(recv_pick);
                                                receiver_accounted[receiver] = acc;
                                                current_hand.remove(recv_pick);
                                                known[receiver] = true;
                                            }
                                            None => {
                                                stop = true;
                                            }
                                        }
                                    }
                                }
                                step = step + 1;
                            }
                        }
                        None => {}
                    }
                }
                round = round + 1;
            }
        }
        None => {}
    }

    // Record the original hand sizes.
    let mut sizes: [u32; 4] = [0; 4];
    let mut si: usize = 0;
    while si < n
        invariant
            si <= n,
            n <= 4,
            ds == ds0,
            forall|k: int| 0 <= k < si ==> sizes@[k] == (#[trigger] ds0.hands@[k])@.len(),
        decreases n - si,
    {
        sizes[si] = ds.hands[si].len();
        si = si + 1;
    }

    // Pool the hidden hands.
    let ghost union0 = hands_union(ds0.hands@, n as int);
    let mut pool = UnorderedCards::new();
    let mut i: usize = 0;
    while i < n
        invariant
            i <= n,
            1 <= n <= 4,
            n <= ds.hands@.len(),
            ds.hands@.len() == 4,
            perspective_player < n,
            known@[perspective_player as int],
            ds.num_hands == ds0.num_hands,
            ds.pick_number == ds0.pick_number,
            ds.current_player_index == ds0.current_player_index,
            ds.direction == ds0.direction,
            ds.waiting_for_pass == ds0.waiting_for_pass,
            forall|k: int| 0 <= k < n && known@[k]
                ==> #[trigger] ds.hands@[k] == ds0.hands@[k],
            forall|k: int| i <= k < n ==> #[trigger] ds.hands@[k] == ds0.hands@[k],
            forall|k: int| 0 <= k < i && !known@[k]
                ==> (#[trigger] ds.hands@[k])@ == Set::<u8>::empty(),
            forall|k: int| 0 <= k < n ==> sizes@[k] == (#[trigger] ds0.hands@[k])@.len(),
            hands_union(ds.hands@, n as int).union(pool@) == union0,
            pool@.finite(),
            pool@.len() == unknown_sum(sizes@, known@, 0, i as int),
            pool@.subset_of(hands_union(ds0.hands@, i as int)),
            hands_pairwise_disjoint(ds0.hands@, n as int),
            hands_pairwise_disjoint(ds.hands@, n as int),
            forall|k: int| 0 <= k < n ==> pool@.disjoint((#[trigger] ds.hands@[k])@),
        decreases n - i,
    {
        if !known[i] {
            let h = ds.hands[i];
            let ghost union_pool_old = pool@;
            let ghost hands_before = ds.hands@;
            proof {
                assert(h == ds0.hands@[i as int]);
                lemma_union_disjoint_hand(ds0.hands@, i as int, i as int, n as int);
                assert(pool@.disjoint(h@));
                crate::unordered_cards::lemma_popcount_is_len(h.0);
                lemma_len_disjoint_union(pool@, h@);
                lemma_unknown_sum_snoc(sizes@, known@, 0, i as int);
                lemma_hands_union_update(ds.hands@, n as int, i as int, UnorderedCards(0));
                crate::unordered_cards::lemma_zero_set_empty();
            }
            pool = pool.union(h);
            let ghost old_hands = ds.hands@;
            let empty_hand = UnorderedCards::new();
            proof {
                assert(empty_hand == UnorderedCards(0));
            }
            let mut hs = ds.hands;
            hs[i] = empty_hand;
            ds.hands = hs;
            proof {
                assert(ds.hands@ == old_hands.update(i as int, UnorderedCards(0)));
                // Emptying one hand keeps the rest pairwise disjoint, and
                // the grown pool stays clear of every remaining hand.
                assert forall|a: int, b: int| 0 <= a < b < n as int
                    implies (#[trigger] ds.hands@[a])@.disjoint(
                        (#[trigger] ds.hands@[b])@) by {
                    if a != i && b != i {
                        assert(ds.hands@[a] == hands_before[a]);
                        assert(ds.hands@[b] == hands_before[b]);
                        assert(hands_before[a]@.disjoint(hands_before[b]@));
                    }
                }
                assert forall|k: int| 0 <= k < n
                    implies pool@.disjoint((#[trigger] ds.hands@[k])@) by {
                    if k != i as int {
                        assert(ds.hands@[k] == hands_before[k]);
                        assert(union_pool_old.disjoint(hands_before[k]@));
                        if k < i as int {
                            if !known@[k] {
                                assert(hands_before[k]@ == Set::<u8>::empty());
                            } else {
                                assert(hands_before[k] == ds0.hands@[k]);
                                if k < i as int {
                                    assert(ds0.hands@[k]@.disjoint(ds0.hands@[i as int]@));
                                }
                            }
                        } else {
                            assert(hands_before[k] == ds0.hands@[k]);
                            assert(ds0.hands@[i as int]@.disjoint(ds0.hands@[k]@));
                        }
                        assert(h == ds0.hands@[i as int]);
                    }
                }
                assert(hands_union(ds.hands@, n as int).union(old_hands[i as int]@)
                    == hands_union(old_hands, n as int).union(mask_as_set(0)));
                assert(hands_union(ds.hands@, n as int).union(old_hands[i as int]@)
                    =~= hands_union(ds.hands@, n as int).union(h@));
                assert(hands_union(old_hands, n as int).union(mask_as_set(0))
                    =~= hands_union(old_hands, n as int));
                assert(pool@ =~= union_pool_old.union(h@));
                assert(hands_union(ds.hands@, n as int).union(pool@) =~= union0);
                assert(pool@.subset_of(hands_union(ds0.hands@, i as int + 1))) by {
                    lemma_hands_union_member(ds0.hands@, i as int + 1, i as int);
                    assert(hands_union(ds0.hands@, i as int)
                        .subset_of(hands_union(ds0.hands@, i as int + 1))) by {
                        lemma_hands_union_grow(ds0.hands@, i as int);
                    }
                }
            }
        } else {
            proof {
                lemma_unknown_sum_snoc(sizes@, known@, 0, i as int);
                assert(pool@.subset_of(hands_union(ds0.hands@, i as int + 1))) by {
                    lemma_hands_union_grow(ds0.hands@, i as int);
                }
            }
        }
        i = i + 1;
    }

    // Deal the pool back out, one hand of the original size per hidden
    // player; the draw is uniform over all ways to do so.
    let mut j: usize = 0;
    while j < n
        invariant
            j <= n,
            1 <= n <= 4,
            n <= ds.hands@.len(),
            ds.hands@.len() == 4,
            perspective_player < n,
            known@[perspective_player as int],
            ds.num_hands == ds0.num_hands,
            ds.pick_number == ds0.pick_number,
            ds.current_player_index == ds0.current_player_index,
            ds.direction == ds0.direction,
            ds.waiting_for_pass == ds0.waiting_for_pass,
            forall|k: int| 0 <= k < n && known@[k]
                ==> #[trigger] ds.hands@[k] == ds0.hands@[k],
            forall|k: int| 0 <= k < j
                ==> (#[trigger] ds.hands@[k])@.len() == ds0.hands@[k]@.len(),
            forall|k: int| j <= k < n && !known@[k]
                ==> (#[trigger] ds.hands@[k])@ == Set::<u8>::empty(),
            forall|k: int| 0 <= k < n ==> sizes@[k] == (#[trigger] ds0.hands@[k])@.len(),
            forall|k: int| 0 <= k < n
                ==> (#[trigger] ds0.hands@[k])@.len() <= 9,
            hands_union(ds.hands@, n as int).union(pool@) == union0,
            pool@.finite(),
            pool@.len() == unknown_sum(sizes@, known@, j as int, n as int),
            hands_pairwise_disjoint(ds.hands@, n as int),
            forall|k: int| 0 <= k < n ==> pool@.disjoint((#[trigger] ds.hands@[k])@),
        decreases n - j,
    {
        if !known[j] {
            let size = sizes[j];
            proof {
                lemma_unknown_sum_nonneg(sizes@, known@, j as int + 1, n as int);
                crate::unordered_cards::lemma_popcount_is_len(pool.0);
                assert(sizes@[j as int] == ds0.hands@[j as int]@.len());
                assert(ds0.hands@[j as int]@.len() <= 9);
                assert(size <= crate::binomial::MAX_DRAW);
                assert(unknown_sum(sizes@, known@, j as int, n as int)
                    == sizes@[j as int] + unknown_sum(sizes@, known@, j as int + 1, n as int));
                assert(pool@.len() >= size);
            }
            let ghost pool_old = pool@;
            let drawn = pool.draw_multiple(size, rng);
            let ghost old_hands = ds.hands@;
            let mut hs = ds.hands;
            hs[j] = drawn;
            ds.hands = hs;
            proof {
                assert(ds.hands@ == old_hands.update(j as int, drawn));
                // The drawn hand came out of the pool, which was clear of
                // every standing hand; disjointness carries over, and the
                // shrunken pool stays clear of everything.
                assert forall|a: int, b: int| 0 <= a < b < n as int
                    implies (#[trigger] ds.hands@[a])@.disjoint(
                        (#[trigger] ds.hands@[b])@) by {
                    if a != j && b != j {
                        assert(ds.hands@[a] == old_hands[a]);
                        assert(ds.hands@[b] == old_hands[b]);
                        assert(old_hands[a]@.disjoint(old_hands[b]@));
                    } else {
                        let other = if a == j { b } else { a };
                        assert(ds.hands@[other] == old_hands[other]);
                        assert(pool_old.disjoint(old_hands[other]@));
                        assert(drawn@.subset_of(pool_old));
                    }
                }
                assert forall|k: int| 0 <= k < n
                    implies pool@.disjoint((#[trigger] ds.hands@[k])@) by {
                    assert(pool@ == pool_old.difference(drawn@));
                    if k != j as int {
                        assert(ds.hands@[k] == old_hands[k]);
                        assert(pool_old.disjoint(old_hands[k]@));
                    }
                }
                lemma_hands_union_update(old_hands, n as int, j as int, drawn);
                assert(old_hands[j as int]@ == Set::<u8>::empty());
                assert(hands_union(ds.hands@, n as int).union(old_hands[j as int]@)
                    == hands_union(old_hands, n as int).union(drawn@));
                assert(hands_union(ds.hands@, n as int)
                    =~= hands_union(ds.hands@, n as int).union(old_hands[j as int]@));
                assert(pool@ =~= pool_old.difference(drawn@));
                assert(hands_union(old_hands, n as int).union(drawn@).union(pool@)
                    =~= hands_union(old_hands, n as int).union(pool_old));
                assert(hands_union(ds.hands@, n as int).union(pool@) =~= union0);
                crate::unordered_cards::lemma_popcount_is_len(pool.0);
                crate::unordered_cards::lemma_popcount_is_len(drawn.0);
                assert(drawn@.disjoint(pool@));
                lemma_len_disjoint_union(drawn@, pool@);
                assert(drawn@.union(pool@) =~= pool_old);
                assert(unknown_sum(sizes@, known@, j as int, n as int)
                    == sizes@[j as int] + unknown_sum(sizes@, known@, j as int + 1, n as int));
            }
        } else {
            proof {
                assert(unknown_sum(sizes@, known@, j as int, n as int)
                    == unknown_sum(sizes@, known@, j as int + 1, n as int));
            }
        }
        j = j + 1;
    }

    proof {
        vstd::set_lib::lemma_set_empty_equivalency_len(pool@);
        assert(hands_union(ds.hands@, n as int).union(pool@)
            =~= hands_union(ds.hands@, n as int));
    }
    state.phase = GamePhase::Draft { draft_state: ds };
}

proof fn lemma_hands_union_grow(hands: Seq<UnorderedCards>, i: int)
    requires
        0 <= i,
        i + 1 <= hands.len(),
    ensures
        hands_union(hands, i).subset_of(hands_union(hands, i + 1)),
{
}

/// The drafted rows of the first `n` players, as one set.
pub open spec fn drafted_union(players: Seq<crate::types::PlayerState>, n: int) -> Set<u8>
    decreases n,
{
    if n <= 0 {
        Set::empty()
    } else {
        drafted_union(players, n - 1).union(players[n - 1].drafted_cards@)
    }
}

proof fn lemma_drafted_union_update(
    players: Seq<crate::types::PlayerState>,
    n: int,
    i: int,
    p: crate::types::PlayerState,
)
    requires
        0 <= i < n <= players.len(),
    ensures
        drafted_union(players.update(i, p), n).union(players[i].drafted_cards@)
            == drafted_union(players, n).union(p.drafted_cards@),
    decreases n,
{
    if i == n - 1 {
        assert forall|k: int| 0 <= k < n - 1
            implies players.update(i, p)[k] == players[k] by {}
        lemma_drafted_union_prefix(players.update(i, p), players, n - 1);
        assert(drafted_union(players.update(i, p), n).union(players[i].drafted_cards@)
            =~= drafted_union(players, n).union(p.drafted_cards@));
    } else {
        lemma_drafted_union_update(players, n - 1, i, p);
        assert(players.update(i, p)[n - 1] == players[n - 1]);
        assert(drafted_union(players.update(i, p), n).union(players[i].drafted_cards@)
            =~= drafted_union(players.update(i, p), n - 1)
                .union(players[i].drafted_cards@).union(players[n - 1].drafted_cards@));
        assert(drafted_union(players, n).union(p.drafted_cards@)
            =~= drafted_union(players, n - 1)
                .union(p.drafted_cards@).union(players[n - 1].drafted_cards@));
        assert(drafted_union(players.update(i, p), n - 1).union(players[i].drafted_cards@)
            .union(players[n - 1].drafted_cards@)
            =~= drafted_union(players, n - 1).union(p.drafted_cards@)
                .union(players[n - 1].drafted_cards@));
    }
}

proof fn lemma_drafted_union_prefix(
    a: Seq<crate::types::PlayerState>,
    b: Seq<crate::types::PlayerState>,
    n: int,
)
    requires
        0 <= n <= a.len(),
        n <= b.len(),
        forall|k: int| 0 <= k < n ==> a[k] == b[k],
    ensures
        drafted_union(a, n) == drafted_union(b, n),
    decreases n,
{
    if n > 0 {
        lemma_drafted_union_prefix(a, b, n - 1);
    }
}

/// Pairwise disjointness of the first `n` players' drafted rows.
pub open spec fn drafted_pairwise_disjoint(
    players: Seq<crate::types::PlayerState>,
    n: int,
) -> bool {
    forall|a: int, b: int| 0 <= a < b < n
        ==> (#[trigger] players[a]).drafted_cards@.disjoint(
            (#[trigger] players[b]).drafted_cards@)
}

/// One step of the cheap playout policy: draw to five, then deal four
/// drafted cards per player straight from the pooled draft stock (the
/// destroyed pile refills a short stock) and jump to the action phase. A
/// sufficient pool yields four pairwise-disjoint cards per player and the
/// leftovers land on the destroyed pile; a short pool is destroyed whole
/// and nobody drafts.
fn rollout_draw_and_draft(state: &mut GameState, rng: &mut rand::rngs::SmallRng)
    requires
        state_wf(*old(state)),
    ensures
        state_wf(*final(state)),
        final(state).phase is Action,
        final(state).draft_deck@ == Set::<u8>::empty(),
        // Either everyone drafted four fresh pairwise-disjoint cards, with
        // the dealt rows and the destroyed pile together accounting for the
        // whole stock, or the stock was short, nobody's drafted row moved,
        // and the stock went to the destroyed pile whole.
        ({
            let n = old(state).players@.len() as int;
            ||| {
                &&& (forall|i: int| 0 <= i < n
                    ==> (#[trigger] final(state).players@[i]).drafted_cards@.len() == 4)
                &&& drafted_pairwise_disjoint(final(state).players@, n)
                &&& drafted_union(final(state).players@, n)
                    .union(final(state).destroyed_pile@)
                    == old(state).draft_deck@.union(old(state).destroyed_pile@)
            }
            ||| {
                &&& (forall|i: int| 0 <= i < n
                    ==> (#[trigger] final(state).players@[i]).drafted_cards
                        == old(state).players@[i].drafted_cards)
                &&& final(state).destroyed_pile@
                    == old(state).draft_deck@.union(old(state).destroyed_pile@)
            }
        }),
{
    let num_players = state.players.len();

    let mut i: usize = 0;
    while i < num_players
        invariant
            i <= num_players,
            num_players == state.players@.len(),
            state_wf(*state),
            state.draft_deck == old(state).draft_deck,
            state.destroyed_pile == old(state).destroyed_pile,
            forall|k: int| 0 <= k < num_players
                ==> (#[trigger] state.players@[k]).drafted_cards
                    == old(state).players@[k].drafted_cards,
        decreases num_players - i,
    {
        let mut player = state.players.get(i).duplicate();
        let current = player.workshop_cards.len() as usize;
        let to_draw = if current >= 5 { 0 } else { 5 - current };
        if to_draw > 0 {
            let mut deck = player.deck;
            let mut discard = player.discard;
            let mut workshop = player.workshop_cards;
            crate::deck_utils::draw_from_deck(
                &mut deck, &mut discard, &mut workshop, to_draw, rng);
            player.deck = deck;
            player.discard = discard;
            player.workshop_cards = workshop;
        }
        state.players.set(i, player);
        i = i + 1;
    }

    // Pool the draft stock; fall back to the destroyed pile when short.
    let ghost stock0 = old(state).draft_deck@.union(old(state).destroyed_pile@);
    let mut pool = state.draft_deck;
    state.draft_deck = UnorderedCards::new();

    let total_needed = 5 * (num_players as u32);
    if pool.len() < total_needed && !state.destroyed_pile.is_empty() {
        pool = pool.union(state.destroyed_pile);
        state.destroyed_pile = UnorderedCards::new();
    }
    proof {
        assert(pool@.union(state.destroyed_pile@) =~= stock0);
        crate::unordered_cards::lemma_zero_set_empty();
    }

    if pool.len() < 4 * (num_players as u32) {
        state.destroyed_pile = state.destroyed_pile.union(pool);
        proof {
            assert(state.destroyed_pile@ =~= stock0);
        }
        crate::action_phase::initialize_action_phase(state);
        return;
    }

    let ghost pool0 = pool@;
    let ghost dest_mid = state.destroyed_pile@;
    proof {
        crate::unordered_cards::lemma_popcount_is_len(pool.0);
        assert(drafted_union(state.players@, 0) =~= Set::<u8>::empty());
        assert(drafted_union(state.players@, 0).union(pool@) =~= pool0);
    }
    let mut j: usize = 0;
    while j < num_players
        invariant
            j <= num_players,
            num_players == state.players@.len(),
            num_players <= 4,
            state_wf(*state),
            state.draft_deck@ == Set::<u8>::empty(),
            state.destroyed_pile@ == dest_mid,
            pool@.finite(),
            pool@.len() >= 4 * (num_players - j),
            pool@.subset_of(pool0),
            drafted_union(state.players@, j as int).union(pool@)
                == pool0,
            drafted_pairwise_disjoint(state.players@, j as int),
            forall|k: int| 0 <= k < j
                ==> (#[trigger] state.players@[k]).drafted_cards@.len() == 4,
            forall|k: int| 0 <= k < j
                ==> pool@.disjoint((#[trigger] state.players@[k]).drafted_cards@),
        decreases num_players - j,
    {
        proof {
            crate::unordered_cards::lemma_popcount_is_len(pool.0);
        }
        let ghost pool_before = pool@;
        let ghost players_before = state.players@;
        let drawn = pool.draw_multiple(4, rng);
        let mut player = state.players.get(j).duplicate();
        player.drafted_cards = drawn;
        state.players.set(j, player);
        proof {
            crate::unordered_cards::lemma_popcount_is_len(pool.0);
            crate::unordered_cards::lemma_popcount_is_len(drawn.0);
            assert(drawn@.disjoint(pool@));
            lemma_len_disjoint_union(drawn@, pool@);
            assert(drawn@.union(pool@) =~= pool_before);
            assert(state.players@ == players_before.update(
                j as int, state.players@[j as int]));
            lemma_drafted_union_update(
                players_before, num_players as int, j as int, state.players@[j as int]);
            lemma_drafted_union_prefix(
                state.players@, players_before, j as int);
            assert(drafted_union(state.players@, j as int + 1)
                == drafted_union(state.players@, j as int).union(drawn@));
            assert(drafted_union(state.players@, j as int + 1).union(pool@)
                =~= pool0);
            assert forall|a: int, b: int| 0 <= a < b < j as int + 1
                implies (#[trigger] state.players@[a]).drafted_cards@.disjoint(
                    (#[trigger] state.players@[b]).drafted_cards@) by {
                if b < j as int {
                    assert(state.players@[a] == players_before[a]);
                    assert(state.players@[b] == players_before[b]);
                } else {
                    assert(state.players@[a] == players_before[a]);
                    assert(pool_before.disjoint(players_before[a].drafted_cards@));
                    assert(drawn@.subset_of(pool_before));
                }
            }
            assert forall|k: int| 0 <= k < j as int + 1
                implies pool@.disjoint(
                    (#[trigger] state.players@[k]).drafted_cards@) by {
                if k != j as int {
                    assert(state.players@[k] == players_before[k]);
                    assert(pool_before.disjoint(players_before[k].drafted_cards@));
                }
            }
        }
        j = j + 1;
    }

    state.destroyed_pile = state.destroyed_pile.union(pool);
    proof {
        assert(drafted_union(state.players@, num_players as int)
            .union(state.destroyed_pile@) =~= stock0);
    }
    crate::action_phase::initialize_action_phase(state);
}

/// Apply up to `remaining` random mixes (capped at two), then close the
/// pending mix choice.
fn random_mixes(state: &mut GameState, remaining: u32, rng: &mut rand::rngs::SmallRng)
    requires
        state_wf(*old(state)),
        old(state).phase is Action,
    ensures
        state_wf(*final(state)),
        final(state).phase is Action,
{
    let cap: u32 = if remaining > 2 { 2 } else { remaining };
    let mut done: u32 = 0;
    while done < cap
        invariant
            done <= cap,
            cap <= 2,
            state_wf(*state),
            state.phase is Action,
        decreases cap - done,
    {
        let pi = crate::action_phase::get_action_state(state).current_player_index;
        let wheel = state.players.get(pi).color_wheel;
        let mut pairs: [(crate::types::Color, crate::types::Color); 9] =
            [(crate::types::Color::Red, crate::types::Color::Red); 9];
        let mut pair_count: usize = 0;
        let mut k: usize = 0;
        while k < 9
            invariant
                k <= 9,
                pair_count <= k,
            decreases 9 - k,
        {
            let (a, b) = VALID_MIX_PAIRS[k];
            if wheel.get(a) > 0 && wheel.get(b) > 0 {
                pairs[pair_count] = (a, b);
                pair_count = pair_count + 1;
            }
            k = k + 1;
        }
        if pair_count == 0 {
            break;
        }
        // One extra slot lets the playout stop mixing early.
        let target = crate::rng::rand_below_usize(rng, pair_count + 1);
        if target == pair_count {
            break;
        }
        let (a, b) = pairs[target];
        crate::action_phase::resolve_mix_colors_checked(state, a, b, rng);
        done = done + 1;
    }
    match &state.phase {
        GamePhase::Action { action_state } => {
            if matches!(action_state.pending_choice, Some(PendingChoice::ChooseMix { .. })) {
                crate::action_phase::skip_mix(state, rng);
            }
        }
        _ => {}
    }
}

/// Run the cleanup phase under the playout policy of keeping every
/// workshop card, for at most one pass around the table.
fn rollout_finish_cleanup(state: &mut GameState, rng: &mut rand::rngs::SmallRng)
    requires
        state_wf(*old(state)),
    ensures
        state_wf(*final(state)),
{
    let mut steps: usize = 0;
    while steps < 4
        invariant
            steps <= 4,
            state_wf(*state),
        decreases 4 - steps,
    {
        let is_cleanup = matches!(state.phase, GamePhase::Cleanup { .. });
        if !is_cleanup {
            return;
        }
        let current = crate::action_phase::get_cleanup_state(state).current_player_index;
        let keep = state.players.get(current).workshop_cards;
        crate::action_phase::resolve_keep_workshop_cards(state, keep, rng);
        steps = steps + 1;
    }
}

/// One step of the fast random playout policy: make a cheap uniformly
/// random move for the position's active player and advance the state,
/// jumping through draft and cleanup phases with fixed cheap policies.
pub fn apply_rollout_step(state: &mut GameState, rng: &mut rand::rngs::SmallRng)
    requires
        state_wf(*old(state)),
        !(old(state).phase is GameOver),
    ensures
        state_wf(*final(state)),
{
    match &state.phase {
        GamePhase::Draw => {
            rollout_draw_and_draft(state, rng);
            return;
        }
        GamePhase::Draft { .. } => {
            // Pick one random card; clear any pending hand pass first.
            crate::draft_phase::confirm_pass(state);
            let ds = crate::draft_phase::get_draft_state(state);
            let hand = ds.hands[ds.current_player_index];
            match hand.pick_random(rng) {
                Some(id) => {
                    crate::draft_phase::player_pick(state, id as u32);
                }
                None => {
                    // An empty hand ends the draft.
                    crate::draft_phase::advance_draft(state);
                }
            }
            return;
        }
        GamePhase::Cleanup { .. } => {
            rollout_finish_cleanup(state, rng);
            let is_draw = matches!(state.phase, GamePhase::Draw);
            if is_draw {
                rollout_draw_and_draft(state, rng);
            }
            return;
        }
        GamePhase::GameOver => {
            return;
        }
        GamePhase::Action { .. } => {}
    }

    let pi = crate::action_phase::get_action_state(state).current_player_index;
    let pending = crate::action_phase::get_action_state(state).pending_choice;
    match pending {
        None => {
            let mut copy = state.players.get(pi).drafted_cards;
            let sel = copy.draw_up_to(1, rng);
            match sel.lowest_bit() {
                Some(card_id) => {
                    proof {
                        assert(sel@.subset_of(state.players@[pi as int].drafted_cards@));
                    }
                    let card = state.card_lookup[card_id as usize];
                    match card.ability() {
                        Ability::MixColors { count } => {
                            destroy_card_for_rollout(state, card_id, rng);
                            let still_action = matches!(state.phase, GamePhase::Action { .. });
                            if still_action {
                                random_mixes(state, count, rng);
                            }
                        }
                        Ability::Sell => {
                            destroy_card_for_rollout(state, card_id, rng);
                            let still_action = matches!(state.phase, GamePhase::Action { .. });
                            if still_action {
                                random_buyer(state, rng);
                            }
                        }
                        _ => {
                            destroy_card_for_rollout(state, card_id, rng);
                        }
                    }
                }
                None => {
                    crate::action_phase::end_player_turn(state, rng);
                    let is_cleanup = matches!(state.phase, GamePhase::Cleanup { .. });
                    if is_cleanup {
                        rollout_finish_cleanup(state, rng);
                    }
                    let is_draw = matches!(state.phase, GamePhase::Draw);
                    if is_draw {
                        rollout_draw_and_draft(state, rng);
                    }
                }
            }
        }
        Some(PendingChoice::ChooseCardsForWorkshop { count }) => {
            let cap: u8 = if count > 9 { 9 } else { count as u8 };
            let mut copy = state.players.get(pi).workshop_cards;
            let sel = copy.draw_up_to(cap, rng);
            if sel.is_empty() {
                crate::action_phase::skip_workshop(state, rng);
            } else {
                crate::action_phase::resolve_workshop_choice(state, sel, rng);
            }
        }
        Some(PendingChoice::ChooseCardsToDestroy { .. }) => {
            let mut copy = state.players.get(pi).workshop_cards;
            let sel = copy.draw_up_to(1, rng);
            proof {
                assert(sel@.subset_of(state.players@[pi as int].workshop_cards@));
            }
            crate::action_phase::resolve_destroy_cards(state, sel, rng);
        }
        Some(PendingChoice::ChooseMix { remaining }) => {
            random_mixes(state, remaining, rng);
        }
        Some(PendingChoice::ChooseBuyer) => {
            random_buyer(state, rng);
        }
        Some(PendingChoice::ChooseSecondaryColor) => {
            let idx = crate::rng::rand_below_usize(rng, 3);
            let color = crate::colors::SECONDARIES[idx];
            crate::action_phase::resolve_gain_secondary(state, color, rng);
        }
        Some(PendingChoice::ChoosePrimaryColor) => {
            let idx = crate::rng::rand_below_usize(rng, 3);
            let color = crate::colors::PRIMARIES[idx];
            crate::action_phase::resolve_gain_primary(state, color, rng);
        }
        Some(PendingChoice::ChooseTertiaryToLose) => {
            let wheel = state.players.get(pi).color_wheel;
            let mut owned: [crate::types::Color; 6] = [crate::types::Color::Red; 6];
            let mut own_count: usize = 0;
            let mut k: usize = 0;
            while k < 6
                invariant
                    k <= 6,
                    own_count <= k,
                decreases 6 - k,
            {
                let c = crate::colors::TERTIARIES[k];
                if wheel.get(c) > 0 {
                    owned[own_count] = c;
                    own_count = own_count + 1;
                }
                k = k + 1;
            }
            if own_count == 0 {
                // No tertiary to swap; close the choice.
                crate::action_phase::skip_mix(state, rng);
            } else {
                let r = crate::rng::rand_below_usize(rng, own_count * 5);
                let lose_idx = r / 5;
                let gain_local_idx = r % 5;
                proof {
                    assert(lose_idx < own_count) by (nonlinear_arith)
                        requires r < own_count * 5, lose_idx == r / 5, own_count >= 1;
                }
                let lose = owned[lose_idx];
                let mut options: [crate::types::Color; 6] = [crate::types::Color::Red; 6];
                let mut opt_count: usize = 0;
                let mut l: usize = 0;
                while l < 6
                    invariant
                        l <= 6,
                        opt_count <= l,
                    decreases 6 - l,
                {
                    let c = crate::colors::TERTIARIES[l];
                    if c != lose {
                        options[opt_count] = c;
                        opt_count = opt_count + 1;
                    }
                    l = l + 1;
                }
                let gain = if gain_local_idx < opt_count {
                    options[gain_local_idx]
                } else {
                    options[0]
                };
                if opt_count > 0 {
                    crate::action_phase::resolve_choose_tertiary_to_lose(state, lose);
                    crate::action_phase::resolve_choose_tertiary_to_gain(state, gain, rng);
                } else {
                    crate::action_phase::skip_mix(state, rng);
                }
            }
        }
    }
}

/// Destroy a drafted card during a playout, guarding the precondition that
/// the card is still in the drafted row.
fn destroy_card_for_rollout(state: &mut GameState, card_id: u8, rng: &mut rand::rngs::SmallRng)
    requires
        state_wf(*old(state)),
        old(state).phase is Action,
        card_id < 128,
    ensures
        state_wf(*final(state)),
{
    let pi = crate::action_phase::get_action_state(state).current_player_index;
    if state.players.get(pi).drafted_cards.contains(card_id) {
        crate::action_phase::destroy_drafted_card(state, card_id as u32, rng);
    }
}

/// Serve a uniformly random affordable buyer, or close the pending choice
/// when none is affordable.
fn random_buyer(state: &mut GameState, rng: &mut rand::rngs::SmallRng)
    requires
        state_wf(*old(state)),
        old(state).phase is Action,
    ensures
        state_wf(*final(state)),
{
    let pi = crate::action_phase::get_action_state(state).current_player_index;
    let mut affordable: [u32; 6] = [0; 6];
    let mut aff_count: usize = 0;
    let mut j: usize = 0;
    while j < state.buyer_display.len()
        invariant
            j <= state.buyer_display@.len(),
            state.buyer_display@.len() <= 6,
            aff_count <= j,
            state_wf(*state),
            state.phase is Action,
            pi < state.players@.len(),
        decreases state.buyer_display@.len() - j,
    {
        let g = state.buyer_display.get(j);
        if can_afford_buyer(state.players.get(pi), &g.buyer) {
            affordable[aff_count] = g.instance_id;
            aff_count = aff_count + 1;
        }
        j = j + 1;
    }
    if aff_count == 0 {
        crate::action_phase::skip_mix(state, rng);
        return;
    }
    let idx = crate::rng::rand_below_usize(rng, aff_count);
    crate::action_phase::resolve_select_buyer(state, affordable[idx], rng);
}

/// At least one player always holds the maximal score.
pub proof fn lemma_winner_count_pos(players: Seq<crate::types::PlayerState>, n: int)
    requires
        1 <= n <= players.len(),
    ensures
        spec_count_at(players, n, spec_max_score(players, n)) >= 1,
        spec_count_at(players, n, spec_max_score(players, n)) <= n,
{
    lemma_max_is_some_player(players, n);
}

} // verus!
