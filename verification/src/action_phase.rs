//! The action phase: playing drafted cards, resolving the ability stack,
//! serving buyers, ending turns, and the cleanup that follows a round.

use vstd::prelude::*;
use crate::color_wheel::{
    can_pay_cost, pay_cost, remove_color, spec_can_pay_cost, store_color,
};
use crate::colors::TERTIARIES;
use crate::deck_utils::draw_from_deck;
use crate::types::{
    add_saturating, buyer_color_cost, card_ability, color_index, material_index, phase_eq,
    Ability, ActionState, BuyerCard, BuyerInstance, CleanupState, Color, GamePhase, GameState,
    PendingChoice, PlayerState, state_wf,
};
use crate::unordered_cards::UnorderedCards;
use rand::rngs::SmallRng;

verus! {

/// Two players that agree on everything but the color wheel.
pub open spec fn player_eq_except_wheel(a: PlayerState, b: PlayerState) -> bool {
    &&& a.deck == b.deck
    &&& a.discard == b.discard
    &&& a.used_cards == b.used_cards
    &&& a.workshop_cards == b.workshop_cards
    &&& a.drafted_cards == b.drafted_cards
    &&& a.materials == b.materials
    &&& a.completed_buyers@ == b.completed_buyers@
    &&& a.ducats == b.ducats
    &&& a.cached_score == b.cached_score
}

/// The canonical-ordering phase an ability belongs to: draw/workshop effects
/// come first, mixing second, selling last; other abilities are unordered.
pub open spec fn spec_ability_canonical_phase(ability: Ability) -> Option<u8> {
    match ability {
        Ability::DrawCards { .. } => Option::Some(0u8),
        Ability::Workshop { .. } => Option::Some(0u8),
        Ability::MixColors { .. } => Option::Some(1u8),
        Ability::Sell => Option::Some(2u8),
        _ => Option::None,
    }
}

/// The canonical-ordering phase an ability belongs to.
pub fn ability_canonical_phase(ability: &Ability) -> (r: Option<u8>)
    ensures
        r == spec_ability_canonical_phase(*ability),
{
    match ability {
        Ability::DrawCards { .. } | Ability::Workshop { .. } => Some(0),
        Ability::MixColors { .. } => Some(1),
        Ability::Sell => Some(2),
        _ => None,
    }
}

/// Whether a player can serve a buyer: one unit of the demanded material
/// and every demanded color pip.
pub open spec fn spec_can_afford(p: PlayerState, b: BuyerCard) -> bool {
    &&& p.materials.counts@[material_index(crate::types::buyer_required_material(b))] >= 1
    &&& spec_can_pay_cost(p.color_wheel.counts@, buyer_color_cost(b))
}

/// Whether a player can serve a buyer.
pub fn can_afford_buyer(player: &PlayerState, buyer: &BuyerCard) -> (r: bool)
    ensures
        r == spec_can_afford(*player, *buyer),
{
    let cost = buyer.color_cost();
    player.materials.get(buyer.required_material()) >= 1
        && can_pay_cost(&player.color_wheel, &cost)
}

/// Whether the active player can serve some buyer on display.
pub open spec fn spec_can_sell_any(s: GameState) -> bool
    recommends
        s.phase is Action,
{
    match s.phase {
        GamePhase::Action { action_state } => exists|j: int|
            0 <= j < s.buyer_display@.len()
                && spec_can_afford(
                    s.players@[action_state.current_player_index as int],
                    (#[trigger] s.buyer_display@[j]).buyer,
                ),
        _ => false,
    }
}

/// Whether the active player can serve some buyer on display.
pub fn can_sell_to_any_buyer(state: &GameState) -> (r: bool)
    requires
        state_wf(*state),
        state.phase is Action,
    ensures
        r == spec_can_sell_any(*state),
{
    let pi = get_action_state(state).current_player_index;
    let player = state.players.get(pi);
    let mut j: usize = 0;
    while j < state.buyer_display.len()
        invariant
            j <= state.buyer_display@.len(),
            forall|l: int| 0 <= l < j
                ==> !spec_can_afford(
                    state.players@[pi as int],
                    (#[trigger] state.buyer_display@[l]).buyer,
                ),
            pi < state.players@.len(),
            player == state.players@[pi as int],
            match state.phase {
                GamePhase::Action { action_state } => action_state.current_player_index == pi,
                _ => false,
            },
        decreases state.buyer_display@.len() - j,
    {
        let g = state.buyer_display.get(j);
        if can_afford_buyer(player, &g.buyer) {
            proof {
                assert(spec_can_afford(
                    state.players@[pi as int],
                    state.buyer_display@[j as int].buyer,
                ));
            }
            return true;
        }
        j = j + 1;
    }
    false
}

/// The action-phase bookkeeping; the state must be in the action phase.
pub fn get_action_state(state: &GameState) -> (r: &ActionState)
    requires
        state.phase is Action,
    ensures
        state.phase == (GamePhase::Action { action_state: *r }),
{
    match &state.phase {
        GamePhase::Action { action_state } => action_state,
        _ => vstd::pervasive::unreached(),
    }
}

/// Borrow the action-phase bookkeeping for mutation.
pub fn get_action_state_mut(state: &mut GameState) -> (r: &mut ActionState)
    requires
        old(state).phase is Action,
    ensures
        old(state).phase == (GamePhase::Action { action_state: *r }),
        *final(state) == (GameState {
            phase: GamePhase::Action { action_state: *final(r) },
            ..*old(state)
        }),
{
    match &mut state.phase {
        GamePhase::Action { action_state } => action_state,
        _ => vstd::pervasive::unreached(),
    }
}

/// The cleanup-phase bookkeeping; the state must be in the cleanup phase.
pub fn get_cleanup_state(state: &GameState) -> (r: &CleanupState)
    requires
        state.phase is Cleanup,
    ensures
        state.phase == (GamePhase::Cleanup { cleanup_state: *r }),
{
    match &state.phase {
        GamePhase::Cleanup { cleanup_state } => cleanup_state,
        _ => vstd::pervasive::unreached(),
    }
}

/// Borrow the cleanup-phase bookkeeping for mutation.
pub fn get_cleanup_state_mut(state: &mut GameState) -> (r: &mut CleanupState)
    requires
        old(state).phase is Cleanup,
    ensures
        old(state).phase == (GamePhase::Cleanup { cleanup_state: *r }),
        *final(state) == (GameState {
            phase: GamePhase::Cleanup { cleanup_state: *final(r) },
            ..*old(state)
        }),
{
    match &mut state.phase {
        GamePhase::Cleanup { cleanup_state } => cleanup_state,
        _ => vstd::pervasive::unreached(),
    }
}

/// Enter the action phase: the round's starting player acts first with a
/// clean ability stack.
pub fn initialize_action_phase(state: &mut GameState)
    requires
        state_wf(*old(state)),
    ensures
        state_wf(*final(state)),
        final(state).phase is Action,
        final(state).players@ == old(state).players@,
        final(state).round == old(state).round,
        final(state).draft_deck == old(state).draft_deck,
        final(state).destroyed_pile == old(state).destroyed_pile,
        final(state).buyer_deck == old(state).buyer_deck,
        final(state).buyer_display@ == old(state).buyer_display@,
{
    let n = state.players.len();
    let start = ((state.round - 1) as usize) % n;
    let action_state = ActionState {
        current_player_index: start,
        ability_stack: Vec::new(),
        pending_choice: None,
        canonical_phase: 0,
    };
    state.phase = GamePhase::Action { action_state };
}

/// Destroy a drafted card for its printed ability: the card leaves the
/// player's drafted row for the destroyed pile and its ability resolves.
pub fn destroy_drafted_card(state: &mut GameState, card_instance_id: u32, rng: &mut SmallRng)
    requires
        state_wf(*old(state)),
        old(state).phase is Action,
        card_instance_id < 128,
        ({
            let a = match old(state).phase {
                GamePhase::Action { action_state } => action_state,
                _ => arbitrary(),
            };
            old(state).players@[a.current_player_index as int]
                .drafted_cards@.contains(card_instance_id as u8)
        }),
    ensures
        state_wf(*final(state)),
        final(state).phase is Action,
        // The card leaves play for the destroyed pile.
        final(state).destroyed_pile@
            == old(state).destroyed_pile@.insert(card_instance_id as u8),
        final(state).players@[({
            match old(state).phase {
                GamePhase::Action { action_state } => action_state.current_player_index as int,
                _ => arbitrary(),
            }
        })].drafted_cards@ == old(state).players@[({
            match old(state).phase {
                GamePhase::Action { action_state } => action_state.current_player_index as int,
                _ => arbitrary(),
            }
        })].drafted_cards@.remove(card_instance_id as u8),
{
    let id = card_instance_id as u8;
    let player_index = get_action_state(state).current_player_index;
    let mut player = state.players.get(player_index).duplicate();
    player.drafted_cards.remove(id);
    state.players.set(player_index, player);

    let card = state.card_lookup[id as usize];
    let ability = card.ability();
    state.destroyed_pile.insert(id);

    let as_ = get_action_state_mut(state);
    match ability_canonical_phase(&ability) {
        Some(phase) => {
            if phase > as_.canonical_phase {
                as_.canonical_phase = phase;
            }
        }
        None => {}
    }
    as_.ability_stack.push(ability);
    process_queue(state, rng);
}

/// Resolve queued abilities until one demands a decision or the stack
/// empties. Stays in the action phase with the same active player.
pub fn process_queue(state: &mut GameState, rng: &mut SmallRng)
    requires
        state_wf(*old(state)),
        old(state).phase is Action,
    ensures
        state_wf(*final(state)),
        final(state).phase is Action,
        // The queue never passes the turn: the same player is still acting.
        match (final(state).phase, old(state).phase) {
            (
                GamePhase::Action { action_state: a1 },
                GamePhase::Action { action_state: a0 },
            ) => a1.current_player_index == a0.current_player_index,
            _ => false,
        },
        // Resolving queued abilities never destroys cards by itself, and
        // never touches anyone's drafted row.
        final(state).destroyed_pile == old(state).destroyed_pile,
        final(state).players@.len() == old(state).players@.len(),
        forall|i: int| 0 <= i < final(state).players@.len()
            ==> (#[trigger] final(state).players@[i]).drafted_cards
                == old(state).players@[i].drafted_cards,
{
    let ghost pi0 = match old(state).phase {
        GamePhase::Action { action_state } => action_state.current_player_index,
        _ => arbitrary(),
    };
    loop
        invariant
            state_wf(*state),
            state.phase is Action,
            match state.phase {
                GamePhase::Action { action_state } => action_state.current_player_index == pi0,
                _ => false,
            },
            match old(state).phase {
                GamePhase::Action { action_state } => action_state.current_player_index == pi0,
                _ => false,
            },
            state.destroyed_pile == old(state).destroyed_pile,
            state.players@.len() == old(state).players@.len(),
            forall|i: int| 0 <= i < state.players@.len()
                ==> (#[trigger] state.players@[i]).drafted_cards
                    == old(state).players@[i].drafted_cards,
        decreases (match state.phase {
            GamePhase::Action { action_state } => action_state.ability_stack@.len(),
            _ => 0,
        }),
    {
        let pending = get_action_state(state).pending_choice.is_some();
        if pending {
            return;
        }
        if get_action_state(state).ability_stack.len() == 0 {
            return;
        }

        let as_ = get_action_state_mut(state);
        let ability = as_.ability_stack.pop().unwrap();
        let player_index = get_action_state(state).current_player_index;

        match ability {
            Ability::DrawCards { count } => {
                let mut player = state.players.get(player_index).duplicate();
                let mut deck = player.deck;
                let mut discard = player.discard;
                let mut workshop = player.workshop_cards;
                draw_from_deck(&mut deck, &mut discard, &mut workshop, count as usize, rng);
                player.deck = deck;
                player.discard = discard;
                player.workshop_cards = workshop;
                state.players.set(player_index, player);
            }
            Ability::Workshop { count } => {
                if state.players.get(player_index).workshop_cards.is_empty() {
                    // Nothing to work with; the ability fizzles.
                } else {
                    get_action_state_mut(state).pending_choice =
                        Some(PendingChoice::ChooseCardsForWorkshop { count });
                    return;
                }
            }
            Ability::GainDucats { count } => {
                let mut player = state.players.get(player_index).duplicate();
                player.ducats = add_saturating(player.ducats, count);
                player.cached_score = add_saturating(player.cached_score, count);
                state.players.set(player_index, player);
            }
            Ability::MixColors { count } => {
                get_action_state_mut(state).pending_choice =
                    Some(PendingChoice::ChooseMix { remaining: count });
                return;
            }
            Ability::DestroyCards { count } => {
                get_action_state_mut(state).pending_choice =
                    Some(PendingChoice::ChooseCardsToDestroy { count });
                return;
            }
            Ability::Sell => {
                if can_sell_to_any_buyer(state) {
                    get_action_state_mut(state).pending_choice = Some(PendingChoice::ChooseBuyer);
                    return;
                }
            }
            Ability::GainSecondary => {
                get_action_state_mut(state).pending_choice =
                    Some(PendingChoice::ChooseSecondaryColor);
                return;
            }
            Ability::GainPrimary => {
                get_action_state_mut(state).pending_choice =
                    Some(PendingChoice::ChoosePrimaryColor);
                return;
            }
            Ability::ChangeTertiary => {
                let player = state.players.get(player_index);
                let mut has_tertiary = false;
                let mut t: usize = 0;
                while t < 6
                    invariant
                        t <= 6,
                    decreases 6 - t,
                {
                    if player.color_wheel.get(TERTIARIES[t]) > 0 {
                        has_tertiary = true;
                    }
                    t = t + 1;
                }
                if has_tertiary {
                    get_action_state_mut(state).pending_choice =
                        Some(PendingChoice::ChooseTertiaryToLose);
                    return;
                }
            }
        }
    }
}

/// Spend selected workshop cards: non-action cards yield their materials and
/// pips; action cards queue their workshop abilities, with draw effects and
/// carried-over workshop capacity ordered so draws resolve first.
pub fn resolve_workshop_choice(
    state: &mut GameState,
    selected_cards: UnorderedCards,
    rng: &mut SmallRng,
)
    requires
        state_wf(*old(state)),
        ({
            let a = match old(state).phase {
                GamePhase::Action { action_state } => Option::Some(action_state),
                _ => Option::<ActionState>::None,
            };
            a is Some && a.unwrap().pending_choice matches Option::Some(
                PendingChoice::ChooseCardsForWorkshop { .. })
        }),
    ensures
        state_wf(*final(state)),
        final(state).phase is Action,
{
    let as_ = get_action_state(state);
    let count = match &as_.pending_choice {
        Some(PendingChoice::ChooseCardsForWorkshop { count }) => *count,
        _ => vstd::pervasive::unreached(),
    };
    let player_index = as_.current_player_index;
    let selected_len = selected_cards.len();
    let remaining: u32 = if selected_len >= count { 0 } else { count - selected_len };

    let ids = selected_cards.members();

    let mut player = state.players.get(player_index).duplicate();
    let mut regular_abilities: Vec<Ability> = Vec::new();
    let mut cot_abilities: Vec<Ability> = Vec::new();
    let mut vinegar_abilities: Vec<Ability> = Vec::new();
    let mut potash_base_count: u32 = 0;
    let mut has_potash = false;
    let mut has_cot = false;

    let mut k: usize = 0;
    while k < ids.len()
        invariant
            k <= ids@.len(),
            forall|l: int| 0 <= l < ids@.len() ==> #[trigger] ids@[l] < 128,
        decreases ids@.len() - k,
    {
        let id = ids[k];
        let card = state.card_lookup[id as usize];
        player.workshop_cards.remove(id);
        if card.is_action() {
            let abilities = card.workshop_abilities();
            let mut w: usize = 0;
            while w < abilities.len()
                invariant
                    w <= abilities@.len(),
                decreases abilities@.len() - w,
            {
                let ability = abilities[w];
                match ability {
                    Ability::ChangeTertiary => {
                        vinegar_abilities.push(ability);
                    }
                    Ability::Workshop { count: c } => {
                        potash_base_count = add_saturating(potash_base_count, c);
                        has_potash = true;
                    }
                    Ability::DrawCards { .. } => {
                        has_cot = true;
                        cot_abilities.push(ability);
                    }
                    _ => {
                        regular_abilities.push(ability);
                    }
                }
                w = w + 1;
            }
        } else {
            let materials = card.material_types();
            let mut m: usize = 0;
            while m < materials.len()
                invariant
                    m <= materials@.len(),
                decreases materials@.len() - m,
            {
                player.materials.increment(materials[m]);
                m = m + 1;
            }
            let pips = card.pips();
            let mut p: usize = 0;
            while p < pips.len()
                invariant
                    p <= pips@.len(),
                decreases pips@.len() - p,
            {
                store_color(&mut player.color_wheel, pips[p]);
                p = p + 1;
            }
        }
        player.used_cards.insert(id);
        k = k + 1;
    }
    state.players.set(player_index, player);

    // Clear the pending choice and queue the collected abilities in
    // last-in-first-out resolution order.
    get_action_state_mut(state).pending_choice = None;

    if has_potash {
        let potash_count = if has_cot {
            potash_base_count
        } else {
            add_saturating(potash_base_count, remaining)
        };
        let as_ = get_action_state_mut(state);
        as_.ability_stack.push(Ability::Workshop { count: potash_count });
    }

    let mut v: usize = 0;
    while v < vinegar_abilities.len()
        invariant
            v <= vinegar_abilities@.len(),
            state_wf(*state),
            state.phase is Action,
        decreases vinegar_abilities@.len() - v,
    {
        let ability = vinegar_abilities[v];
        let as_ = get_action_state_mut(state);
        as_.ability_stack.push(ability);
        v = v + 1;
    }

    if has_cot && remaining > 0 {
        let as_ = get_action_state_mut(state);
        as_.ability_stack.push(Ability::Workshop { count: remaining });
    }

    let mut c: usize = 0;
    while c < cot_abilities.len()
        invariant
            c <= cot_abilities@.len(),
            state_wf(*state),
            state.phase is Action,
        decreases cot_abilities@.len() - c,
    {
        let ability = cot_abilities[c];
        let as_ = get_action_state_mut(state);
        as_.ability_stack.push(ability);
        c = c + 1;
    }

    let mut r: usize = 0;
    while r < regular_abilities.len()
        invariant
            r <= regular_abilities@.len(),
            state_wf(*state),
            state.phase is Action,
        decreases regular_abilities@.len() - r,
    {
        let ability = regular_abilities[r];
        let as_ = get_action_state_mut(state);
        as_.ability_stack.push(ability);
        r = r + 1;
    }

    process_queue(state, rng);
}

/// Decline a pending workshop choice and resolve what remains queued.
pub fn skip_workshop(state: &mut GameState, rng: &mut SmallRng)
    requires
        state_wf(*old(state)),
        old(state).phase is Action,
    ensures
        state_wf(*final(state)),
        final(state).phase is Action,
{
    get_action_state_mut(state).pending_choice = None;
    process_queue(state, rng);
}

/// Mix two colors for a pending mix choice; one fewer mix remains.
/// The pair must be mixable and both pips present.
pub fn resolve_mix_colors(state: &mut GameState, color_a: Color, color_b: Color, rng: &mut SmallRng)
    requires
        state_wf(*old(state)),
        old(state).phase is Action,
        crate::colors::spec_can_mix(color_a, color_b),
        ({
            let a = match old(state).phase {
                GamePhase::Action { action_state } => action_state,
                _ => arbitrary(),
            };
            let w = old(state).players@[a.current_player_index as int].color_wheel;
            w.counts@[color_index(color_a)] > 0 && w.counts@[color_index(color_b)] > 0
        }),
    ensures
        state_wf(*final(state)),
        final(state).phase is Action,
{
    let player_index = get_action_state(state).current_player_index;
    let mut player = state.players.get(player_index).duplicate();
    let success = crate::color_wheel::perform_mix(&mut player.color_wheel, color_a, color_b);
    state.players.set(player_index, player);

    finish_one_mix(state, rng);
}

/// Mix two colors for a pending mix choice without re-checking mixability;
/// the caller guarantees the pair is valid and both pips are present.
pub fn resolve_mix_colors_unchecked(
    state: &mut GameState,
    color_a: Color,
    color_b: Color,
    rng: &mut SmallRng,
)
    requires
        state_wf(*old(state)),
        old(state).phase is Action,
        color_a != color_b,
        ({
            let a = match old(state).phase {
                GamePhase::Action { action_state } => action_state,
                _ => arbitrary(),
            };
            let w = old(state).players@[a.current_player_index as int].color_wheel;
            w.counts@[color_index(color_a)] > 0 && w.counts@[color_index(color_b)] > 0
        }),
    ensures
        state_wf(*final(state)),
        final(state).phase is Action,
{
    let player_index = get_action_state(state).current_player_index;
    let mut player = state.players.get(player_index).duplicate();
    crate::color_wheel::perform_mix_unchecked(&mut player.color_wheel, color_a, color_b);
    state.players.set(player_index, player);

    finish_one_mix(state, rng);
}

/// After one mix, either one fewer mix remains pending or the choice is
/// done and the queue resolves.
fn finish_one_mix(state: &mut GameState, rng: &mut SmallRng)
    requires
        state_wf(*old(state)),
        old(state).phase is Action,
    ensures
        state_wf(*final(state)),
        final(state).phase is Action,
{
    let new_remaining: u32 = {
        let as_ = get_action_state(state);
        match &as_.pending_choice {
            Some(PendingChoice::ChooseMix { remaining }) => {
                if *remaining > 0 { *remaining - 1 } else { 0 }
            }
            _ => 0,
        }
    };

    if new_remaining > 0 {
        get_action_state_mut(state).pending_choice =
            Some(PendingChoice::ChooseMix { remaining: new_remaining });
    } else {
        get_action_state_mut(state).pending_choice = None;
    }

    process_queue(state, rng);
}

/// Decline the rest of a pending mix choice and resolve what remains queued.
pub fn skip_mix(state: &mut GameState, rng: &mut SmallRng)
    requires
        state_wf(*old(state)),
        old(state).phase is Action,
    ensures
        state_wf(*final(state)),
        final(state).phase is Action,
{
    get_action_state_mut(state).pending_choice = None;
    process_queue(state, rng);
}

/// Destroy selected workshop cards for their printed abilities.
pub fn resolve_destroy_cards(
    state: &mut GameState,
    selected_cards: UnorderedCards,
    rng: &mut SmallRng,
)
    requires
        state_wf(*old(state)),
        old(state).phase is Action,
        ({
            let a = match old(state).phase {
                GamePhase::Action { action_state } => action_state,
                _ => arbitrary(),
            };
            selected_cards@.subset_of(
                old(state).players@[a.current_player_index as int].workshop_cards@,
            )
        }),
    ensures
        state_wf(*final(state)),
        final(state).phase is Action,
{
    let player_index = get_action_state(state).current_player_index;
    let ids = selected_cards.members();

    let mut player = state.players.get(player_index).duplicate();
    let mut abilities: Vec<Ability> = Vec::new();
    let mut k: usize = 0;
    while k < ids.len()
        invariant
            k <= ids@.len(),
            forall|l: int| 0 <= l < ids@.len() ==> #[trigger] ids@[l] < 128,
            state_wf(*state),
            state.phase is Action,
            player_index < state.players@.len(),
        decreases ids@.len() - k,
    {
        let id = ids[k];
        player.workshop_cards.remove(id);
        let card = state.card_lookup[id as usize];
        abilities.push(card.ability());
        state.destroyed_pile.insert(id);
        k = k + 1;
    }
    state.players.set(player_index, player);

    let mut a: usize = 0;
    while a < abilities.len()
        invariant
            a <= abilities@.len(),
            state_wf(*state),
            state.phase is Action,
        decreases abilities@.len() - a,
    {
        let ability = abilities[a];
        let as_ = get_action_state_mut(state);
        as_.ability_stack.push(ability);
        a = a + 1;
    }

    get_action_state_mut(state).pending_choice = None;
    process_queue(state, rng);
}

/// Serve a buyer: spend the demanded material and color pips, bank the
/// stars, and refill the display from the buyer deck.
pub fn resolve_select_buyer(state: &mut GameState, buyer_instance_id: u32, rng: &mut SmallRng)
    requires
        state_wf(*old(state)),
        old(state).phase is Action,
    ensures
        state_wf(*final(state)),
        final(state).phase is Action,
{
    let player_index = get_action_state(state).current_player_index;

    // Find the buyer in the display.
    let mut buyer_index: usize = 0;
    let mut found = false;
    let mut j: usize = 0;
    while j < state.buyer_display.len()
        invariant
            j <= state.buyer_display@.len(),
            found ==> buyer_index < state.buyer_display@.len()
                && state.buyer_display@[buyer_index as int].instance_id == buyer_instance_id
                && spec_can_afford(
                    state.players@[player_index as int],
                    state.buyer_display@[buyer_index as int].buyer,
                ),
            player_index < state.players@.len(),
        decreases state.buyer_display@.len() - j,
    {
        if !found {
            let g = state.buyer_display.get(j);
            if g.instance_id == buyer_instance_id {
                let afford = can_afford_buyer(state.players.get(player_index), &g.buyer);
                if afford {
                    buyer_index = j;
                    found = true;
                }
            }
        }
        j = j + 1;
    }
    if !found {
        // No affordable buyer with this id is on display; leave the state
        // as it stands rather than corrupt it.
        return;
    }

    let buyer = state.buyer_display.swap_remove(buyer_index);

    let mut player = state.players.get(player_index).duplicate();
    player.materials.decrement(buyer.buyer.required_material());
    let cost = buyer.buyer.color_cost();
    pay_cost(&mut player.color_wheel, &cost);
    player.cached_score = add_saturating(player.cached_score, buyer.buyer.stars());
    player.completed_buyers.push(buyer);
    state.players.set(player_index, player);

    // Refill the buyer display from the buyer deck.
    let mut deck = state.buyer_deck;
    let drawn = deck.draw(rng);
    state.buyer_deck = deck;
    match drawn {
        Some(id) => {
            if state.buyer_display.len() < crate::MAX_BUYER_DISPLAY {
                let b = BuyerInstance {
                    instance_id: id as u32,
                    buyer: state.buyer_lookup[id as usize],
                };
                state.buyer_display.push(b);
            }
        }
        None => {}
    }

    get_action_state_mut(state).pending_choice = None;
    process_queue(state, rng);
}

/// Gain a chosen secondary color pip.
pub fn resolve_gain_secondary(state: &mut GameState, color: Color, rng: &mut SmallRng)
    requires
        state_wf(*old(state)),
        old(state).phase is Action,
    ensures
        state_wf(*final(state)),
        final(state).phase is Action,
{
    let player_index = get_action_state(state).current_player_index;
    let mut player = state.players.get(player_index).duplicate();
    store_color(&mut player.color_wheel, color);
    state.players.set(player_index, player);
    get_action_state_mut(state).pending_choice = None;
    process_queue(state, rng);
}

/// Gain a chosen primary color pip.
pub fn resolve_gain_primary(state: &mut GameState, color: Color, rng: &mut SmallRng)
    requires
        state_wf(*old(state)),
        old(state).phase is Action,
    ensures
        state_wf(*final(state)),
        final(state).phase is Action,
{
    let player_index = get_action_state(state).current_player_index;
    let mut player = state.players.get(player_index).duplicate();
    store_color(&mut player.color_wheel, color);
    state.players.set(player_index, player);
    get_action_state_mut(state).pending_choice = None;
    process_queue(state, rng);
}

/// Give up the chosen tertiary color pip; the replacement follows in
/// `resolve_choose_tertiary_to_gain`.
pub fn resolve_choose_tertiary_to_lose(state: &mut GameState, color: Color)
    requires
        state_wf(*old(state)),
        old(state).phase is Action,
    ensures
        state_wf(*final(state)),
        final(state).phase is Action,
        // Exactly one pip of the chosen color leaves the active player's
        // wheel (when one is there); nothing else moves.
        ({
            let pi = match old(state).phase {
                GamePhase::Action { action_state } => action_state.current_player_index as int,
                _ => arbitrary(),
            };
            let w0 = old(state).players@[pi].color_wheel.counts@;
            let w1 = final(state).players@[pi].color_wheel.counts@;
            &&& (w0[color_index(color)] > 0
                ==> w1 == w0.update(
                    color_index(color), (w0[color_index(color)] - 1) as u32))
            &&& (w0[color_index(color)] == 0 ==> w1 == w0)
            &&& player_eq_except_wheel(
                final(state).players@[pi], old(state).players@[pi])
            &&& forall|k: int| 0 <= k < final(state).players@.len() && k != pi
                ==> #[trigger] final(state).players@[k] == old(state).players@[k]
        }),
        final(state).players@.len() == old(state).players@.len(),
        phase_eq(final(state).phase, old(state).phase),
        final(state).draft_deck == old(state).draft_deck,
        final(state).destroyed_pile == old(state).destroyed_pile,
        final(state).buyer_deck == old(state).buyer_deck,
        final(state).buyer_display@ == old(state).buyer_display@,
        final(state).round == old(state).round,
{
    let player_index = get_action_state(state).current_player_index;
    let mut player = state.players.get(player_index).duplicate();
    remove_color(&mut player.color_wheel, color);
    state.players.set(player_index, player);
}

/// Gain the chosen replacement tertiary color pip.
pub fn resolve_choose_tertiary_to_gain(state: &mut GameState, color: Color, rng: &mut SmallRng)
    requires
        state_wf(*old(state)),
        old(state).phase is Action,
    ensures
        state_wf(*final(state)),
        final(state).phase is Action,
{
    let player_index = get_action_state(state).current_player_index;
    let mut player = state.players.get(player_index).duplicate();
    store_color(&mut player.color_wheel, color);
    state.players.set(player_index, player);
    get_action_state_mut(state).pending_choice = None;
    process_queue(state, rng);
}

/// End the active player's turn: leftover drafted and used cards go to the
/// discard pile; when the turn passes back to the round's starting player
/// the round moves on to cleanup or ends.
pub fn end_player_turn(state: &mut GameState, rng: &mut SmallRng)
    requires
        state_wf(*old(state)),
        old(state).phase is Action,
    ensures
        state_wf(*final(state)),
{
    let player_index = get_action_state(state).current_player_index;
    let mut player = state.players.get(player_index).duplicate();
    player.discard = player.discard.union(player.drafted_cards).union(player.used_cards);
    player.drafted_cards = UnorderedCards::new();
    player.used_cards = UnorderedCards::new();
    state.players.set(player_index, player);

    let num_players = state.players.len();
    let starting_player = ((state.round - 1) as usize) % num_players;

    let next = (player_index + 1) % num_players;
    {
        let as_ = get_action_state_mut(state);
        as_.current_player_index = next;
    }

    if next == starting_player {
        let mut is_last_round = state.round >= 10;
        let mut i: usize = 0;
        while i < state.players.len()
            invariant
                i <= state.players@.len(),
            decreases state.players@.len() - i,
        {
            if state.players.get(i).cached_score >= 15 {
                is_last_round = true;
            }
            i = i + 1;
        }
        if is_last_round {
            end_round(state, rng);
        } else {
            initialize_cleanup_phase(state, rng);
        }
    } else {
        let as_ = get_action_state_mut(state);
        as_.ability_stack = Vec::new();
        as_.pending_choice = None;
        as_.canonical_phase = 0;
    }
}

/// Close the round: the game ends once a player has 15 stars or ten rounds
/// are done; otherwise the next round starts with its draw phase.
pub fn end_round(state: &mut GameState, _rng: &mut SmallRng)
    requires
        state_wf(*old(state)),
    ensures
        state_wf(*final(state)),
        final(state).phase is GameOver || final(state).phase is Draw,
{
    if state.round < u32::MAX {
        state.round = state.round + 1;
    }
    let mut any_reached_15 = false;
    let mut i: usize = 0;
    while i < state.players.len()
        invariant
            i <= state.players@.len(),
        decreases state.players@.len() - i,
    {
        if state.players.get(i).cached_score >= 15 {
            any_reached_15 = true;
        }
        i = i + 1;
    }
    if any_reached_15 || state.round > 10 {
        state.phase = GamePhase::GameOver;
    } else {
        state.phase = GamePhase::Draw;
    }
}

/// Enter the cleanup phase, starting from the round's starting player and
/// skipping players with nothing in their workshop.
pub fn initialize_cleanup_phase(state: &mut GameState, rng: &mut SmallRng)
    requires
        state_wf(*old(state)),
    ensures
        state_wf(*final(state)),
{
    let num_players = state.players.len();
    let starting_player = ((state.round - 1) as usize) % num_players;
    state.phase = GamePhase::Cleanup {
        cleanup_state: CleanupState { current_player_index: starting_player },
    };
    advance_cleanup_to_next_nonempty(state, rng);
}

/// Walk the cleanup order forward to the next player who still holds
/// workshop cards; if none remains, the round ends.
fn advance_cleanup_to_next_nonempty(state: &mut GameState, rng: &mut SmallRng)
    requires
        state_wf(*old(state)),
        old(state).phase is Cleanup,
    ensures
        state_wf(*final(state)),
{
    let num_players = state.players.len();
    let starting_player = ((state.round - 1) as usize) % num_players;
    let mut steps: usize = 0;
    while steps < num_players
        invariant
            state_wf(*state),
            state.phase is Cleanup,
            num_players == state.players@.len(),
            steps <= num_players,
        decreases num_players - steps,
    {
        let current = get_cleanup_state(state).current_player_index;
        if !state.players.get(current).workshop_cards.is_empty() {
            return;
        }
        let next = (current + 1) % num_players;
        if next == starting_player {
            end_round(state, rng);
            return;
        }
        get_cleanup_state_mut(state).current_player_index = next;
        steps = steps + 1;
    }
    // Every player was visited without reaching the starting player again,
    // which the modular walk rules out; close the round for safety.
    end_round(state, rng);
}

/// Keep the chosen workshop cards and discard the rest, then pass cleanup
/// to the next player or end the round.
pub fn resolve_keep_workshop_cards(
    state: &mut GameState,
    keep_ids: UnorderedCards,
    rng: &mut SmallRng,
)
    requires
        state_wf(*old(state)),
        old(state).phase is Cleanup,
        ({
            let c = match old(state).phase {
                GamePhase::Cleanup { cleanup_state } => cleanup_state,
                _ => arbitrary(),
            };
            keep_ids@.subset_of(
                old(state).players@[c.current_player_index as int].workshop_cards@,
            )
        }),
    ensures
        state_wf(*final(state)),
{
    let current = get_cleanup_state(state).current_player_index;
    let mut player = state.players.get(current).duplicate();
    let to_discard = player.workshop_cards.difference(keep_ids);
    player.discard = player.discard.union(to_discard);
    player.workshop_cards = keep_ids;
    state.players.set(current, player);

    let num_players = state.players.len();
    let starting_player = ((state.round - 1) as usize) % num_players;
    let next = (current + 1) % num_players;
    if next == starting_player {
        end_round(state, rng);
    } else {
        get_cleanup_state_mut(state).current_player_index = next;
        advance_cleanup_to_next_nonempty(state, rng);
    }
}

/// Mix two colors for a pending mix choice when the pair is valid and both
/// pips are present; an invalid pair leaves the wheel alone. Either way one
/// fewer mix remains pending.
pub fn resolve_mix_colors_checked(
    state: &mut GameState,
    color_a: Color,
    color_b: Color,
    rng: &mut SmallRng,
)
    requires
        state_wf(*old(state)),
        old(state).phase is Action,
    ensures
        state_wf(*final(state)),
        final(state).phase is Action,
{
    let player_index = get_action_state(state).current_player_index;
    let mut player = state.players.get(player_index).duplicate();
    crate::color_wheel::perform_mix(&mut player.color_wheel, color_a, color_b);
    state.players.set(player_index, player);

    let new_remaining: u32 = {
        let as_ = get_action_state(state);
        match &as_.pending_choice {
            Some(PendingChoice::ChooseMix { remaining }) => {
                if *remaining > 0 { *remaining - 1 } else { 0 }
            }
            _ => 0,
        }
    };
    if new_remaining > 0 {
        get_action_state_mut(state).pending_choice =
            Some(PendingChoice::ChooseMix { remaining: new_remaining });
    } else {
        get_action_state_mut(state).pending_choice = None;
    }
    process_queue(state, rng);
}

} // verus!
