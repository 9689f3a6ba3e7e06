//! The draft phase: dealing hands, picking cards, and passing hands around
//! the table.

use vstd::prelude::*;
use crate::action_phase::initialize_action_phase;
use crate::types::{DraftState, GamePhase, GameState, state_wf};
use crate::unordered_cards::UnorderedCards;
use crate::MAX_PLAYERS;
use rand::rngs::SmallRng;

verus! {

/// The draft bookkeeping, copied out; the state must be in the draft phase.
pub fn get_draft_state(state: &GameState) -> (r: DraftState)
    requires
        state.phase is Draft,
    ensures
        state.phase == (GamePhase::Draft { draft_state: r }),
{
    match &state.phase {
        GamePhase::Draft { draft_state } => *draft_state,
        _ => vstd::pervasive::unreached(),
    }
}

/// Deal a five-card hand to every player from the draft deck, refilling the
/// deck from the destroyed pile when it runs dry. If some hand would still
/// be empty, the leftovers are destroyed and the round skips straight to
/// the action phase. No card appears or vanishes: the dealt hands and the
/// two piles together hold exactly what the two piles held before.
pub fn initialize_draft(state: &mut GameState, rng: &mut SmallRng)
    requires
        state_wf(*old(state)),
    ensures
        state_wf(*final(state)),
        // Conservation: whatever was dealt plus what remains in the piles
        // is the original stock.
        (match final(state).phase {
            GamePhase::Draft { draft_state } =>
                crate::colori_game::hands_union(
                    draft_state.hands@, draft_state.num_hands as int),
            _ => Set::<u8>::empty(),
        }).union(final(state).draft_deck@).union(final(state).destroyed_pile@)
            == old(state).draft_deck@.union(old(state).destroyed_pile@),
        // The draft either starts properly or is skipped for the action
        // phase; a started draft begins at pick zero with the round's
        // starting player and nonempty hands.
        final(state).phase is Draft || final(state).phase is Action,
        match final(state).phase {
            GamePhase::Draft { draft_state } => {
                &&& draft_state.pick_number == 0
                &&& !draft_state.waiting_for_pass
                &&& draft_state.num_hands == old(state).players@.len()
                &&& draft_state.current_player_index
                    == ((old(state).round - 1) as int) % (old(state).players@.len() as int)
                &&& draft_state.direction
                    == if old(state).round % 2 == 1 { 1int } else { -1int }
                &&& forall|k: int| 0 <= k < draft_state.num_hands
                    ==> (#[trigger] draft_state.hands@[k])@ != Set::<u8>::empty()
            }
            _ => true,
        },
        // With distinct cards in the piles, the dealt hands are pairwise
        // disjoint.
        old(state).draft_deck@.disjoint(old(state).destroyed_pile@)
            ==> match final(state).phase {
                GamePhase::Draft { draft_state } => crate::colori_game::hands_pairwise_disjoint(
                    draft_state.hands@, draft_state.num_hands as int),
                _ => true,
            },
        // A stock that covers everyone deals exactly five cards per hand.
        old(state).draft_deck@.len() >= 5 * old(state).players@.len()
            ==> match final(state).phase {
                GamePhase::Draft { draft_state } => forall|k: int|
                    0 <= k < draft_state.num_hands
                        ==> (#[trigger] draft_state.hands@[k])@.len() == 5,
                _ => false,
            },
        final(state).players@ == old(state).players@,
        final(state).round == old(state).round,
{
    let num_players = state.players.len();
    let mut hands: [UnorderedCards; 4] = [UnorderedCards::new(); 4];

    let ghost stock0 = state.draft_deck@.union(state.destroyed_pile@);
    let ghost deck0_len = state.draft_deck@.len();
    let ghost dj = state.draft_deck@.disjoint(state.destroyed_pile@);
    let ghost plenty = state.draft_deck@.len() >= 5 * num_players;
    proof {
        crate::unordered_cards::lemma_popcount_is_len(state.draft_deck.0);
        crate::unordered_cards::lemma_popcount_is_len(state.destroyed_pile.0);
        assert(crate::colori_game::hands_union(hands@, 0) =~= Set::<u8>::empty());
    }

    let mut i: usize = 0;
    while i < num_players
        invariant
            i <= num_players,
            num_players <= MAX_PLAYERS,
            num_players == state.players@.len(),
            state_wf(*state),
            state.players@ == old(state).players@,
            state.round == old(state).round,
            hands@.len() == 4,
            forall|k: int| i <= k < 4 ==> (#[trigger] hands@[k])@ == Set::<u8>::empty(),
            crate::colori_game::hands_union(hands@, i as int)
                .union(state.draft_deck@).union(state.destroyed_pile@) == stock0,
            dj ==> state.draft_deck@.disjoint(state.destroyed_pile@),
            dj ==> crate::colori_game::hands_pairwise_disjoint(hands@, i as int),
            dj ==> forall|k: int| 0 <= k < i
                ==> state.draft_deck@.disjoint((#[trigger] hands@[k])@)
                    && state.destroyed_pile@.disjoint(hands@[k]@),
            plenty == (deck0_len >= 5 * num_players),
            plenty ==> state.draft_deck@.len() == deck0_len - 5 * i
                && state.destroyed_pile@ == old(state).destroyed_pile@,
            plenty ==> forall|k: int| 0 <= k < i ==> (#[trigger] hands@[k])@.len() == 5,
        decreases num_players - i,
    {
        proof {
            crate::unordered_cards::lemma_popcount_is_len(state.draft_deck.0);
            if plenty {
                assert(state.draft_deck@.len() >= 5);
            }
        }
        let ghost hands_before = hands@;
        let ghost deck_before = state.draft_deck@;
        let ghost dest_before = state.destroyed_pile@;
        let deck_len = state.draft_deck.len();
        if deck_len >= 5 {
            let mut deck = state.draft_deck;
            let hand = deck.draw_multiple(5, rng);
            proof {
                crate::unordered_cards::lemma_popcount_is_len(deck.0);
                crate::unordered_cards::lemma_popcount_is_len(hand.0);
                assert(hand@.union(deck@) =~= deck_before);
                assert(hand@.disjoint(deck@));
                crate::colori_game::lemma_len_disjoint_union(hand@, deck@);
            }
            state.draft_deck = deck;
            hands[i] = hand;
        } else {
            // Take everything left in the deck.
            hands[i] = state.draft_deck;
            state.draft_deck = UnorderedCards::new();
            let remaining = 5 - deck_len;
            if remaining > 0 {
                if state.draft_deck.is_empty() && !state.destroyed_pile.is_empty() {
                    state.draft_deck = state.destroyed_pile;
                    state.destroyed_pile = UnorderedCards::new();
                }
                let deck_now = state.draft_deck.len();
                let available = if deck_now < remaining { deck_now } else { remaining };
                if available > 0 {
                    let mut deck = state.draft_deck;
                    let drawn = deck.draw_multiple(available, rng);
                    state.draft_deck = deck;
                    hands[i] = hands[i].union(drawn);
                }
            }
        }
        proof {
            assert(hands@ == hands_before.update(i as int, hands@[i as int]));
            crate::colori_game::lemma_hands_union_update_public(
                hands_before, 4, i as int, hands@[i as int]);
            assert(crate::colori_game::hands_union(hands@, i as int + 1)
                == crate::colori_game::hands_union(hands@, i as int)
                    .union(hands@[i as int]@));
            assert(crate::colori_game::hands_union(hands@, i as int)
                == crate::colori_game::hands_union(hands_before, i as int)) by {
                crate::colori_game::lemma_hands_union_prefix_public(
                    hands@, hands_before, i as int);
            }
            assert(crate::colori_game::hands_union(hands@, i as int + 1)
                .union(state.draft_deck@).union(state.destroyed_pile@) =~= stock0);
            if dj {
                assert forall|a: int, b: int| 0 <= a < b < i as int + 1
                    implies (#[trigger] hands@[a])@.disjoint((#[trigger] hands@[b])@) by {
                    if b < i as int {
                        assert(hands@[a] == hands_before[a]);
                        assert(hands@[b] == hands_before[b]);
                    } else {
                        assert(hands@[a] == hands_before[a]);
                        assert(deck_before.disjoint(hands_before[a]@));
                        assert(dest_before.disjoint(hands_before[a]@));
                        assert(hands@[b]@.subset_of(deck_before.union(dest_before)));
                    }
                }
                assert forall|k: int| 0 <= k < i as int + 1
                    implies state.draft_deck@.disjoint((#[trigger] hands@[k])@)
                        && state.destroyed_pile@.disjoint(hands@[k]@) by {
                    if k < i as int {
                        assert(hands@[k] == hands_before[k]);
                        assert(state.draft_deck@.subset_of(deck_before.union(dest_before)));
                        assert(state.destroyed_pile@.subset_of(dest_before));
                    }
                }
            }
        }
        i = i + 1;
    }

    let mut any_empty = false;
    let mut j: usize = 0;
    while j < num_players
        invariant
            j <= num_players,
            num_players <= MAX_PLAYERS,
            hands@.len() == 4,
            !any_empty ==> forall|k: int| 0 <= k < j
                ==> (#[trigger] hands@[k])@ != Set::<u8>::empty(),
            plenty ==> forall|k: int| 0 <= k < num_players
                ==> (#[trigger] hands@[k])@.len() == 5,
            plenty ==> !any_empty,
        decreases num_players - j,
    {
        if hands[j].is_empty() {
            proof {
                if plenty {
                    assert(hands@[j as int]@.len() == 5);
                    assert(hands@[j as int]@ == Set::<u8>::empty());
                    assert(Set::<u8>::empty().len() == 0);
                }
            }
            any_empty = true;
        }
        j = j + 1;
    }

    if any_empty {
        let mut k: usize = 0;
        while k < num_players
            invariant
                k <= num_players,
                num_players <= MAX_PLAYERS,
                hands@.len() == 4,
                state_wf(*state),
                state.players@ == old(state).players@,
                state.round == old(state).round,
                crate::colori_game::hands_union(hands@, num_players as int)
                    .union(state.draft_deck@).union(state.destroyed_pile@) == stock0,
                crate::colori_game::hands_union(hands@, k as int)
                    .subset_of(state.destroyed_pile@),
            decreases num_players - k,
        {
            state.destroyed_pile = state.destroyed_pile.union(hands[k]);
            proof {
                assert(crate::colori_game::hands_union(hands@, k as int + 1)
                    .subset_of(state.destroyed_pile@));
                crate::colori_game::lemma_hands_union_member(
                    hands@, num_players as int, k as int);
                assert(crate::colori_game::hands_union(hands@, num_players as int)
                    .union(state.draft_deck@).union(state.destroyed_pile@) =~= stock0);
            }
            k = k + 1;
        }
        proof {
            assert(state.draft_deck@.union(state.destroyed_pile@) =~= stock0) by {
                assert(crate::colori_game::hands_union(hands@, num_players as int)
                    .subset_of(state.destroyed_pile@));
            }
            assert(Set::<u8>::empty().union(state.draft_deck@).union(state.destroyed_pile@)
                =~= stock0);
        }
        initialize_action_phase(state);
        return;
    }

    let start = ((state.round - 1) as usize) % num_players;
    let draft_state = DraftState {
        pick_number: 0,
        current_player_index: start,
        hands,
        num_hands: num_players,
        direction: if state.round % 2 == 1 { 1 } else { -1 },
        waiting_for_pass: false,
    };
    state.phase = GamePhase::Draft { draft_state };
}

/// The active player takes a card from their draft hand into their drafted
/// row; when everyone has picked this round, hands rotate, otherwise the
/// state waits for the pass to be confirmed.
pub fn player_pick(state: &mut GameState, card_instance_id: u32)
    requires
        state_wf(*old(state)),
        old(state).phase is Draft,
        card_instance_id < 128,
        ({
            match old(state).phase {
                GamePhase::Draft { draft_state } => draft_state.hands@[
                    draft_state.current_player_index as int
                ]@.contains(card_instance_id as u8),
                _ => false,
            }
        }),
    ensures
        state_wf(*final(state)),
        // The picked card joins the picking player's drafted row.
        final(state).players@[({
            match old(state).phase {
                GamePhase::Draft { draft_state } => draft_state.current_player_index as int,
                _ => arbitrary(),
            }
        })].drafted_cards@ == old(state).players@[({
            match old(state).phase {
                GamePhase::Draft { draft_state } => draft_state.current_player_index as int,
                _ => arbitrary(),
            }
        })].drafted_cards@.insert(card_instance_id as u8),
        // Everyone else's cards, the piles and the round stand.
        forall|k: int| 0 <= k < final(state).players@.len()
            && k != (match old(state).phase {
                GamePhase::Draft { draft_state } => draft_state.current_player_index as int,
                _ => arbitrary(),
            })
            ==> #[trigger] final(state).players@[k] == old(state).players@[k],
        final(state).players@.len() == old(state).players@.len(),
        final(state).draft_deck == old(state).draft_deck,
        final(state).round == old(state).round,
        // Mid-round the pick passes the turn and waits for the hand pass;
        // at the round's end the pass advances the draft (rotating or
        // closing it).
        ({
            let d0 = match old(state).phase {
                GamePhase::Draft { draft_state } => draft_state,
                _ => arbitrary(),
            };
            let nplayers = old(state).players@.len() as int;
            let starting = ((old(state).round - 1) as int) % nplayers;
            let next = (d0.current_player_index as int + 1) % nplayers;
            if next != starting {
                match final(state).phase {
                    GamePhase::Draft { draft_state: d1 } => {
                        &&& d1.hands@[d0.current_player_index as int]@
                            == d0.hands@[d0.current_player_index as int]@
                                .remove(card_instance_id as u8)
                        &&& forall|k: int| 0 <= k < 4 && k != d0.current_player_index
                            ==> #[trigger] d1.hands@[k] == d0.hands@[k]
                        &&& d1.current_player_index == next
                        &&& d1.waiting_for_pass
                        &&& d1.pick_number == d0.pick_number
                        &&& d1.num_hands == d0.num_hands
                        &&& d1.direction == d0.direction
                        &&& final(state).destroyed_pile == old(state).destroyed_pile
                    }
                    _ => false,
                }
            } else {
                match final(state).phase {
                    GamePhase::Draft { draft_state: d1 } => {
                        &&& d1.pick_number
                            == crate::types::sat_add_u32(d0.pick_number, 1)
                        &&& d1.waiting_for_pass
                        &&& d1.num_hands == d0.num_hands
                        &&& d1.direction == d0.direction
                        &&& final(state).destroyed_pile == old(state).destroyed_pile
                    }
                    GamePhase::Action { .. } => true,
                    _ => false,
                }
            }
        }),
{
    let num_players = state.players.len();
    let starting_player = ((state.round - 1) as usize) % num_players;
    let id = card_instance_id as u8;

    let mut ds = get_draft_state(state);
    let pi = ds.current_player_index;
    let mut hand = ds.hands[pi];
    hand.remove(id);
    ds.hands[pi] = hand;
    let next_player = (pi + 1) % num_players;
    ds.current_player_index = next_player;
    state.phase = GamePhase::Draft { draft_state: ds };

    let mut player = state.players.get(pi).duplicate();
    player.drafted_cards.insert(id);
    state.players.set(pi, player);

    if next_player == starting_player {
        advance_draft(state);
    } else {
        let mut ds2 = get_draft_state(state);
        ds2.waiting_for_pass = true;
        state.phase = GamePhase::Draft { draft_state: ds2 };
    }
}

/// The hands after one pass: each hand moves one seat along the pass
/// direction; slots past the table are untouched.
pub open spec fn rotated_hands(h: Seq<UnorderedCards>, n: int, direction: int)
    -> Seq<UnorderedCards> {
    Seq::new(h.len(), |i: int| if 0 <= i < n {
        if direction == 1 {
            if i == 0 { h[n - 1] } else { h[i - 1] }
        } else {
            if i == n - 1 { h[0] } else { h[i + 1] }
        }
    } else {
        h[i]
    })
}

/// Rotate the hands one seat in the draft direction and count the pick;
/// after four picks or once a hand is empty, the leftovers go to the
/// destroyed pile and the action phase begins, else the draft waits for the
/// starting player to confirm the pass.
#[verifier::rlimit(100)]
#[verifier::spinoff_prover]
pub fn advance_draft(state: &mut GameState)
    requires
        state_wf(*old(state)),
        old(state).phase is Draft,
    ensures
        state_wf(*final(state)),
        // Rotating hands moves no cards between players.
        final(state).players@ == old(state).players@,
        final(state).round == old(state).round,
        final(state).draft_deck == old(state).draft_deck,
        match (final(state).phase, old(state).phase) {
            // The draft continues: hands rotated, the pick counted, and the
            // starting player waits to confirm the pass.
            (GamePhase::Draft { draft_state: d1 }, GamePhase::Draft { draft_state: d0 }) => {
                let n = d0.num_hands as int;
                let rot = rotated_hands(d0.hands@, n, d0.direction as int);
                let bumped = crate::types::sat_add_u32(d0.pick_number, 1);
                &&& bumped < 4
                &&& (forall|k: int| 0 <= k < n
                    ==> (#[trigger] rot[k])@ != Set::<u8>::empty())
                &&& d1.hands@ =~= rot
                &&& d1.pick_number == bumped
                &&& d1.num_hands == d0.num_hands
                &&& d1.direction == d0.direction
                &&& d1.current_player_index
                    == ((old(state).round - 1) as int) % (old(state).players@.len() as int)
                &&& d1.waiting_for_pass
                &&& final(state).destroyed_pile == old(state).destroyed_pile
            }
            // The draft ends: the rotated hands land on the destroyed pile
            // and the action phase starts.
            (GamePhase::Action { .. }, GamePhase::Draft { draft_state: d0 }) => {
                let n = d0.num_hands as int;
                let rot = rotated_hands(d0.hands@, n, d0.direction as int);
                let bumped = crate::types::sat_add_u32(d0.pick_number, 1);
                &&& (bumped >= 4 || exists|k: int| 0 <= k < n
                    && (#[trigger] rot[k])@ == Set::<u8>::empty())
                &&& final(state).destroyed_pile@ =~= old(state).destroyed_pile@
                    .union(crate::colori_game::hands_union(rot, n))
            }
            _ => false,
        },
{
    let num_players = state.players.len();
    let round = state.round;

    let mut ds = get_draft_state(state);
    let ghost d0 = ds;
    let n = ds.num_hands;
    let ghost rot = rotated_hands(d0.hands@, n as int, d0.direction as int);
    if ds.direction == 1 {
        let last = ds.hands[n - 1];
        let mut i: usize = n - 1;
        while i >= 1
            invariant
                i <= n - 1,
                1 <= n <= 4,
                ds.num_hands == n,
                ds.direction == 1,
                ds.pick_number == d0.pick_number,
                ds.current_player_index == d0.current_player_index,
                ds.waiting_for_pass == d0.waiting_for_pass,
                d0.num_hands == n,
                d0.direction == 1,
                rot == rotated_hands(d0.hands@, n as int, 1),
                last == d0.hands@[n as int - 1],
                forall|j: int| 0 <= j <= i ==> #[trigger] ds.hands@[j] == d0.hands@[j],
                forall|j: int| i < j < n as int ==> #[trigger] ds.hands@[j] == rot[j],
                forall|j: int| n as int <= j < 4 ==> #[trigger] ds.hands@[j] == d0.hands@[j],
            decreases i,
        {
            let moved = ds.hands[i - 1];
            ds.hands[i] = moved;
            i = i - 1;
        }
        ds.hands[0] = last;
        proof {
            assert(ds.hands@ =~= rot);
        }
    } else {
        let first = ds.hands[0];
        let mut i: usize = 0;
        while i < n - 1
            invariant
                i <= n - 1,
                1 <= n <= 4,
                ds.num_hands == n,
                ds.direction == -1,
                ds.pick_number == d0.pick_number,
                ds.current_player_index == d0.current_player_index,
                ds.waiting_for_pass == d0.waiting_for_pass,
                d0.num_hands == n,
                d0.direction == -1,
                rot == rotated_hands(d0.hands@, n as int, -1),
                first == d0.hands@[0],
                forall|j: int| 0 <= j < i ==> #[trigger] ds.hands@[j] == rot[j],
                forall|j: int| i <= j < n as int ==> #[trigger] ds.hands@[j] == d0.hands@[j],
                forall|j: int| n as int <= j < 4 ==> #[trigger] ds.hands@[j] == d0.hands@[j],
            decreases n - 1 - i,
        {
            let moved = ds.hands[i + 1];
            ds.hands[i] = moved;
            i = i + 1;
        }
        ds.hands[n - 1] = first;
        proof {
            assert(ds.hands@ =~= rot);
        }
    }

    if ds.pick_number < u32::MAX {
        ds.pick_number = ds.pick_number + 1;
    }
    let mut any_empty = false;
    let mut j: usize = 0;
    while j < n
        invariant
            j <= n,
            1 <= n <= 4,
            ds.num_hands == n,
            ds.hands@ == rot,
            ds.pick_number == crate::types::sat_add_u32(d0.pick_number, 1),
            ds.direction == d0.direction,
            d0.num_hands == n,
            any_empty == !(forall|k: int| 0 <= k < j
                ==> (#[trigger] rot[k])@ != Set::<u8>::empty()),
        decreases n - j,
    {
        let ghost was = any_empty;
        if ds.hands[j].is_empty() {
            any_empty = true;
        }
        proof {
            if !any_empty {
                assert forall|k: int| 0 <= k < j + 1
                    implies (#[trigger] rot[k])@ != Set::<u8>::empty() by {}
            } else {
                if was {
                    let w = choose|w: int| 0 <= w < j && (#[trigger] rot[w])@
                        == Set::<u8>::empty();
                } else {
                    assert(rot[j as int]@ == Set::<u8>::empty());
                }
            }
        }
        j = j + 1;
    }

    if ds.pick_number >= 4 || any_empty {
        let mut k: usize = 0;
        while k < n
            invariant
                k <= n,
                1 <= n <= 4,
                ds.num_hands == n,
                ds.hands@ == rot,
                state_wf(*state),
                state.players@ == old(state).players@,
                state.round == old(state).round,
                state.draft_deck == old(state).draft_deck,
                state.destroyed_pile@ == old(state).destroyed_pile@
                    .union(crate::colori_game::hands_union(rot, k as int)),
            decreases n - k,
        {
            state.destroyed_pile = state.destroyed_pile.union(ds.hands[k]);
            proof {
                assert(state.destroyed_pile@ =~= old(state).destroyed_pile@
                    .union(crate::colori_game::hands_union(rot, k as int + 1)));
            }
            k = k + 1;
        }
        initialize_action_phase(state);
    } else {
        ds.current_player_index = ((round - 1) as usize) % num_players;
        ds.waiting_for_pass = true;
        state.phase = GamePhase::Draft { draft_state: ds };
    }
}

/// One player's pick when all players pick from their hands at once.
pub fn simultaneous_pick(state: &mut GameState, player_index: usize, card_instance_id: u32)
    requires
        state_wf(*old(state)),
        old(state).phase is Draft,
        player_index < old(state).players@.len(),
        card_instance_id < 128,
        ({
            match old(state).phase {
                GamePhase::Draft { draft_state } =>
                    draft_state.hands@[player_index as int]@.contains(card_instance_id as u8),
                _ => false,
            }
        }),
    ensures
        state_wf(*final(state)),
        // The card moves from that player's hand to their drafted row;
        // everything else stands.
        match (final(state).phase, old(state).phase) {
            (
                GamePhase::Draft { draft_state: d1 },
                GamePhase::Draft { draft_state: d0 },
            ) => {
                &&& d1.hands@[player_index as int]@
                    == d0.hands@[player_index as int]@.remove(card_instance_id as u8)
                &&& forall|k: int| 0 <= k < 4 && k != player_index
                    ==> #[trigger] d1.hands@[k] == d0.hands@[k]
                &&& d1.pick_number == d0.pick_number
                &&& d1.current_player_index == d0.current_player_index
                &&& d1.num_hands == d0.num_hands
                &&& d1.direction == d0.direction
                &&& d1.waiting_for_pass == d0.waiting_for_pass
            }
            _ => false,
        },
        final(state).players@[player_index as int].drafted_cards@
            == old(state).players@[player_index as int].drafted_cards@
                .insert(card_instance_id as u8),
        forall|k: int| 0 <= k < final(state).players@.len() && k != player_index
            ==> #[trigger] final(state).players@[k] == old(state).players@[k],
        final(state).players@.len() == old(state).players@.len(),
        final(state).draft_deck == old(state).draft_deck,
        final(state).destroyed_pile == old(state).destroyed_pile,
        final(state).buyer_deck == old(state).buyer_deck,
        final(state).buyer_display@ == old(state).buyer_display@,
        final(state).round == old(state).round,
{
    let id = card_instance_id as u8;
    let mut ds = get_draft_state(state);
    let mut hand = ds.hands[player_index];
    hand.remove(id);
    ds.hands[player_index] = hand;
    state.phase = GamePhase::Draft { draft_state: ds };

    let mut player = state.players.get(player_index).duplicate();
    player.drafted_cards.insert(id);
    state.players.set(player_index, player);
}

/// Acknowledge a pending hand pass: picking may resume.
pub fn confirm_pass(state: &mut GameState)
    requires
        state_wf(*old(state)),
        old(state).phase is Draft,
    ensures
        state_wf(*final(state)),
        final(state).phase is Draft,
        match (final(state).phase, old(state).phase) {
            (
                GamePhase::Draft { draft_state: d1 },
                GamePhase::Draft { draft_state: d0 },
            ) => d1 == (DraftState { waiting_for_pass: false, ..d0 }),
            _ => false,
        },
        // Nothing but the pass flag moves.
        final(state).players@ == old(state).players@,
        final(state).draft_deck == old(state).draft_deck,
        final(state).destroyed_pile == old(state).destroyed_pile,
        final(state).buyer_deck == old(state).buyer_deck,
        final(state).buyer_display@ == old(state).buyer_display@,
        final(state).round == old(state).round,
{
    let mut ds = get_draft_state(state);
    ds.waiting_for_pass = false;
    state.phase = GamePhase::Draft { draft_state: ds };
}

} // verus!
