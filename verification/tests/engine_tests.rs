use colori_core::action_phase::{ability_canonical_phase, can_afford_buyer};
use colori_core::cards::{
    action_cards, basic_dye_cards, chalk_card, draft_material_cards, dye_cards,
    generate_all_buyers, starter_material_cards, AnyCard,
};
use colori_core::color_wheel::{can_pay_cost, pay_cost, perform_mix, remove_color, store_color};
use colori_core::colori_game::{
    check_choice_available, determinize_in_place, enumerate_choices, get_game_status,
    GameStatus, SCORE_UNIT,
};
use colori_core::draw_phase::execute_draw_phase;
use colori_core::scoring::calculate_score;
use colori_core::setup::create_initial_game_state;
use colori_core::state_encoding::{
    encode_action, encode_legal_actions, encode_state, ACTION_ENCODING_SIZE,
    STATE_ENCODING_SIZE,
};
use colori_core::types::{
    Ability, BuyerCard, BuyerInstance, Card, Color, ColorWheel, GamePhase, PlayerState,
};
use rand::rngs::SmallRng;
use rand::SeedableRng;

fn fresh_state(players: usize) -> colori_core::types::GameState {
    let mut rng = SmallRng::seed_from_u64(42);
    let ai = vec![true; players];
    create_initial_game_state(players, &ai, &mut rng)
}

// ── Color wheel operations ──

#[test]
fn test_store_and_remove_color() {
    let mut wheel = ColorWheel::new();
    store_color(&mut wheel, Color::Teal);
    assert_eq!(wheel.get(Color::Teal), 1);
    assert!(remove_color(&mut wheel, Color::Teal));
    assert_eq!(wheel.get(Color::Teal), 0);
    assert!(!remove_color(&mut wheel, Color::Teal));
}

#[test]
fn test_perform_mix_consumes_and_produces() {
    let mut wheel = ColorWheel::new();
    wheel.set(Color::Red, 1);
    wheel.set(Color::Yellow, 1);
    assert!(perform_mix(&mut wheel, Color::Red, Color::Yellow));
    assert_eq!(wheel.get(Color::Red), 0);
    assert_eq!(wheel.get(Color::Yellow), 0);
    assert_eq!(wheel.get(Color::Orange), 1);
}

#[test]
fn test_perform_mix_rejects_missing_pip() {
    let mut wheel = ColorWheel::new();
    wheel.set(Color::Red, 1);
    assert!(!perform_mix(&mut wheel, Color::Red, Color::Yellow));
    assert_eq!(wheel.get(Color::Red), 1);
}

#[test]
fn test_perform_mix_rejects_invalid_pair() {
    let mut wheel = ColorWheel::new();
    wheel.set(Color::Orange, 1);
    wheel.set(Color::Green, 1);
    assert!(!perform_mix(&mut wheel, Color::Orange, Color::Green));
}

#[test]
fn test_can_pay_cost_counts_repeats() {
    let mut wheel = ColorWheel::new();
    wheel.set(Color::Red, 1);
    assert!(can_pay_cost(&wheel, &vec![Color::Red]));
    assert!(!can_pay_cost(&wheel, &vec![Color::Red, Color::Red]));
    wheel.set(Color::Red, 2);
    assert!(can_pay_cost(&wheel, &vec![Color::Red, Color::Red]));
}

#[test]
fn test_pay_cost_removes_exactly_the_cost() {
    let mut wheel = ColorWheel::new();
    wheel.set(Color::Vermilion, 2);
    wheel.set(Color::Blue, 1);
    assert!(pay_cost(&mut wheel, &vec![Color::Vermilion, Color::Blue]));
    assert_eq!(wheel.get(Color::Vermilion), 1);
    assert_eq!(wheel.get(Color::Blue), 0);
}

// ── Scoring ──

#[test]
fn test_calculate_score_sums_stars_and_ducats() {
    let mut p = PlayerState {
        deck: colori_core::unordered_cards::UnorderedCards::new(),
        discard: colori_core::unordered_cards::UnorderedCards::new(),
        used_cards: colori_core::unordered_cards::UnorderedCards::new(),
        workshop_cards: colori_core::unordered_cards::UnorderedCards::new(),
        drafted_cards: colori_core::unordered_cards::UnorderedCards::new(),
        color_wheel: ColorWheel::new(),
        materials: colori_core::types::Materials::new(),
        completed_buyers: Vec::new(),
        ducats: 3,
        cached_score: 0,
    };
    p.completed_buyers.push(BuyerInstance {
        instance_id: 0,
        buyer: BuyerCard::Textiles2Vermilion,
    });
    p.completed_buyers.push(BuyerInstance {
        instance_id: 1,
        buyer: BuyerCard::Paintings4VermilionOrange,
    });
    // 2 + 4 stars + 3 ducats
    assert_eq!(calculate_score(&p), 9);
}

// ── Card properties ──

#[test]
fn test_card_properties() {
    assert_eq!(Card::Kermes.ability(), Ability::Sell);
    assert_eq!(Card::Madder.ability(), Ability::Workshop { count: 3 });
    assert_eq!(Card::VermilionDye.ability(), Ability::MixColors { count: 2 });
    assert_eq!(Card::Alum.ability(), Ability::DestroyCards { count: 1 });
    assert_eq!(Card::Kermes.pips(), vec![Color::Red, Color::Red, Color::Red]);
    assert_eq!(Card::Kermes.name(), "Kermes");
    assert!(Card::Potash.is_action());
    assert!(!Card::Woad.is_action());
    assert_eq!(
        Card::Potash.workshop_abilities(),
        vec![Ability::Workshop { count: 3 }]
    );
}

#[test]
fn test_buyer_properties() {
    assert_eq!(BuyerCard::Textiles2Vermilion.stars(), 2);
    assert_eq!(
        BuyerCard::Textiles2Vermilion.required_material(),
        colori_core::types::MaterialType::Textiles
    );
    assert_eq!(BuyerCard::Textiles2Vermilion.color_cost(), vec![Color::Vermilion]);
    assert_eq!(BuyerCard::Paintings4MagentaPurple.stars(), 4);
}

#[test]
fn test_ability_canonical_phase() {
    assert_eq!(ability_canonical_phase(&Ability::DrawCards { count: 2 }), Some(0));
    assert_eq!(ability_canonical_phase(&Ability::Workshop { count: 2 }), Some(0));
    assert_eq!(ability_canonical_phase(&Ability::MixColors { count: 2 }), Some(1));
    assert_eq!(ability_canonical_phase(&Ability::Sell), Some(2));
    assert_eq!(ability_canonical_phase(&Ability::GainPrimary), None);
}

// ── Catalog ──

#[test]
fn test_catalog_sizes() {
    assert_eq!(basic_dye_cards().len(), 3);
    assert_eq!(dye_cards().len(), 15);
    assert_eq!(starter_material_cards().len(), 3);
    assert_eq!(draft_material_cards().len(), 15);
    assert_eq!(action_cards().len(), 5);
    assert_eq!(generate_all_buyers().len(), 51);
}

#[test]
fn test_catalog_contents() {
    let dyes = dye_cards();
    match &dyes[0] {
        AnyCard::Dye { name, colors, ability } => {
            assert_eq!(name, "Kermes");
            assert_eq!(*colors, vec![Color::Red, Color::Red, Color::Red]);
            assert_eq!(*ability, Ability::Sell);
        }
        _ => panic!("expected a dye"),
    }
    let chalk = chalk_card();
    assert_eq!(chalk.kind_str(), "action");
    assert!(!chalk.is_buyer());
    assert_eq!(chalk.get_pips(), Vec::<Color>::new());
    let buyers = generate_all_buyers();
    assert!(buyers[0].is_buyer());
    assert_eq!(buyers[0].kind_str(), "buyer");
}

// ── Setup ──

#[test]
fn test_initial_state_shape() {
    let state = fresh_state(3);
    assert_eq!(state.players.len(), 3);
    assert_eq!(state.round, 1);
    assert!(matches!(state.phase, GamePhase::Draw));
    // 15 dyes x2 + 15 materials x2 + 5 actions x3
    assert_eq!(state.draft_deck.len(), 75);
    assert_eq!(state.buyer_display.len(), 6);
    assert_eq!(state.buyer_deck.len(), 45);
    for i in 0..3 {
        let p = state.players.get(i);
        assert_eq!(p.deck.len(), 6);
        assert_eq!(p.color_wheel.get(Color::Red), 1);
        assert_eq!(p.color_wheel.get(Color::Yellow), 1);
        assert_eq!(p.color_wheel.get(Color::Blue), 1);
        assert_eq!(calculate_score(p), 0);
    }
}

#[test]
fn test_draw_phase_deals_hands() {
    let mut rng = SmallRng::seed_from_u64(7);
    let mut state = fresh_state(3);
    execute_draw_phase(&mut state, &mut rng);
    match &state.phase {
        GamePhase::Draft { draft_state } => {
            for i in 0..3 {
                assert_eq!(draft_state.hands[i].len(), 5);
            }
            assert!(!draft_state.waiting_for_pass);
        }
        other => panic!("expected the draft phase, got {:?}", other),
    }
}

// ── Game status and the terminal score split ──

#[test]
fn test_game_status_awaiting() {
    let mut rng = SmallRng::seed_from_u64(7);
    let mut state = fresh_state(3);
    execute_draw_phase(&mut state, &mut rng);
    match get_game_status(&state, None) {
        GameStatus::AwaitingAction { player_id } => assert!(player_id < 3),
        GameStatus::Terminated { .. } => panic!("a fresh draft is not terminal"),
    }
}

#[test]
fn test_terminal_scores_single_winner() {
    let mut state = fresh_state(3);
    state.players.get_mut(0).cached_score = 7;
    state.players.get_mut(1).cached_score = 15;
    state.players.get_mut(2).cached_score = 3;
    state.phase = GamePhase::GameOver;
    match get_game_status(&state, None) {
        GameStatus::Terminated { scores } => {
            assert_eq!(scores, vec![0, SCORE_UNIT, 0]);
        }
        _ => panic!("a finished game is terminal"),
    }
}

#[test]
fn test_terminal_scores_split_tie() {
    // Raw scores [12, 15, 15]: the two leaders split the unit evenly.
    let mut state = fresh_state(3);
    state.players.get_mut(0).cached_score = 12;
    state.players.get_mut(1).cached_score = 15;
    state.players.get_mut(2).cached_score = 15;
    state.phase = GamePhase::GameOver;
    match get_game_status(&state, None) {
        GameStatus::Terminated { scores } => {
            assert_eq!(scores, vec![0, SCORE_UNIT / 2, SCORE_UNIT / 2]);
            let total: u32 = scores.iter().sum();
            assert_eq!(total, SCORE_UNIT);
        }
        _ => panic!("a finished game is terminal"),
    }
}

#[test]
fn test_round_cutoff_terminates() {
    let state = fresh_state(2);
    match get_game_status(&state, Some(0)) {
        GameStatus::Terminated { scores } => {
            let total: u32 = scores.iter().sum();
            assert_eq!(total, SCORE_UNIT);
        }
        _ => panic!("the round cutoff must terminate the game"),
    }
}

// ── Enumeration and availability ──

#[test]
fn test_enumerated_choices_are_available() {
    let mut rng = SmallRng::seed_from_u64(9);
    let mut state = fresh_state(3);
    execute_draw_phase(&mut state, &mut rng);
    let choices = enumerate_choices(&state);
    assert!(!choices.is_empty());
    for c in &choices {
        assert!(check_choice_available(&state, c), "{:?} should be available", c);
    }
}

// ── Determinization (hidden hands re-dealt, sizes preserved) ──

#[test]
fn test_determinize_preserves_perspective_hand_and_sizes() {
    let mut rng = SmallRng::seed_from_u64(11);
    let mut state = fresh_state(3);
    execute_draw_phase(&mut state, &mut rng);

    let (orig_hands, num_hands) = match &state.phase {
        GamePhase::Draft { draft_state } => (draft_state.hands, draft_state.num_hands),
        _ => panic!("expected the draft phase"),
    };

    let cached = [0u32; 4];
    let mut det = fresh_state(3);
    determinize_in_place(&mut det, &state, 0, &None, &cached, &mut rng);

    match &det.phase {
        GamePhase::Draft { draft_state } => {
            // The searching player's hand is preserved bit for bit.
            assert_eq!(draft_state.hands[0], orig_hands[0]);
            // Every hand keeps its size.
            for i in 0..num_hands {
                assert_eq!(draft_state.hands[i].len(), orig_hands[i].len());
            }
            // The pool of cards in hands is exactly preserved.
            let mut before = colori_core::unordered_cards::UnorderedCards::new();
            let mut after = colori_core::unordered_cards::UnorderedCards::new();
            for i in 0..num_hands {
                before = before.union(orig_hands[i]);
                after = after.union(draft_state.hands[i]);
            }
            assert_eq!(before, after);
        }
        _ => panic!("the determinized state must still be drafting"),
    }
}

#[test]
fn test_determinize_rotates_hidden_hands() {
    let mut rng = SmallRng::seed_from_u64(13);
    let mut state = fresh_state(3);
    execute_draw_phase(&mut state, &mut rng);
    let cached = [0u32; 4];
    let mut det = fresh_state(3);
    let mut saw_difference = false;
    for _ in 0..50 {
        determinize_in_place(&mut det, &state, 0, &None, &cached, &mut rng);
        let (orig, new) = match (&state.phase, &det.phase) {
            (GamePhase::Draft { draft_state: a }, GamePhase::Draft { draft_state: b }) => {
                (a.hands, b.hands)
            }
            _ => panic!("both states must be drafting"),
        };
        if orig[1] != new[1] || orig[2] != new[2] {
            saw_difference = true;
            break;
        }
    }
    assert!(saw_difference, "hidden hands were never re-dealt in 50 tries");
}

// ── Encodings ──

#[test]
fn test_encode_state_dimensions() {
    let mut rng = SmallRng::seed_from_u64(42);
    let mut state = fresh_state(3);
    execute_draw_phase(&mut state, &mut rng);
    let encoded = encode_state(&state, 0);
    assert_eq!(encoded.len(), STATE_ENCODING_SIZE);
    assert_eq!(encoded.len(), 768);
}

#[test]
fn test_encode_state_deterministic() {
    let mut rng = SmallRng::seed_from_u64(42);
    let mut state = fresh_state(3);
    execute_draw_phase(&mut state, &mut rng);
    let encoded1 = encode_state(&state, 0);
    let encoded2 = encode_state(&state, 0);
    assert_eq!(encoded1, encoded2);
}

#[test]
fn test_encode_state_player_rotation() {
    let mut rng = SmallRng::seed_from_u64(42);
    let mut state = fresh_state(3);
    execute_draw_phase(&mut state, &mut rng);

    let encoded_p0 = encode_state(&state, 0);
    let encoded_p1 = encode_state(&state, 1);
    assert_ne!(encoded_p0, encoded_p1);

    // Slot 1 for perspective 0 and slot 0 for perspective 1 both encode
    // player 1, so those sections agree.
    let fpp = 199;
    let p0_slot1 = &encoded_p0[fpp..2 * fpp];
    let p1_slot0 = &encoded_p1[..fpp];
    assert_eq!(p0_slot1, p1_slot0);
}

#[test]
fn test_encode_action_dimensions() {
    let mut rng = SmallRng::seed_from_u64(42);
    let mut state = fresh_state(3);
    execute_draw_phase(&mut state, &mut rng);
    let choices = enumerate_choices(&state);
    assert!(!choices.is_empty(), "should have at least one legal action");
    for choice in &choices {
        let encoded = encode_action(choice, &state);
        assert_eq!(encoded.len(), ACTION_ENCODING_SIZE);
        assert_eq!(encoded.len(), 86);
    }
}

#[test]
fn test_encode_legal_actions() {
    let mut rng = SmallRng::seed_from_u64(42);
    let mut state = fresh_state(3);
    execute_draw_phase(&mut state, &mut rng);
    let choices = enumerate_choices(&state);
    let encoded_actions = encode_legal_actions(&state);
    assert_eq!(encoded_actions.len(), choices.len());
    for encoded in &encoded_actions {
        assert_eq!(encoded.len(), ACTION_ENCODING_SIZE);
    }
}

// ── Buyer affordability ──

#[test]
fn test_can_afford_buyer() {
    let mut p = PlayerState {
        deck: colori_core::unordered_cards::UnorderedCards::new(),
        discard: colori_core::unordered_cards::UnorderedCards::new(),
        used_cards: colori_core::unordered_cards::UnorderedCards::new(),
        workshop_cards: colori_core::unordered_cards::UnorderedCards::new(),
        drafted_cards: colori_core::unordered_cards::UnorderedCards::new(),
        color_wheel: ColorWheel::new(),
        materials: colori_core::types::Materials::new(),
        completed_buyers: Vec::new(),
        ducats: 0,
        cached_score: 0,
    };
    let buyer = BuyerCard::Textiles2Vermilion;
    assert!(!can_afford_buyer(&p, &buyer));
    p.materials.increment(colori_core::types::MaterialType::Textiles);
    assert!(!can_afford_buyer(&p, &buyer));
    p.color_wheel.set(Color::Vermilion, 1);
    assert!(can_afford_buyer(&p, &buyer));
}

// ── Playing a whole round through the rule engine ──

#[test]
fn test_round2_draft_hands_after_full_round() {
    let mut rng = SmallRng::seed_from_u64(42);
    let ai_players = vec![false, true, true];
    let mut state = create_initial_game_state(3, &ai_players, &mut rng);

    assert_eq!(state.round, 1);
    execute_draw_phase(&mut state, &mut rng);
    assert!(matches!(state.phase, GamePhase::Draft { .. }));

    // Play through round 1 by always taking the first legal move.
    let mut guard = 0;
    loop {
        guard += 1;
        assert!(guard < 10_000, "round 1 did not finish");
        if state.round >= 2 && matches!(state.phase, GamePhase::Draw) {
            break;
        }
        if matches!(state.phase, GamePhase::GameOver) {
            break;
        }
        let choices = enumerate_choices(&state);
        if choices.is_empty() {
            // A pending hand pass: confirm it and keep drafting.
            colori_core::draft_phase::confirm_pass(&mut state);
            continue;
        }
        colori_core::apply_choice::apply_choice(&mut state, &choices[0], &mut rng);
    }

    if matches!(state.phase, GamePhase::Draw) {
        // Round 2 starts: the draw phase deals fresh five-card hands, and
        // player 1 leads the second round's draft.
        execute_draw_phase(&mut state, &mut rng);
        assert_eq!(state.round, 2);
        match &state.phase {
            GamePhase::Draft { draft_state } => {
                for i in 0..3 {
                    assert_eq!(
                        draft_state.hands[i].len(),
                        5,
                        "hand {} should have 5 cards before any picks",
                        i
                    );
                }
                assert_eq!(draft_state.current_player_index, 1);
            }
            other => panic!("expected the draft phase, got {:?}", other),
        }
    }
}

// ── Abstraction and resolution ──

#[test]
fn test_abstract_resolve_round_trip() {
    let mut rng = SmallRng::seed_from_u64(31);
    let mut state = fresh_state(3);
    execute_draw_phase(&mut state, &mut rng);
    let choices = enumerate_choices(&state);
    for c in &choices {
        let abs = colori_core::colori_game::abstract_choice(c, &state);
        let resolved = colori_core::colori_game::resolve_abstract_choice(&abs, &state);
        match resolved {
            Some(r) => {
                assert!(check_choice_available(&state, &r));
                // Resolution lands on an interchangeable copy: the same
                // abstract move.
                let abs2 = colori_core::colori_game::abstract_choice(&r, &state);
                assert!(abs.same(&abs2));
            }
            None => panic!("an enumerated move must resolve in its own state"),
        }
    }
}

#[test]
fn test_player_pick_waits_for_pass_mid_round() {
    let mut rng = SmallRng::seed_from_u64(17);
    let mut state = fresh_state(3);
    execute_draw_phase(&mut state, &mut rng);

    // Round 1: player 0 starts; their pick passes the turn to player 1 and
    // waits for the hand pass.
    let (current, hand_before) = match &state.phase {
        GamePhase::Draft { draft_state } => {
            assert_eq!(draft_state.current_player_index, 0);
            (draft_state.current_player_index, draft_state.hands[0])
        }
        _ => panic!("expected the draft phase"),
    };
    let id = hand_before.members()[0];
    colori_core::draft_phase::player_pick(&mut state, id as u32);
    match &state.phase {
        GamePhase::Draft { draft_state } => {
            assert_eq!(draft_state.current_player_index, 1);
            assert!(draft_state.waiting_for_pass);
            assert_eq!(draft_state.pick_number, 0);
            assert!(!draft_state.hands[0].contains(id));
            assert_eq!(draft_state.hands[0].len(), hand_before.len() - 1);
        }
        _ => panic!("a mid-round pick keeps the draft going"),
    }
    assert!(state.players.get(current).drafted_cards.contains(id));
}

#[test]
fn test_advance_draft_rotates_hands() {
    let mut rng = SmallRng::seed_from_u64(19);
    let mut state = fresh_state(3);
    execute_draw_phase(&mut state, &mut rng);
    let hands_before = match &state.phase {
        GamePhase::Draft { draft_state } => draft_state.hands,
        _ => panic!("expected the draft phase"),
    };
    colori_core::draft_phase::advance_draft(&mut state);
    match &state.phase {
        GamePhase::Draft { draft_state } => {
            // Round 1 passes forward: each hand moves one seat up.
            assert_eq!(draft_state.pick_number, 1);
            assert!(draft_state.waiting_for_pass);
            assert_eq!(draft_state.hands[0], hands_before[2]);
            assert_eq!(draft_state.hands[1], hands_before[0]);
            assert_eq!(draft_state.hands[2], hands_before[1]);
        }
        _ => panic!("full hands keep the draft going"),
    }
}

#[test]
fn test_deduplicate_choices_drops_repeats_and_keeps_representatives() {
    let mut rng = SmallRng::seed_from_u64(91);
    let ai = vec![true, true, true];
    let mut state = create_initial_game_state(3, &ai, &mut rng);
    execute_draw_phase(&mut state, &mut rng);
    let legal = enumerate_choices(&state);
    assert!(legal.len() > 1);

    // Deduplicating a list with every entry doubled gives the same result
    // as deduplicating the list itself: repeats add no abstract move.
    let mut once = legal.clone();
    colori_core::colori_game::deduplicate_choices(&mut once, &state);
    let mut doubled = legal.clone();
    doubled.extend(legal.iter().cloned());
    colori_core::colori_game::deduplicate_choices(&mut doubled, &state);
    assert_eq!(once, doubled);
    assert!(!once.is_empty());
    assert!(once.len() <= legal.len());
    for c in &once {
        assert!(legal.contains(c), "a kept move was not among the originals");
    }
}
