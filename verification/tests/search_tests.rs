use colori_core::apply_choice::apply_choice_to_state;
use colori_core::colori_game::{check_choice_available, enumerate_choices};
use colori_core::draw_phase::execute_draw_phase;
use colori_core::ismcts::{ismcts, search_among, MctsConfig};
use colori_core::nn_mcts::{nn_ismcts, NnMctsConfig, UniformEvaluator};
use colori_core::setup::create_initial_game_state;
use colori_core::types::{ColoriChoice, GamePhase, GameState};
use rand::rngs::SmallRng;
use rand::SeedableRng;

fn fresh_drafting_state(seed: u64) -> (GameState, SmallRng) {
    let mut rng = SmallRng::seed_from_u64(seed);
    let ai = vec![true, true, true];
    let mut state = create_initial_game_state(3, &ai, &mut rng);
    execute_draw_phase(&mut state, &mut rng);
    (state, rng)
}

fn small_config(iterations: u32) -> MctsConfig {
    MctsConfig {
        iterations,
        exploration_fp: 1_414_214,
        max_rollout_steps: 400,
        canonical_ordering: false,
        abstract_choices: false,
    }
}

#[test]
fn test_ismcts_returns_legal_choice() {
    let (state, mut rng) = fresh_drafting_state(21);
    let config = small_config(30);
    let choice = ismcts(&state, 0, &config, &None, Some(3), &mut rng);
    let legal = enumerate_choices(&state);
    assert!(legal.contains(&choice), "the search returned an illegal move");
}

#[test]
fn test_single_legal_action_shortcut() {
    // With exactly one legal move the search returns it without running a
    // single iteration.
    let (state, mut rng) = fresh_drafting_state(22);
    let config = small_config(50);
    let only = ColoriChoice::DraftPick { card_instance_id: 99 };
    let (choice, stats) = search_among(
        &state, vec![only], 0, &config, &None, Some(3), &mut rng);
    assert_eq!(choice, only);
    assert_eq!(stats.iterations_run, 0);
    assert_eq!(stats.no_child_iterations, 0);
    assert_eq!(stats.root_child_visits, 0);
}

#[test]
fn test_visit_counts_account_for_budget() {
    // Every iteration either visits a root child or falls back; together
    // they account for the whole budget.
    let (state, mut rng) = fresh_drafting_state(23);
    let config = small_config(40);
    let legal = enumerate_choices(&state);
    assert!(legal.len() > 1);
    let (choice, stats) = search_among(
        &state, legal.clone(), 0, &config, &None, Some(3), &mut rng);
    assert_eq!(stats.iterations_run, 40);
    assert_eq!(
        stats.root_child_visits + stats.no_child_iterations,
        stats.iterations_run
    );
    assert!(legal.contains(&choice));
}

#[test]
fn test_ismcts_with_canonical_and_abstract_flags() {
    let (state, mut rng) = fresh_drafting_state(24);
    let config = MctsConfig {
        iterations: 20,
        exploration_fp: 1_414_214,
        max_rollout_steps: 300,
        canonical_ordering: true,
        abstract_choices: true,
    };
    let choice = ismcts(&state, 0, &config, &None, Some(3), &mut rng);
    let legal = enumerate_choices(&state);
    assert!(legal.contains(&choice));
}

#[test]
fn test_mcts_config_default() {
    let config = MctsConfig::default();
    assert_eq!(config.iterations, 100);
    assert_eq!(config.exploration_fp, 1_414_214);
    assert_eq!(config.max_rollout_steps, 1000);
    assert!(!config.canonical_ordering);
    assert!(!config.abstract_choices);
}

#[test]
fn test_play_a_few_turns_with_search() {
    // Drive the real engine with the search for a handful of decisions.
    let (mut state, mut rng) = fresh_drafting_state(25);
    let config = small_config(10);
    let mut steps = 0;
    while steps < 12 {
        if matches!(state.phase, GamePhase::GameOver) {
            break;
        }
        let player = match &state.phase {
            GamePhase::Draft { draft_state } => {
                if draft_state.waiting_for_pass {
                    colori_core::draft_phase::confirm_pass(&mut state);
                    continue;
                }
                draft_state.current_player_index
            }
            GamePhase::Action { action_state } => action_state.current_player_index,
            GamePhase::Cleanup { cleanup_state } => cleanup_state.current_player_index,
            GamePhase::Draw => {
                execute_draw_phase(&mut state, &mut rng);
                continue;
            }
            GamePhase::GameOver => break,
        };
        let choice = ismcts(&state, player, &config, &None, Some(3), &mut rng);
        assert!(check_choice_available(&state, &choice));
        apply_choice_to_state(&mut state, &choice, &mut rng);
        steps += 1;
    }
    assert!(steps > 0);
}

#[test]
fn test_nn_mcts_with_uniform_evaluator() {
    let (state, mut rng) = fresh_drafting_state(42);
    let evaluator = UniformEvaluator;
    let config = NnMctsConfig { iterations: 50, c_puct_fp: 1_500_000 };

    let (choice, visit_dist) = nn_ismcts(
        &state, 0, &config, &evaluator, &None, Some(10), &mut rng);

    // The returned move is legal.
    let legal = enumerate_choices(&state);
    assert!(legal.contains(&choice), "the prior-guided search returned an illegal move");

    // The tried root moves account for at most the budget, and every entry
    // was actually visited.
    let total: u32 = visit_dist.iter().map(|(_, v)| v).sum();
    assert!(total >= 1);
    assert!(total <= 50);
    for (_, v) in &visit_dist {
        assert!(*v > 0);
    }
}

#[test]
fn test_nn_mcts_single_choice() {
    let (state, mut rng) = fresh_drafting_state(123);
    let evaluator = UniformEvaluator;
    let config = NnMctsConfig { iterations: 10, c_puct_fp: 1_500_000 };

    let (choice, _) = nn_ismcts(
        &state, 0, &config, &evaluator, &None, Some(10), &mut rng);

    let legal = enumerate_choices(&state);
    assert!(legal.contains(&choice));
}

#[test]
fn test_nn_mcts_config_default() {
    let config = NnMctsConfig::default();
    assert_eq!(config.iterations, 200);
    assert_eq!(config.c_puct_fp, 1_500_000);
}

#[test]
fn test_shuffle_preserves_elements() {
    let mut rng = SmallRng::seed_from_u64(5);
    let mut v: Vec<u32> = (0..20).collect();
    colori_core::deck_utils::shuffle_in_place(&mut v, &mut rng);
    assert_eq!(v.len(), 20);
    let mut sorted = v.clone();
    sorted.sort();
    assert_eq!(sorted, (0..20).collect::<Vec<u32>>());
}

#[test]
fn test_shuffle_copy_preserves_elements() {
    let mut rng = SmallRng::seed_from_u64(6);
    let original: Vec<u32> = (0..10).collect();
    let shuffled = colori_core::deck_utils::shuffle(&original, &mut rng);
    assert_eq!(shuffled.len(), 10);
    let mut sorted = shuffled.clone();
    sorted.sort();
    assert_eq!(sorted, original);
}

#[test]
fn test_isqrt_and_ln() {
    assert_eq!(colori_core::numeric::isqrt(0), 0);
    assert_eq!(colori_core::numeric::isqrt(1), 1);
    assert_eq!(colori_core::numeric::isqrt(15), 3);
    assert_eq!(colori_core::numeric::isqrt(16), 4);
    assert_eq!(colori_core::numeric::isqrt(1_000_000), 1000);
    // ln in millionths: exact at powers of two, monotone in between.
    assert_eq!(colori_core::numeric::ln_fp(1), 0);
    assert_eq!(colori_core::numeric::ln_fp(2), 693_147);
    assert!(colori_core::numeric::ln_fp(3) > colori_core::numeric::ln_fp(2));
    assert!(colori_core::numeric::ln_fp(1000) < colori_core::numeric::ln_fp(1024));
    assert_eq!(colori_core::numeric::ln_fp(1024), 6_931_470);
}

#[test]
fn test_nn_search_single_choice_shortcut() {
    // With exactly one legal move the prior-guided search returns it at
    // once, as the whole one-entry distribution.
    let (state, mut rng) = fresh_drafting_state(77);
    let evaluator = UniformEvaluator;
    let config = NnMctsConfig { iterations: 50, c_puct_fp: 1_500_000 };
    let only = ColoriChoice::DraftPick { card_instance_id: 3 };
    let (choice, dist) = colori_core::nn_mcts::nn_search_among(
        &state, vec![only], 0, &config, &evaluator, &None, Some(3), &mut rng);
    assert_eq!(choice, only);
    assert_eq!(dist, vec![(only, 1u32)]);
}
