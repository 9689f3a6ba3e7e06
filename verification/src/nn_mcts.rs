//! Prior-guided tree search (PUCT): the same determinized search loop as
//! the ISMCTS engine, but expansion materializes every child at once with a
//! learned prior and a single value estimate replaces the random playout.

use vstd::prelude::*;
use crate::apply_choice::apply_choice_to_state;
use crate::colori_game::{
    determinize_in_place, draft_hands_ok, enumerate_choices_into, get_game_status,
    spec_choice_available, spec_count_at, spec_is_over, spec_max_score, GameStatus, SCORE_UNIT,
};
use crate::numeric::{isqrt, spec_isqrt, FP};
use crate::scoring::calculate_score;
use crate::state_encoding::{encode_action, encode_state};
use crate::types::{state_wf, ColoriChoice, GameState};
use rand::rngs::SmallRng;

verus! {

/// A learned evaluator: given a position encoding and one encoding per
/// legal move, it returns a prior weight per move and a per-player value
/// estimate, both in millionths, with index 0 the player to act. The search
/// clamps whatever comes back, so no promise is demanded of implementors.
pub trait NnEvaluator {
    fn evaluate(
        &self,
        state_encoding: &Vec<i64>,
        action_encodings: &Vec<Vec<i64>>,
    ) -> (Vec<u32>, Vec<u32>);
}

/// An evaluator with no opinions: equal priors and equal value shares.
pub struct UniformEvaluator;

impl NnEvaluator for UniformEvaluator {
    fn evaluate(
        &self,
        _state_encoding: &Vec<i64>,
        action_encodings: &Vec<Vec<i64>>,
    ) -> (Vec<u32>, Vec<u32>) {
        let n = action_encodings.len();
        let uniform64: u64 = if n > 0 { FP / (n as u64) } else { 0 };
        proof {
            if n > 0 {
                vstd::arithmetic::div_mod::lemma_div_nonincreasing(FP as int, n as int);
                vstd::arithmetic::div_mod::lemma_div_pos_is_pos(FP as int, n as int);
            }
        }
        let uniform: u32 = uniform64 as u32;
        let mut priors: Vec<u32> = Vec::new();
        let mut i: usize = 0;
        while i < n
            decreases n - i,
        {
            priors.push(uniform);
            i = i + 1;
        }
        let third = (FP as u32) / 3;
        let values: Vec<u32> = vec![third, third, third];
        (priors, values)
    }
}

/// Search parameters for the prior-guided variant; the exploration weight is
/// a fixed-point value in millionths.
#[derive(Debug)]
pub struct NnMctsConfig {
    pub iterations: u32,
    pub c_puct_fp: u64,
}

impl Default for NnMctsConfig {
    /// Two hundred iterations with an exploration weight of 1.5.
    fn default() -> (r: NnMctsConfig)
        ensures
            r.iterations == 200,
            r.c_puct_fp == 1_500_000,
    {
        NnMctsConfig { iterations: 200, c_puct_fp: 1_500_000 }
    }
}

/// One node of the prior-guided tree: value totals in millionths, the
/// learned prior, and concrete child moves.
pub struct NnMctsNode {
    pub visits: u32,
    pub total_value: u64,
    pub choice: Option<ColoriChoice>,
    pub prior: u32,
    pub children: Vec<NnMctsNode>,
}

/// Total visits over a list of children.
pub open spec fn nn_sum_visits(s: Seq<NnMctsNode>) -> int
    decreases s.len(),
{
    if s.len() == 0 {
        0
    } else {
        nn_sum_visits(s.drop_last()) + s.last().visits
    }
}

/// Structural soundness: values average at most one unit per visit, priors
/// are clamped to one unit, and every child carries its move.
pub open spec fn nn_node_wf(n: NnMctsNode) -> bool
    decreases n,
{
    &&& n.total_value <= (FP as int) * n.visits
    &&& nn_sum_visits(n.children@) <= n.visits
    &&& forall|i: int| 0 <= i < n.children@.len()
        ==> (#[trigger] n.children@[i]).choice is Some && nn_node_wf(n.children@[i])
}

proof fn lemma_nn_sum_push(s: Seq<NnMctsNode>, n: NnMctsNode)
    ensures
        nn_sum_visits(s.push(n)) == nn_sum_visits(s) + n.visits,
{
    assert(s.push(n).drop_last() =~= s);
}

proof fn lemma_nn_sum_update(s: Seq<NnMctsNode>, i: int, n: NnMctsNode)
    requires
        0 <= i < s.len(),
    ensures
        nn_sum_visits(s.update(i, n)) == nn_sum_visits(s) - s[i].visits + n.visits,
    decreases s.len(),
{
    if i == s.len() - 1 {
        assert(s.update(i, n).drop_last() =~= s.drop_last());
    } else {
        assert(s.update(i, n).drop_last() =~= s.drop_last().update(i, n));
        lemma_nn_sum_update(s.drop_last(), i, n);
    }
}

proof fn lemma_nn_sum_nonneg(s: Seq<NnMctsNode>)
    ensures
        nn_sum_visits(s) >= 0,
    decreases s.len(),
{
    if s.len() > 0 {
        lemma_nn_sum_nonneg(s.drop_last());
    }
}

proof fn lemma_nn_sum_member(s: Seq<NnMctsNode>, i: int)
    requires
        0 <= i < s.len(),
    ensures
        s[i].visits <= nn_sum_visits(s),
    decreases s.len(),
{
    if i == s.len() - 1 {
        lemma_nn_sum_nonneg(s.drop_last());
    } else {
        lemma_nn_sum_member(s.drop_last(), i);
    }
}

/// The bound under which parent visit counts feed the square root exactly.
pub const PUCT_VISIT_CAP: u32 = 16_777_216;

/// The PUCT score of a child in millionths: its mean value plus
/// `c * prior * sqrt(parent_visits) / (1 + visits)`, with the parent count
/// capped so the fixed-point root stays within one machine word.
pub open spec fn spec_puct(c: NnMctsNode, parent_visits: u32, c_fp: u64) -> int {
    let q = if c.visits == 0 { 0int } else { c.total_value as int / (c.visits as int) };
    let pv = if parent_visits <= PUCT_VISIT_CAP { parent_visits } else { PUCT_VISIT_CAP };
    let sqrt_parent = spec_isqrt((pv * FP * FP) as nat);
    let p = if c.prior <= FP { c.prior as int } else { FP as int };
    let u = ((c_fp * p) as int * sqrt_parent)
        / ((FP as int) * (FP as int) * (1 + c.visits as int));
    q + u
}

/// The PUCT score of a child.
fn puct_score(c: &NnMctsNode, parent_visits: u32, c_fp: u64) -> (r: u128)
    requires
        c.total_value <= (FP as int) * c.visits,
    ensures
        r == spec_puct(*c, parent_visits, c_fp),
{
    let q: u128 = if c.visits == 0 {
        0
    } else {
        (c.total_value as u128) / (c.visits as u128)
    };
    let pv: u32 = if parent_visits <= PUCT_VISIT_CAP { parent_visits } else { PUCT_VISIT_CAP };
    proof {
        assert((pv as int) * (FP as int) * (FP as int)
            <= 16_777_216i128 * 1_000_000 * 1_000_000) by (nonlinear_arith)
            requires pv <= 16_777_216, FP == 1_000_000;
    }
    let inner: u64 = ((pv as u64) * FP) * FP;
    let sqrt_parent = isqrt(inner);
    let p: u64 = if c.prior <= FP as u32 { c.prior as u64 } else { FP };
    proof {
        assert((sqrt_parent as int) * (sqrt_parent as int) <= inner as int);
        assert(sqrt_parent <= 0x2_0000_0000u64) by (nonlinear_arith)
            requires
                (sqrt_parent as int) * (sqrt_parent as int) <= inner as int,
                inner <= 16_777_216i128 * 1_000_000 * 1_000_000,
        ;
        assert((c_fp as int) * (p as int) <= 0xFFFF_FFFF_FFFF_FFFFi128 * 1_000_000)
            by (nonlinear_arith)
            requires c_fp <= 0xFFFF_FFFF_FFFF_FFFFi128, p <= 1_000_000;
        assert((c_fp as int) * (p as int) * (sqrt_parent as int)
            <= 0xFFFF_FFFF_FFFF_FFFFi128 * 1_000_000 * 0x2_0000_0000i128)
            by (nonlinear_arith)
            requires
                (c_fp as int) * (p as int) <= 0xFFFF_FFFF_FFFF_FFFFi128 * 1_000_000,
                sqrt_parent <= 0x2_0000_0000i128,
        ;
    }
    let u = ((c_fp as u128) * (p as u128) * (sqrt_parent as u128))
        / ((FP as u128) * (FP as u128) * (1 + c.visits as u128));
    q + u
}

/// Among the candidate children, the one with the highest PUCT score; the
/// earliest of equals wins.
fn select_child(
    children: &Vec<NnMctsNode>,
    cands: &Vec<usize>,
    parent_visits: u32,
    c_fp: u64,
) -> (r: Option<usize>)
    requires
        forall|k: int| 0 <= k < cands@.len() ==> (#[trigger] cands@[k]) < children@.len(),
        forall|i: int| 0 <= i < children@.len()
            ==> (#[trigger] children@[i]).total_value <= (FP as int) * children@[i].visits,
    ensures
        match r {
            Option::Some(k) => {
                &&& k < cands@.len()
                &&& forall|l: int| 0 <= l < cands@.len()
                    ==> spec_puct(children@[(#[trigger] cands@[l]) as int], parent_visits, c_fp)
                        <= spec_puct(children@[cands@[k as int] as int], parent_visits, c_fp)
            }
            Option::None => cands@.len() == 0,
        },
{
    if cands.len() == 0 {
        return None;
    }
    let mut best_k: usize = 0;
    let mut best_score = puct_score(&children[cands[0]], parent_visits, c_fp);
    let mut l: usize = 1;
    while l < cands.len()
        invariant
            1 <= l <= cands@.len(),
            best_k < l,
            forall|k: int| 0 <= k < cands@.len() ==> (#[trigger] cands@[k]) < children@.len(),
            forall|i: int| 0 <= i < children@.len()
                ==> (#[trigger] children@[i]).total_value <= (FP as int) * children@[i].visits,
            best_score == spec_puct(
                children@[cands@[best_k as int] as int], parent_visits, c_fp),
            forall|m: int| 0 <= m < l
                ==> spec_puct(children@[(#[trigger] cands@[m]) as int], parent_visits, c_fp)
                    <= best_score as int,
        decreases cands@.len() - l,
    {
        let idx = cands[l];
        let score = puct_score(&children[idx], parent_visits, c_fp);
        if score > best_score {
            best_score = score;
            best_k = l;
        }
        l = l + 1;
    }
    Some(best_k)
}

/// Credit a value estimate (clamped to one unit) to a node.
fn nn_record(node: &mut NnMctsNode, value: u32)
    requires
        old(node).total_value <= (FP as int) * old(node).visits,
        old(node).visits < u32::MAX,
    ensures
        final(node).visits == old(node).visits + 1,
        final(node).total_value <= (FP as int) * final(node).visits,
        final(node).children@ == old(node).children@,
        final(node).choice == old(node).choice,
        final(node).prior == old(node).prior,
{
    let v: u64 = if value > FP as u32 { FP } else { value as u64 };
    proof {
        let g = old(node).visits as int;
        assert((FP as int) * g + FP == (FP as int) * (g + 1)) by (nonlinear_arith);
        assert((FP as int) * g <= (FP as int) * (u32::MAX as int)) by (nonlinear_arith)
            requires g <= u32::MAX as int;
    }
    node.total_value = node.total_value + v;
    node.visits = node.visits + 1;
}

/// Expand a leaf: ask the evaluator once, materialize every legal move as a
/// child with its prior, and return the perspective player's value estimate.
fn expand_and_evaluate(
    node: &mut NnMctsNode,
    state: &GameState,
    active_player: usize,
    perspective_player: usize,
    evaluator: &dyn NnEvaluator,
    choices: &Vec<ColoriChoice>,
) -> (value: u32)
    requires
        state_wf(*state),
        active_player < state.players@.len(),
        nn_node_wf(*old(node)),
        old(node).children@.len() == 0,
    ensures
        nn_node_wf(*final(node)),
        final(node).visits == old(node).visits,
        final(node).total_value == old(node).total_value,
        final(node).choice == old(node).choice,
        nn_sum_visits(final(node).children@) == 0,
        // One unvisited child per legal move, in enumeration order; the
        // prior is whatever the evaluator returned (zero past its end).
        final(node).children@.len() == choices@.len(),
        forall|i: int| 0 <= i < choices@.len()
            ==> (#[trigger] final(node).children@[i]).choice == Option::Some(choices@[i])
                && final(node).children@[i].visits == 0
                && final(node).children@[i].total_value == 0
                && final(node).children@[i].children@.len() == 0,
{
    let state_enc = encode_state(state, active_player);
    let mut action_encs: Vec<Vec<i64>> = Vec::new();
    let mut k: usize = 0;
    while k < choices.len()
        invariant
            k <= choices@.len(),
            state_wf(*state),
        decreases choices@.len() - k,
    {
        let c = choices[k];
        action_encs.push(encode_action(&c, state));
        k = k + 1;
    }

    let (priors, values) = evaluator.evaluate(&state_enc, &action_encs);

    let mut i: usize = 0;
    while i < choices.len()
        invariant
            i <= choices@.len(),
            node.visits == old(node).visits,
            node.total_value == old(node).total_value,
            node.choice == old(node).choice,
            node.prior == old(node).prior,
            nn_sum_visits(node.children@) == 0,
            node.total_value <= (FP as int) * node.visits,
            node.children@.len() == i,
            forall|j: int| 0 <= j < i
                ==> (#[trigger] node.children@[j]).choice == Option::Some(choices@[j])
                    && node.children@[j].visits == 0
                    && node.children@[j].total_value == 0
                    && node.children@[j].children@.len() == 0,
            forall|j: int| 0 <= j < node.children@.len()
                ==> (#[trigger] node.children@[j]).choice is Some
                    && nn_node_wf(node.children@[j]),
        decreases choices@.len() - i,
    {
        let prior: u32 = if i < priors.len() { priors[i] } else { 0 };
        let child = NnMctsNode {
            visits: 0,
            total_value: 0,
            choice: Some(choices[i]),
            prior,
            children: Vec::new(),
        };
        proof {
            assert(nn_sum_visits(child.children@) == 0);
            assert(nn_node_wf(child));
            lemma_nn_sum_push(node.children@, child);
        }
        node.children.push(child);
        i = i + 1;
    }
    proof {
        lemma_nn_sum_nonneg(node.children@);
    }

    // The value vector is rotated so index 0 is the player to act; read the
    // perspective player's slot.
    let num_players = state.players.len();
    if perspective_player < num_players && active_player < num_players {
        let slot = (perspective_player + num_players - active_player) % num_players;
        if slot < values.len() {
            values[slot]
        } else {
            0
        }
    } else {
        0
    }
}

/// The value a finished position is worth to one player, in millionths:
/// that player's terminal share of the reward unit, rescaled.
pub open spec fn spec_terminal_value_fp(s: GameState, persp: int) -> int {
    let ps = s.players@;
    let n = ps.len() as int;
    let m = spec_max_score(ps, n);
    let w = spec_count_at(ps, n, m);
    if 0 <= persp < n {
        (if ps[persp].cached_score == m {
            (SCORE_UNIT as int) / w
        } else {
            0int
        }) * ((FP as int) / (SCORE_UNIT as int))
    } else {
        0
    }
}


/// The indices of exactly those children whose move is legal in the given
/// position: sound (every listed child is legal) and complete (every legal
/// child is listed), in index order.
pub fn available_children(
    children: &Vec<NnMctsNode>,
    state: &GameState,
) -> (cands: Vec<usize>)
    requires
        state_wf(*state),
    ensures
        forall|k: int| 0 <= k < cands@.len()
            ==> (#[trigger] cands@[k]) < children@.len()
                && children@[cands@[k] as int].choice is Some
                && spec_choice_available(
                    *state, children@[cands@[k] as int].choice.unwrap()),
        forall|j: int| 0 <= j < children@.len()
            ==> ((#[trigger] children@[j]).choice is Some
                    && spec_choice_available(*state, children@[j].choice.unwrap())
                ==> cands@.contains(j as usize)),
{
    let mut cands: Vec<usize> = Vec::new();
    let mut j: usize = 0;
    while j < children.len()
        invariant
            j <= children@.len(),
            state_wf(*state),
            forall|k: int| 0 <= k < cands@.len()
                ==> (#[trigger] cands@[k]) < children@.len()
                    && children@[cands@[k] as int].choice is Some
                    && spec_choice_available(
                        *state, children@[cands@[k] as int].choice.unwrap()),
            forall|l: int| 0 <= l < j
                ==> ((#[trigger] children@[l]).choice is Some
                        && spec_choice_available(*state, children@[l].choice.unwrap())
                    ==> cands@.contains(l as usize)),
        decreases children@.len() - j,
    {
        let ghost before = cands@;
        let mut pushed = false;
        match &children[j].choice {
            Some(c) => {
                if crate::colori_game::check_choice_available(state, c) {
                    cands.push(j);
                    pushed = true;
                }
            }
            None => {}
        }
        proof {
            if pushed {
                assert(cands@[cands@.len() - 1] == j as usize);
            }
            assert forall|l: int| 0 <= l < j + 1
                implies ((#[trigger] children@[l]).choice is Some
                        && spec_choice_available(*state, children@[l].choice.unwrap())
                    ==> cands@.contains(l as usize)) by {
                if l < j && before.contains(l as usize) {
                    let w = choose|w: int| 0 <= w < before.len()
                        && before[w] == l as usize;
                    assert(cands@[w] == l as usize);
                }
            }
        }
        j = j + 1;
    }
    cands
}

/// One prior-guided iteration: walk by PUCT, expand-and-evaluate at a leaf,
/// and credit the value up the path. Returns the perspective value.
fn nn_iteration(
    node: &mut NnMctsNode,
    state: &mut GameState,
    perspective_player: usize,
    depth: u32,
    max_round: Option<u32>,
    config: &NnMctsConfig,
    evaluator: &dyn NnEvaluator,
    rng: &mut SmallRng,
) -> (value: u32)
    requires
        state_wf(*old(state)),
        nn_node_wf(*old(node)),
        old(node).visits < u32::MAX,
    ensures
        state_wf(*final(state)),
        nn_node_wf(*final(node)),
        final(node).visits == old(node).visits + 1,
        final(node).choice == old(node).choice,
        // Entering on a finished position credits exactly the perspective
        // player's terminal share and leaves the position alone.
        spec_is_over(*old(state), max_round) ==> {
            &&& value == spec_terminal_value_fp(*old(state), perspective_player as int)
            &&& *final(state) == *old(state)
        },
    decreases depth,
{
    let active_player = match get_game_status(state, max_round) {
        GameStatus::Terminated { scores } => {
            // Scale the terminal share (in twelfths) to millionths.
            let share: u32 = if perspective_player < scores.len() {
                scores[perspective_player]
            } else {
                0
            };
            let capped: u32 = if share > 12 { 12 } else { share };
            proof {
                assert((capped as int) * ((FP as int) / 12) <= 1_000_000) by (nonlinear_arith)
                    requires capped <= 12, FP == 1_000_000;
                // The share is a terminal split entry, so it never exceeds
                // the reward unit and the clamp is the identity.
                let ps = state.players@;
                let n = ps.len() as int;
                let w = spec_count_at(ps, n, spec_max_score(ps, n));
                crate::colori_game::lemma_winner_count_pos(ps, n);
                if perspective_player < scores.len() {
                    vstd::arithmetic::div_mod::lemma_div_nonincreasing(SCORE_UNIT as int, w);
                    vstd::arithmetic::div_mod::lemma_div_pos_is_pos(SCORE_UNIT as int, w);
                }
                assert(capped == share);
            }
            let value: u32 = capped * ((FP as u32) / 12);
            nn_record(node, value);
            proof {
                lemma_nn_sum_nonneg(node.children@);
            }
            return value;
        }
        GameStatus::AwaitingAction { player_id } => player_id,
    };

    if node.children.len() == 0 {
        let choices = crate::colori_game::enumerate_choices(state);
        if choices.len() == 0 {
            nn_record(node, 0);
            proof {
                lemma_nn_sum_nonneg(node.children@);
            }
            return 0;
        }
        let value = expand_and_evaluate(
            node, state, active_player, perspective_player, evaluator, &choices);
        nn_record(node, value);
        proof {
            lemma_nn_sum_nonneg(node.children@);
        }
        return value;
    }

    // Select among exactly the children whose move is legal here.
    let cands = available_children(&node.children, state);

    proof {
        assert forall|i: int| 0 <= i < node.children@.len()
            implies (#[trigger] node.children@[i]).total_value
                <= (FP as int) * node.children@[i].visits by {
            assert(nn_node_wf(node.children@[i]));
        }
    }
    let picked = select_child(&node.children, &cands, node.visits, config.c_puct_fp);
    let best_k = match picked {
        Some(k) => k,
        None => {
            nn_record(node, 0);
            proof {
                lemma_nn_sum_nonneg(node.children@);
            }
            return 0;
        }
    };
    let best_idx = cands[best_k];
    let concrete = match &node.children[best_idx].choice {
        Some(c) => *c,
        None => vstd::pervasive::unreached(),
    };

    apply_choice_to_state(state, &concrete, rng);

    let ghost children_before = node.children@;
    let value: u32;
    if depth == 0 {
        proof {
            lemma_nn_sum_member(children_before, best_idx as int);
            assert(nn_node_wf(children_before[best_idx as int]));
        }
        let child = &mut node.children[best_idx];
        nn_record(child, 0);
        value = 0;
        proof {
            let c0 = children_before[best_idx as int];
            let c1 = node.children@[best_idx as int];
            assert(nn_sum_visits(c1.children@) == nn_sum_visits(c0.children@));
            assert(nn_node_wf(c1));
        }
    } else {
        proof {
            lemma_nn_sum_member(children_before, best_idx as int);
            assert(nn_node_wf(children_before[best_idx as int]));
        }
        let child = &mut node.children[best_idx];
        value = nn_iteration(
            child, state, perspective_player, depth - 1, max_round, config, evaluator, rng);
    }
    proof {
        lemma_nn_sum_update(children_before, best_idx as int,
            node.children@[best_idx as int]);
        assert(forall|i: int| 0 <= i < node.children@.len()
            ==> i != best_idx ==> node.children@[i] == children_before[i]);
    }
    nn_record(node, value);
    proof {
        assert forall|i: int| 0 <= i < node.children@.len()
            implies (#[trigger] node.children@[i]).choice is Some
                && nn_node_wf(node.children@[i]) by {
            if i != best_idx {
                assert(node.children@[i] == children_before[i]);
                assert(nn_node_wf(children_before[i]));
            }
        }
    }
    value
}

/// Total visits recorded in a distribution over tried moves.
pub open spec fn nn_dist_total(s: Seq<(ColoriChoice, u32)>) -> int
    decreases s.len(),
{
    if s.len() == 0 {
        0
    } else {
        nn_dist_total(s.drop_last()) + s.last().1
    }
}

proof fn lemma_nn_sum_prefix(s: Seq<NnMctsNode>, n: int)
    requires
        0 <= n <= s.len(),
    ensures
        nn_sum_visits(s.take(n)) <= nn_sum_visits(s),
        nn_sum_visits(s.take(n)) >= 0,
    decreases s.len() - n,
{
    lemma_nn_sum_nonneg(s.take(n));
    if n == s.len() {
        assert(s.take(n) =~= s);
    } else {
        lemma_nn_sum_prefix(s, n + 1);
        assert(s.take(n + 1).drop_last() =~= s.take(n));
        assert(nn_sum_visits(s.take(n + 1)) == nn_sum_visits(s.take(n)) + s[n].visits);
    }
}

/// The root child with the most visits; the earliest of equals wins.
pub fn nn_best_child_index(children: &Vec<NnMctsNode>) -> (r: Option<usize>)
    ensures
        match r {
            Option::Some(b) => {
                &&& b < children@.len()
                &&& forall|l: int| 0 <= l < children@.len()
                    ==> (#[trigger] children@[l]).visits <= children@[b as int].visits
                &&& forall|l: int| 0 <= l < b
                    ==> (#[trigger] children@[l]).visits < children@[b as int].visits
            }
            Option::None => children@.len() == 0,
        },
{
    if children.len() == 0 {
        return None;
    }
    let mut best: usize = 0;
    let mut best_visits = children[0].visits;
    let mut l: usize = 1;
    while l < children.len()
        invariant
            1 <= l <= children@.len(),
            best < l,
            best_visits == children@[best as int].visits,
            forall|m: int| 0 <= m < l
                ==> (#[trigger] children@[m]).visits <= best_visits,
            forall|m: int| 0 <= m < best
                ==> (#[trigger] children@[m]).visits < best_visits,
        decreases children@.len() - l,
    {
        if children[l].visits > best_visits {
            best = l;
            best_visits = children[l].visits;
        }
        l = l + 1;
    }
    Some(best)
}

/// Prior-guided search among the given legal moves of a position. A single
/// legal move is returned at once, with a one-entry distribution and no
/// search; otherwise the tree is refined over fresh determinizations for
/// the whole budget, the most-visited root move wins, and the returned
/// distribution lists the tried root moves with their visit counts, which
/// together never exceed the budget.
pub fn nn_search_among(
    state: &GameState,
    choices: Vec<ColoriChoice>,
    player_id: usize,
    config: &NnMctsConfig,
    evaluator: &dyn NnEvaluator,
    seen_hands: &Option<Vec<Vec<crate::types::CardInstance>>>,
    max_round: Option<u32>,
    rng: &mut SmallRng,
) -> (r: (ColoriChoice, Vec<(ColoriChoice, u32)>))
    requires
        state_wf(*state),
        player_id < state.players@.len(),
        draft_hands_ok(*state),
        forall|i: int| 0 <= i < choices@.len()
            ==> spec_choice_available(*state, #[trigger] choices@[i]),
    ensures
        choices@.len() == 1
            ==> r.0 == choices@[0] && r.1@ == seq![(choices@[0], 1u32)],
        choices@.len() >= 1 ==> spec_choice_available(*state, r.0),
        spec_choice_available(*state, r.0) || r.0 == ColoriChoice::EndTurn,
        forall|i: int| 0 <= i < r.1@.len() ==> (#[trigger] r.1@[i]).1 > 0,
        choices@.len() != 1 ==> nn_dist_total(r.1@) <= config.iterations,
{
    if choices.len() == 1 {
        let choice = choices[0];
        let dist: Vec<(ColoriChoice, u32)> = vec![(choice, 1u32)];
        proof {
            assert(dist@ =~= seq![(choices@[0], 1u32)]);
        }
        return (choice, dist);
    }

    let mut root = NnMctsNode {
        visits: 0,
        total_value: 0,
        choice: None,
        prior: 0,
        children: Vec::new(),
    };
    proof {
        assert(nn_sum_visits(root.children@) == 0);
    }
    let mut det = state.duplicate();

    let mut cached_scores: [u32; 4] = [0; 4];
    let n = state.players.len();
    let mut ci: usize = 0;
    while ci < n
        invariant
            ci <= n,
            n <= 4,
            n == state.players@.len(),
        decreases n - ci,
    {
        cached_scores[ci] = calculate_score(state.players.get(ci));
        ci = ci + 1;
    }

    let original = crate::types::copy_vec(&choices);
    let mut i: u32 = 0;
    while i < config.iterations
        invariant
            i <= config.iterations,
            state_wf(*state),
            player_id < state.players@.len(),
            draft_hands_ok(*state),
            nn_node_wf(root),
            root.choice is None,
            root.visits == i,
        decreases config.iterations - i,
    {
        determinize_in_place(&mut det, state, player_id, seen_hands, &cached_scores, rng);
        nn_iteration(
            &mut root, &mut det, player_id, config.iterations, max_round, config, evaluator,
            rng);
        i = i + 1;
    }

    // The visit distribution over tried root moves; its total is bounded by
    // the root's own visit count, which equals the budget.
    let mut dist: Vec<(ColoriChoice, u32)> = Vec::new();
    let mut vi: usize = 0;
    proof {
        lemma_nn_sum_nonneg(root.children@);
    }
    while vi < root.children.len()
        invariant
            vi <= root.children@.len(),
            nn_node_wf(root),
            root.visits == config.iterations,
            forall|k: int| 0 <= k < dist@.len() ==> (#[trigger] dist@[k]).1 > 0,
            nn_dist_total(dist@) <= nn_sum_visits(root.children@.take(vi as int)),
        decreases root.children@.len() - vi,
    {
        proof {
            assert(root.children@.take(vi as int + 1).drop_last()
                =~= root.children@.take(vi as int));
            lemma_nn_sum_prefix(root.children@, vi as int + 1);
        }
        let g = root.children[vi].visits;
        if g > 0 {
            match &root.children[vi].choice {
                Some(c) => {
                    let ghost dist_before = dist@;
                    dist.push((*c, g));
                    proof {
                        assert(dist@.drop_last() =~= dist_before);
                    }
                }
                None => {}
            }
        }
        vi = vi + 1;
    }
    proof {
        assert(root.children@.take(root.children@.len() as int) =~= root.children@);
        lemma_nn_sum_prefix(root.children@, root.children@.len() as int);
    }

    // The most-visited root move wins; fall back to a random legal move.
    match nn_best_child_index(&root.children) {
        Some(k) => {
            match &root.children[k].choice {
                Some(c) => {
                    let choice = *c;
                    if crate::colori_game::check_choice_available(state, &choice) {
                        (choice, dist)
                    } else {
                        (nn_fallback(state, &original, rng), dist)
                    }
                }
                None => (nn_fallback(state, &original, rng), dist),
            }
        }
        None => (nn_fallback(state, &original, rng), dist),
    }
}

/// Prior-guided search over an information set: the position's legal moves
/// are enumerated and searched with `nn_search_among`; whenever the rule
/// engine owes the active player a move, the returned move is legal, and a
/// single legal move comes back at once as the whole distribution.
pub fn nn_ismcts(
    state: &GameState,
    player_id: usize,
    config: &NnMctsConfig,
    evaluator: &dyn NnEvaluator,
    seen_hands: &Option<Vec<Vec<crate::types::CardInstance>>>,
    max_round: Option<u32>,
    rng: &mut SmallRng,
) -> (r: (ColoriChoice, Vec<(ColoriChoice, u32)>))
    requires
        state_wf(*state),
        player_id < state.players@.len(),
        draft_hands_ok(*state),
    ensures
        spec_choice_available(*state, r.0) || r.0 == ColoriChoice::EndTurn,
        crate::colori_game::spec_must_offer(*state) ==> spec_choice_available(*state, r.0),
        forall|i: int| 0 <= i < r.1@.len() ==> (#[trigger] r.1@[i]).1 > 0,
        nn_dist_total(r.1@) <= config.iterations || nn_dist_total(r.1@) == 1,
{
    let mut choices_buf: Vec<ColoriChoice> = Vec::new();
    enumerate_choices_into(state, &mut choices_buf);
    let single = choices_buf.len() == 1;
    let r = nn_search_among(
        state, choices_buf, player_id, config, evaluator, seen_hands, max_round, rng);
    proof {
        if single {
            assert(r.1@.drop_last() =~= Seq::<(ColoriChoice, u32)>::empty());
            assert(nn_dist_total(Seq::<(ColoriChoice, u32)>::empty()) == 0);
            assert(nn_dist_total(r.1@) == 1);
        }
    }
    r
}

/// A uniformly random move from the listed legal moves, or `EndTurn` when
/// the position offers none at all.
fn nn_fallback(
    state: &GameState,
    choices: &Vec<ColoriChoice>,
    rng: &mut SmallRng,
) -> (r: ColoriChoice)
    requires
        state_wf(*state),
        forall|i: int| 0 <= i < choices@.len()
            ==> spec_choice_available(*state, #[trigger] choices@[i]),
    ensures
        choices@.len() >= 1 ==> spec_choice_available(*state, r),
        choices@.len() == 0 ==> r == ColoriChoice::EndTurn,
{
    if choices.len() == 0 {
        return ColoriChoice::EndTurn;
    }
    let idx = crate::rng::rand_below_usize(rng, choices.len());
    choices[idx]
}

} // verus!
