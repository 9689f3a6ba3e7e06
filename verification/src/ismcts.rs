//! Information-Set Monte Carlo Tree Search: one tree refined over many
//! determinizations, with an availability-corrected UCB1 selection policy.

use vstd::prelude::*;
use crate::apply_choice::apply_choice_to_state;
use crate::colori_game::{
    deduplicate_choices, determinize_in_place, draft_hands_ok,
    enumerate_choices_canonical_into, enumerate_choices_into, get_game_status,
    resolve_abstract_choice, spec_abstracts_to, spec_choice_available, spec_is_over,
    spec_terminal_scores, GameStatus, SCORE_UNIT,
};
use crate::numeric::{isqrt, ln_fp, spec_isqrt, spec_ln_fp, FP};
use crate::scoring::calculate_score;
use crate::types::{
    add_saturating, sat_add_u32, AbstractChoice, ColoriChoice, GameState, state_wf,
};
use rand::rngs::SmallRng;

verus! {

/// Search parameters. The exploration constant is a fixed-point value in
/// millionths (the classic sqrt(2) is about 1_414_214).
#[derive(Debug)]
pub struct MctsConfig {
    pub iterations: u32,
    pub exploration_fp: u64,
    pub max_rollout_steps: u32,
    pub canonical_ordering: bool,
    pub abstract_choices: bool,
}

impl Default for MctsConfig {
    /// One hundred iterations with the classic sqrt(2) exploration constant.
    fn default() -> (r: MctsConfig)
        ensures
            r.iterations == 100,
            r.exploration_fp == 1_414_214,
            r.max_rollout_steps == 1000,
            !r.canonical_ordering,
            !r.abstract_choices,
    {
        MctsConfig {
            iterations: 100,
            exploration_fp: 1_414_214,
            max_rollout_steps: 1000,
            canonical_ordering: false,
            abstract_choices: false,
        }
    }
}

/// One node of the search tree: the statistics of the abstract move that
/// leads here, and the children seen so far. The availability count records
/// in how many determinizations this move was legal at its parent — the
/// denominator a sound bandit estimate needs under hidden information.
pub struct MctsNode {
    pub games: u32,
    pub cumulative_reward: u64,
    pub player_id: usize,
    pub choice: Option<AbstractChoice>,
    pub availability_count: u32,
    pub children: Vec<MctsNode>,
}

/// Total visits over a list of children.
pub open spec fn sum_games(s: Seq<MctsNode>) -> int
    decreases s.len(),
{
    if s.len() == 0 {
        0
    } else {
        sum_games(s.drop_last()) + s.last().games
    }
}

/// Structural soundness of a tree: rewards never exceed one reward unit per
/// visit, children are never visited more often than their parent, and every
/// non-root node carries the move that leads to it.
pub open spec fn node_wf(n: MctsNode) -> bool
    decreases n,
{
    &&& n.cumulative_reward <= (SCORE_UNIT as int) * n.games
    &&& sum_games(n.children@) <= n.games
    &&& forall|i: int| 0 <= i < n.children@.len()
        ==> (#[trigger] n.children@[i]).choice is Some && node_wf(n.children@[i])
    &&& forall|i: int, j: int| 0 <= i < j < n.children@.len()
        ==> (#[trigger] n.children@[i]).choice != (#[trigger] n.children@[j]).choice
}

/// Every entry of a score vector is at most one reward unit.
pub open spec fn scores_bounded(s: Seq<u32>) -> bool {
    forall|i: int| 0 <= i < s.len() ==> #[trigger] s[i] <= SCORE_UNIT
}

proof fn lemma_sum_games_push(s: Seq<MctsNode>, n: MctsNode)
    ensures
        sum_games(s.push(n)) == sum_games(s) + n.games,
{
    assert(s.push(n).drop_last() =~= s);
}

proof fn lemma_sum_games_update(s: Seq<MctsNode>, i: int, n: MctsNode)
    requires
        0 <= i < s.len(),
    ensures
        sum_games(s.update(i, n)) == sum_games(s) - s[i].games + n.games,
    decreases s.len(),
{
    if i == s.len() - 1 {
        assert(s.update(i, n).drop_last() =~= s.drop_last());
    } else {
        assert(s.update(i, n).drop_last() =~= s.drop_last().update(i, n));
        lemma_sum_games_update(s.drop_last(), i, n);
    }
}

proof fn lemma_sum_games_nonneg(s: Seq<MctsNode>)
    ensures
        sum_games(s) >= 0,
    decreases s.len(),
{
    if s.len() > 0 {
        lemma_sum_games_nonneg(s.drop_last());
    }
}

proof fn lemma_sum_games_member(s: Seq<MctsNode>, i: int)
    requires
        0 <= i < s.len(),
    ensures
        s[i].games <= sum_games(s),
    decreases s.len(),
{
    if i == s.len() - 1 {
        lemma_sum_games_nonneg(s.drop_last());
    } else {
        lemma_sum_games_member(s.drop_last(), i);
    }
}

/// The terminal shares the status function hands out never exceed one
/// reward unit each.
proof fn lemma_terminal_scores_bounded(s: GameState, scores: Seq<u32>)
    requires
        state_wf(s),
        crate::colori_game::spec_terminal_scores(s, scores),
    ensures
        scores_bounded(scores),
{
    assert forall|i: int| 0 <= i < scores.len() implies #[trigger] scores[i] <= SCORE_UNIT by {
        let ps = s.players@;
        let n = ps.len() as int;
        let m = crate::colori_game::spec_max_score(ps, n);
        let w = crate::colori_game::spec_count_at(ps, n, m);
        if scores[i] != 0 {
            assert(scores[i] == (SCORE_UNIT as int / w) as u32);
            crate::colori_game::lemma_winner_count_pos(ps, n);
            vstd::arithmetic::div_mod::lemma_div_nonincreasing(SCORE_UNIT as int, w);
            vstd::arithmetic::div_mod::lemma_div_pos_is_pos(SCORE_UNIT as int, w);
        }
    }
}

impl MctsNode {
    /// A fresh node for a move (or the root, which has none).
    pub fn new(player_id: usize, choice: Option<AbstractChoice>) -> (r: MctsNode)
        ensures
            r.games == 0,
            r.cumulative_reward == 0,
            r.player_id == player_id,
            r.choice == choice,
            r.availability_count == 0,
            r.children@.len() == 0,
            node_wf(r),
    {
        let r = MctsNode {
            games: 0,
            cumulative_reward: 0,
            player_id,
            choice,
            availability_count: 0,
            children: Vec::new(),
        };
        proof {
            assert(sum_games(r.children@) == 0);
        }
        r
    }
}

/// Credit one simulation outcome to a node: the acting player's share joins
/// the cumulative reward and the visit count rises by one.
fn record_outcome(node: &mut MctsNode, scores: &Vec<u32>)
    requires
        scores_bounded(scores@),
        old(node).cumulative_reward <= (SCORE_UNIT as int) * old(node).games,
        old(node).games < u32::MAX,
    ensures
        final(node).games == old(node).games + 1,
        final(node).cumulative_reward <= (SCORE_UNIT as int) * final(node).games,
        final(node).cumulative_reward >= old(node).cumulative_reward,
        final(node).children@ == old(node).children@,
        final(node).choice == old(node).choice,
        final(node).player_id == old(node).player_id,
        final(node).availability_count == old(node).availability_count,
{
    let reward: u32 = if node.player_id < scores.len() {
        scores[node.player_id]
    } else {
        0
    };
    proof {
        assert(reward <= SCORE_UNIT);
        let g = old(node).games as int;
        assert((SCORE_UNIT as int) * g + SCORE_UNIT == (SCORE_UNIT as int) * (g + 1))
            by (nonlinear_arith);
        assert((SCORE_UNIT as int) * g <= (SCORE_UNIT as int) * (u32::MAX as int))
            by (nonlinear_arith)
            requires g <= u32::MAX as int;
    }
    node.cumulative_reward = node.cumulative_reward + reward as u64;
    node.games = node.games + 1;
}

/// A score so large it outranks every finite UCB value: unvisited children
/// are explored first.
pub open spec fn spec_infinite_score() -> int {
    0x10_0000_0000_0000_0000_0000_0000
}

/// The fixed-point UCB1 value of a visited child: mean reward plus the
/// exploration bonus `c * sqrt(ln(total) / games)`, all in millionths.
pub open spec fn spec_ucb_fp(reward: u64, games: u32, total: u32, c_fp: u64) -> int {
    let t = if total >= 1 { total as nat } else { 1nat };
    let win = (reward * FP) / ((SCORE_UNIT as int) * games);
    let inner = (spec_ln_fp(t) * FP) / (games as int);
    let explore = (c_fp * spec_isqrt(inner as nat)) / (FP as int);
    win + explore
}

/// The selection score of a child: unvisited children come first; visited
/// ones are ranked by UCB1 with the availability count as the total for
/// non-root children, and the root's own visit count at the root.
pub open spec fn spec_child_score(c: MctsNode, root_games: u32, is_root: bool, c_fp: u64) -> int {
    if c.games == 0 {
        spec_infinite_score()
    } else {
        let total = if is_root {
            root_games
        } else {
            if c.availability_count >= 1 { c.availability_count } else { 1u32 }
        };
        spec_ucb_fp(c.cumulative_reward, c.games, total, c_fp)
    }
}

/// The fixed-point UCB1 value of a visited child.
fn ucb_fp(reward: u64, games: u32, total: u32, c_fp: u64) -> (r: u128)
    requires
        games >= 1,
        reward <= (SCORE_UNIT as int) * games,
    ensures
        r == spec_ucb_fp(reward, games, total, c_fp),
        r < spec_infinite_score(),
{
    let t: u32 = if total >= 1 { total } else { 1 };
    proof {
        assert(reward * FP <= (SCORE_UNIT as int) * (games as int) * (FP as int))
            by (nonlinear_arith)
            requires reward <= (SCORE_UNIT as int) * (games as int), FP >= 1;
        assert((SCORE_UNIT as int) * (games as int) * (FP as int)
            <= 12 * 0x1_0000_0000i128 * 1_000_000) by (nonlinear_arith)
            requires games <= u32::MAX as int, SCORE_UNIT == 12, FP == 1_000_000;
    }
    let win = (reward as u128) * (FP as u128) / ((SCORE_UNIT as u128) * (games as u128));
    let ln = ln_fp(t as u64);
    let inner = ((ln as u128) * (FP as u128) / (games as u128)) as u64;
    proof {
        assert((ln as int) * (FP as int) <= 64 * 693_147 * 1_000_000) by (nonlinear_arith)
            requires ln <= 64 * 693_147, FP == 1_000_000;
        assert(((ln as int) * (FP as int)) / (games as int) <= (ln as int) * (FP as int)) by {
            vstd::arithmetic::div_mod::lemma_div_nonincreasing(
                (ln as int) * (FP as int), games as int);
        }
        assert(((ln as int) * (FP as int)) / (games as int) >= 0) by {
            vstd::arithmetic::div_mod::lemma_div_pos_is_pos(
                (ln as int) * (FP as int), games as int);
        }
    }
    let root = isqrt(inner);
    proof {
        assert((root as int) * (root as int) <= inner as int);
        assert(root <= 0x1_0000_0000u64) by (nonlinear_arith)
            requires
                (root as int) * (root as int) <= inner as int,
                inner <= 0xFFFF_FFFF_FFFF_FFFFi128,
        ;
        assert((c_fp as int) * (root as int)
            <= 0xFFFF_FFFF_FFFF_FFFFi128 * 0x1_0000_0001i128) by (nonlinear_arith)
            requires c_fp <= 0xFFFF_FFFF_FFFF_FFFFi128, root <= 0x1_0000_0000i128;
    }
    let explore = (c_fp as u128) * (root as u128) / (FP as u128);
    proof {
        // The mean term is at most one unit and the bonus is bounded by the
        // exploration constant times a 33-bit root, far below the infinite
        // score.
        assert(win <= (reward as u128) * (FP as u128));
        assert((reward as int) * (FP as int) < 0x1_0000_0000_0000_0000_0000i128)
            by (nonlinear_arith)
            requires reward <= 12 * 0x1_0000_0000i128, FP == 1_000_000;
        assert((root as int) * (root as int) <= inner as int);
        assert(root < 0x1_0000_0000u64) by (nonlinear_arith)
            requires
                (root as int) * (root as int) <= inner as int,
                inner <= 64 * 693_147 * 1_000_000i128,
        ;
        assert((c_fp as int) * (root as int)
            <= 0xFFFF_FFFF_FFFF_FFFFi128 * 0x1_0000_0000i128) by (nonlinear_arith)
            requires c_fp <= 0xFFFF_FFFF_FFFF_FFFFi128, root <= 0x1_0000_0000i128;
        assert(explore <= (c_fp as u128) * (root as u128));
    }
    win + explore
}

/// The selection score of a child.
fn child_score(c: &MctsNode, root_games: u32, is_root: bool, c_fp: u64) -> (r: u128)
    requires
        c.cumulative_reward <= (SCORE_UNIT as int) * c.games,
    ensures
        r == spec_child_score(*c, root_games, is_root, c_fp),
{
    if c.games == 0 {
        0x10_0000_0000_0000_0000_0000_0000u128
    } else {
        let total = if is_root {
            root_games
        } else {
            if c.availability_count >= 1 { c.availability_count } else { 1 }
        };
        ucb_fp(c.cumulative_reward, c.games, total, c_fp)
    }
}

/// Among the candidate children (those whose move is legal in the current
/// determinization), pick the one with the highest selection score; the
/// earliest of equals wins.
fn select_best(
    children: &Vec<MctsNode>,
    cands: &Vec<(usize, ColoriChoice)>,
    root_games: u32,
    is_root: bool,
    c_fp: u64,
) -> (r: Option<usize>)
    requires
        forall|k: int| 0 <= k < cands@.len()
            ==> (#[trigger] cands@[k]).0 < children@.len(),
        forall|i: int| 0 <= i < children@.len()
            ==> (#[trigger] children@[i]).cumulative_reward
                <= (SCORE_UNIT as int) * children@[i].games,
    ensures
        match r {
            Option::Some(k) => {
                &&& k < cands@.len()
                &&& forall|l: int| 0 <= l < cands@.len()
                    ==> spec_child_score(
                        children@[(#[trigger] cands@[l]).0 as int], root_games, is_root, c_fp)
                        <= spec_child_score(
                            children@[cands@[k as int].0 as int], root_games, is_root, c_fp)
                &&& forall|l: int| 0 <= l < k
                    ==> spec_child_score(
                        children@[(#[trigger] cands@[l]).0 as int], root_games, is_root, c_fp)
                        < spec_child_score(
                            children@[cands@[k as int].0 as int], root_games, is_root, c_fp)
            }
            Option::None => cands@.len() == 0,
        },
{
    if cands.len() == 0 {
        return None;
    }
    let mut best_k: usize = 0;
    let first = cands[0].0;
    let mut best_score: u128 = child_score(
        &children[first], root_games, is_root, c_fp);
    let mut l: usize = 1;
    while l < cands.len()
        invariant
            1 <= l <= cands@.len(),
            best_k < l,
            forall|k: int| 0 <= k < cands@.len()
                ==> (#[trigger] cands@[k]).0 < children@.len(),
            forall|i: int| 0 <= i < children@.len()
                ==> (#[trigger] children@[i]).cumulative_reward
                    <= (SCORE_UNIT as int) * children@[i].games,
            best_score == spec_child_score(
                children@[cands@[best_k as int].0 as int], root_games, is_root, c_fp),
            forall|m: int| 0 <= m < l
                ==> spec_child_score(
                    children@[(#[trigger] cands@[m]).0 as int], root_games, is_root, c_fp)
                    <= best_score as int,
            forall|m: int| 0 <= m < best_k
                ==> spec_child_score(
                    children@[(#[trigger] cands@[m]).0 as int], root_games, is_root, c_fp)
                    < best_score as int,
        decreases cands@.len() - l,
    {
        let idx = cands[l].0;
        let score = child_score(&children[idx], root_games, is_root, c_fp);
        if score > best_score {
            best_score = score;
            best_k = l;
        }
        l = l + 1;
    }
    Some(best_k)
}

/// A child with its availability count raised once, saturating.
pub open spec fn bumped(a: MctsNode) -> MctsNode {
    MctsNode { availability_count: sat_add_u32(a.availability_count, 1), ..a }
}

/// An expansion step changed an existing child only by raising its
/// availability count, by exactly one (saturating) or not at all.
pub open spec fn child_bumped(a: MctsNode, b: MctsNode) -> bool {
    &&& b.games == a.games
    &&& b.cumulative_reward == a.cumulative_reward
    &&& b.choice == a.choice
    &&& b.player_id == a.player_id
    &&& b.children@ == a.children@
    &&& (b.availability_count == a.availability_count
        || b.availability_count == sat_add_u32(a.availability_count, 1))
}

/// A child created by an expansion step: unvisited, available once, and
/// carrying its move.
pub open spec fn fresh_child(c: MctsNode, active_player: usize) -> bool {
    &&& c.games == 0
    &&& c.cumulative_reward == 0
    &&& c.availability_count == 1
    &&& c.player_id == active_player
    &&& c.choice is Some
    &&& c.children@.len() == 0
}

/// One expansion step over an offered move whose abstraction matches the
/// child at `idx` (the only such child, by distinctness): the existence of
/// a witness among the first `k + 1` moves for any other child is unchanged.
proof fn lemma_expand_step(
    old_children: Seq<MctsNode>,
    children: Seq<MctsNode>,
    seen: Seq<usize>,
    choices: Seq<ColoriChoice>,
    s: GameState,
    k: int,
    abs: AbstractChoice,
    idx: int,
    i: int,
)
    requires
        0 <= k < choices.len(),
        0 <= i < old_children.len(),
        old_children.len() <= children.len(),
        spec_abstracts_to(choices[k], abs, s),
        0 <= idx < children.len(),
        children[idx].choice == Option::Some(abs),
        forall|a: int| 0 <= a < old_children.len()
            ==> (#[trigger] children[a]).choice == old_children[a].choice,
        forall|a: int, b: int| 0 <= a < b < children.len()
            ==> (#[trigger] children[a]).choice != (#[trigger] children[b]).choice,
        forall|a: int| 0 <= a < old_children.len()
            ==> (#[trigger] old_children[a]).choice is Some,
        seen.contains(i as usize) == exists|k2: int| 0 <= k2 < k
            && spec_abstracts_to(
                #[trigger] choices[k2], old_children[i].choice.unwrap(), s),
    ensures
        i != idx ==> ((exists|k2: int| 0 <= k2 < k + 1
            && spec_abstracts_to(
                #[trigger] choices[k2], old_children[i].choice.unwrap(), s))
            == seen.contains(i as usize)),
        i == idx ==> spec_abstracts_to(choices[k], old_children[i].choice.unwrap(), s),
{
    if i == idx {
        assert(old_children[i].choice == Option::Some(abs));
    } else {
        if spec_abstracts_to(choices[k], old_children[i].choice.unwrap(), s) {
            crate::colori_game::lemma_abstraction_functional(
                choices[k], abs, old_children[i].choice.unwrap(), s);
            assert(children[i].choice == children[idx].choice);
            assert(false);
        }
        if exists|k2: int| 0 <= k2 < k + 1
            && spec_abstracts_to(
                #[trigger] choices[k2], old_children[i].choice.unwrap(), s) {
            let w = choose|k2: int| 0 <= k2 < k + 1
                && spec_abstracts_to(
                    #[trigger] choices[k2], old_children[i].choice.unwrap(), s);
            assert(w < k);
        }
    }
}

/// One expansion step over an offered move whose abstraction matches no
/// child at all: no existing child gains a witness.
proof fn lemma_expand_step_nomatch(
    old_children: Seq<MctsNode>,
    children: Seq<MctsNode>,
    seen: Seq<usize>,
    choices: Seq<ColoriChoice>,
    s: GameState,
    k: int,
    abs: AbstractChoice,
    i: int,
)
    requires
        0 <= k < choices.len(),
        0 <= i < old_children.len(),
        old_children.len() <= children.len(),
        spec_abstracts_to(choices[k], abs, s),
        forall|a: int| 0 <= a < children.len()
            ==> (#[trigger] children[a]).choice != Option::Some(abs),
        forall|a: int| 0 <= a < old_children.len()
            ==> (#[trigger] children[a]).choice == old_children[a].choice,
        forall|a: int| 0 <= a < old_children.len()
            ==> (#[trigger] old_children[a]).choice is Some,
        seen.contains(i as usize) == exists|k2: int| 0 <= k2 < k
            && spec_abstracts_to(
                #[trigger] choices[k2], old_children[i].choice.unwrap(), s),
    ensures
        (exists|k2: int| 0 <= k2 < k + 1
            && spec_abstracts_to(
                #[trigger] choices[k2], old_children[i].choice.unwrap(), s))
            == seen.contains(i as usize),
{
    if spec_abstracts_to(choices[k], old_children[i].choice.unwrap(), s) {
        crate::colori_game::lemma_abstraction_functional(
            choices[k], abs, old_children[i].choice.unwrap(), s);
        assert(children[i].choice == Option::Some(abs));
        assert(false);
    }
    if exists|k2: int| 0 <= k2 < k + 1
        && spec_abstracts_to(
            #[trigger] choices[k2], old_children[i].choice.unwrap(), s) {
        let w = choose|k2: int| 0 <= k2 < k + 1
            && spec_abstracts_to(
                #[trigger] choices[k2], old_children[i].choice.unwrap(), s);
        assert(w < k);
    }
}

/// Add at most one new child for an unseen abstract move and raise the
/// availability count of every move already present, once per call. The
/// root materializes every unseen move; visits stay untouched, children are
/// never removed, and a first expansion with any move to offer grows the
/// tree.
#[verifier::rlimit(100)]
#[verifier::spinoff_prover]
fn expand(
    node: &mut MctsNode,
    choices: &mut Vec<ColoriChoice>,
    active_player: usize,
    state: &GameState,
    rng: &mut SmallRng,
)
    requires
        state_wf(*state),
        node_wf(*old(node)),
        forall|i: int| 0 <= i < old(choices)@.len()
            ==> spec_choice_available(*state, #[trigger] old(choices)@[i]),
    ensures
        node_wf(*final(node)),
        final(node).games == old(node).games,
        final(node).cumulative_reward == old(node).cumulative_reward,
        final(node).choice == old(node).choice,
        final(node).player_id == old(node).player_id,
        sum_games(final(node).children@) == sum_games(old(node).children@),
        final(node).children@.len() >= old(node).children@.len(),
        // A node without children gains one whenever any move is offered.
        old(node).children@.len() == 0 && old(choices)@.len() > 0
            ==> final(node).children@.len() > 0,
        // Existing children change only by one availability bump at most,
        // and the bump lands exactly on the children whose move is among
        // the offered ones: every such child's availability count rises by
        // one (saturating), every other child stands untouched.
        forall|i: int| 0 <= i < old(node).children@.len()
            ==> child_bumped(old(node).children@[i], #[trigger] final(node).children@[i]),
        forall|i: int| 0 <= i < old(node).children@.len()
            ==> #[trigger] final(node).children@[i] == if (exists|k: int|
                    0 <= k < final(choices)@.len()
                        && spec_abstracts_to(
                            #[trigger] final(choices)@[k],
                            old(node).children@[i].choice.unwrap(), *state)) {
                bumped(old(node).children@[i])
            } else {
                old(node).children@[i]
            },
        // Every added child is a fresh, once-available node for this player.
        forall|i: int| old(node).children@.len() <= i < final(node).children@.len()
            ==> fresh_child(#[trigger] final(node).children@[i], active_player),
{
    let ghost pre_shuffle = choices@;
    crate::deck_utils::shuffle_in_place(choices, rng);
    proof {
        broadcast use vstd::seq_lib::group_to_multiset_ensures;

        assert forall|i: int| 0 <= i < choices@.len()
            implies spec_choice_available(*state, #[trigger] choices@[i]) by {
            assert(choices@.contains(choices@[i]));
            assert(choices@.to_multiset().count(choices@[i]) > 0);
            assert(pre_shuffle.to_multiset().count(choices@[i]) > 0);
            assert(pre_shuffle.contains(choices@[i]));
            let w = choose|w: int| 0 <= w < pre_shuffle.len() && pre_shuffle[w] == choices@[i];
            assert(spec_choice_available(*state, pre_shuffle[w]));
        }
    }

    let is_root = node.choice.is_none();
    let mut added_new_node = false;
    let mut seen_this_expand: Vec<usize> = Vec::new();

    let ghost s = *state;
    let ghost old_children = old(node).children@;
    let mut k: usize = 0;
    while k < choices.len()
        invariant
            k <= choices@.len(),
            choices@.len() == pre_shuffle.len(),
            s == *state,
            state_wf(s),
            is_root == (node.choice is None),
            forall|i: int| 0 <= i < choices@.len()
                ==> spec_choice_available(s, #[trigger] choices@[i]),
            node_wf(*node),
            node.games == old(node).games,
            node.cumulative_reward == old(node).cumulative_reward,
            node.choice == old(node).choice,
            node.player_id == old(node).player_id,
            old_children == old(node).children@,
            forall|a: int| 0 <= a < old_children.len()
                ==> (#[trigger] old_children[a]).choice is Some,
            sum_games(node.children@) == sum_games(old_children),
            node.children@.len() >= old_children.len(),
            old_children.len() == 0 && k > 0 && choices@.len() > 0
                ==> node.children@.len() > 0,
            added_new_node ==> node.children@.len() > old_children.len(),
            forall|i: int| 0 <= i < old_children.len()
                ==> #[trigger] node.children@[i]
                    == if seen_this_expand@.contains(i as usize) {
                        bumped(old_children[i])
                    } else {
                        old_children[i]
                    },
            forall|i: int| 0 <= i < old_children.len()
                ==> ((#[trigger] seen_this_expand@.contains(i as usize))
                    == exists|k2: int| 0 <= k2 < k
                        && spec_abstracts_to(
                            #[trigger] choices@[k2],
                            old_children[i].choice.unwrap(), s)),
            forall|i: int| old_children.len() <= i < node.children@.len()
                ==> fresh_child(#[trigger] node.children@[i], active_player)
                    && seen_this_expand@.contains(i as usize),
        decreases choices@.len() - k,
    {
        let choice = choices[k];
        let abs = crate::colori_game::abstract_choice(&choice, state);

        // Look for the (by distinctness unique) child with this abstract
        // move.
        let mut found: Option<usize> = None;
        let mut j: usize = 0;
        while j < node.children.len()
            invariant
                j <= node.children@.len(),
                node_wf(*node),
                match found {
                    Option::Some(idx) => idx < node.children@.len()
                        && node.children@[idx as int].choice == Option::Some(abs),
                    Option::None => forall|l: int| 0 <= l < j
                        ==> (#[trigger] node.children@[l]).choice != Option::Some(abs),
                },
            decreases node.children@.len() - j,
        {
            if found.is_none() {
                match &node.children[j].choice {
                    Some(a) => {
                        if a.same(&abs) {
                            found = Some(j);
                        }
                    }
                    None => {}
                }
            }
            j = j + 1;
        }

        match found {
            Some(idx) => {
                let mut already = false;
                let mut m: usize = 0;
                while m < seen_this_expand.len()
                    invariant
                        m <= seen_this_expand@.len(),
                        already ==> seen_this_expand@.contains(idx),
                        !already ==> forall|l: int| 0 <= l < m
                            ==> #[trigger] seen_this_expand@[l] != idx,
                    decreases seen_this_expand@.len() - m,
                {
                    if seen_this_expand[m] == idx {
                        already = true;
                    }
                    m = m + 1;
                }
                proof {
                    if !already && seen_this_expand@.contains(idx) {
                        let w = choose|w: int| 0 <= w < seen_this_expand@.len()
                            && seen_this_expand@[w] == idx;
                        assert(false);
                    }
                }
                if !already {
                    proof {
                        // An unseen index is an untouched old child: new
                        // children always enter the seen list at birth.
                        if idx >= old_children.len() {
                            assert(old_children.len() <= (idx as int));
                            assert((idx as int) < node.children@.len());
                            assert(fresh_child(node.children@[idx as int], active_player));
                            assert(seen_this_expand@.contains(idx as usize));
                            assert(false);
                        }
                        assert(node.children@[idx as int] == old_children[idx as int]);
                    }
                    let ghost before = node.children@;
                    let ghost seen_before = seen_this_expand@;
                    let child = &mut node.children[idx];
                    let ghost child0 = *child;
                    child.availability_count = add_saturating(child.availability_count, 1);
                    proof {
                        assert(node.children@ == before.update(idx as int, *final(child)));
                    }
                    seen_this_expand.push(idx);
                    proof {
                        assert(node.children@[idx as int] == bumped(child0));
                        lemma_sum_games_update(before, idx as int, node.children@[idx as int]);
                        assert(node_wf(*node)) by {
                            assert(forall|i: int| 0 <= i < node.children@.len()
                                ==> i != idx ==> node.children@[i] == before[i]);
                            assert(node.children@[idx as int].choice == child0.choice);
                            assert(node.children@[idx as int].children@ == child0.children@);
                            assert(node_wf(child0));
                            assert(node_wf(node.children@[idx as int]));
                        }
                        assert(seen_this_expand@[seen_this_expand@.len() - 1] == idx);
                        assert forall|i: int| 0 <= i < old_children.len()
                            implies #[trigger] node.children@[i]
                                == if seen_this_expand@.contains(i as usize) {
                                    bumped(old_children[i])
                                } else {
                                    old_children[i]
                                } by {
                            if i != idx {
                                if seen_before.contains(i as usize) {
                                    let w = choose|w: int| 0 <= w < seen_before.len()
                                        && seen_before[w] == i as usize;
                                    assert(seen_this_expand@[w] == i as usize);
                                } else if seen_this_expand@.contains(i as usize) {
                                    let w = choose|w: int|
                                        0 <= w < seen_this_expand@.len()
                                            && seen_this_expand@[w] == i as usize;
                                    assert(w < seen_before.len());
                                    assert(seen_before[w] == i as usize);
                                    assert(false);
                                }
                            }
                        }
                        assert forall|i: int| 0 <= i < old_children.len()
                            implies ((#[trigger] seen_this_expand@.contains(i as usize))
                                == exists|k2: int| 0 <= k2 < k + 1
                                    && spec_abstracts_to(
                                        #[trigger] choices@[k2],
                                        old_children[i].choice.unwrap(), s)) by {
                            lemma_expand_step(
                                old_children, before, seen_before, choices@, s, k as int,
                                abs, idx as int, i);
                            if i == idx {
                                assert(seen_this_expand@[seen_this_expand@.len() - 1]
                                    == i as usize);
                                assert(seen_this_expand@.contains(i as usize));
                                assert(spec_abstracts_to(
                                    choices@[k as int],
                                    old_children[i].choice.unwrap(), s));
                            } else {
                                if seen_before.contains(i as usize) {
                                    let w = choose|w: int| 0 <= w < seen_before.len()
                                        && seen_before[w] == i as usize;
                                    assert(seen_this_expand@[w] == i as usize);
                                    assert(seen_this_expand@.contains(i as usize));
                                } else if seen_this_expand@.contains(i as usize) {
                                    let w = choose|w: int|
                                        0 <= w < seen_this_expand@.len()
                                            && seen_this_expand@[w] == i as usize;
                                    assert(w < seen_before.len());
                                    assert(seen_before[w] == i as usize);
                                    assert(false);
                                }
                            }
                        }
                        assert forall|i: int| old_children.len() <= i < node.children@.len()
                            implies fresh_child(#[trigger] node.children@[i], active_player)
                                && seen_this_expand@.contains(i as usize) by {
                            assert(i != idx);
                            assert(node.children@[i] == before[i]);
                            if seen_before.contains(i as usize) {
                                let w = choose|w: int| 0 <= w < seen_before.len()
                                    && seen_before[w] == i as usize;
                                assert(seen_this_expand@[w] == i as usize);
                            }
                        }
                    }
                } else {
                    proof {
                        // Nothing moves; the new offered move only confirms
                        // an already-credited child.
                        assert forall|i: int| 0 <= i < old_children.len()
                            implies ((#[trigger] seen_this_expand@.contains(i as usize))
                                == exists|k2: int| 0 <= k2 < k + 1
                                    && spec_abstracts_to(
                                        #[trigger] choices@[k2],
                                        old_children[i].choice.unwrap(), s)) by {
                            lemma_expand_step(
                                old_children, node.children@, seen_this_expand@, choices@,
                                s, k as int, abs, idx as int, i);
                            if i == idx as int && idx < old_children.len() {
                                assert(seen_this_expand@.contains(i as usize));
                            }
                        }
                    }
                }
            }
            None => {
                proof {
                    // No child carries this move, so no existing child gains
                    // a witness from it.
                    assert forall|i: int| 0 <= i < old_children.len()
                        implies ((#[trigger] seen_this_expand@.contains(i as usize))
                            == exists|k2: int| 0 <= k2 < k + 1
                                && spec_abstracts_to(
                                    #[trigger] choices@[k2],
                                    old_children[i].choice.unwrap(), s)) by {
                        lemma_expand_step_nomatch(
                            old_children, node.children@, seen_this_expand@, choices@, s,
                            k as int, abs, i);
                    }
                }
                if is_root || !added_new_node {
                    let mut new_node = MctsNode::new(active_player, Some(abs));
                    new_node.availability_count = 1;
                    let ghost before = node.children@;
                    let ghost seen_before = seen_this_expand@;
                    seen_this_expand.push(node.children.len());
                    node.children.push(new_node);
                    proof {
                        lemma_sum_games_push(before, node.children@.last());
                        assert(forall|i: int| 0 <= i < before.len()
                            ==> node.children@[i] == before[i]);
                        assert(node_wf(node.children@[node.children@.len() - 1]));
                        assert(fresh_child(
                            node.children@[node.children@.len() - 1], active_player));
                        // The new move differs from every existing child's,
                        // so the children stay pairwise distinct.
                        assert(node.children@[node.children@.len() - 1].choice
                            == Option::Some(abs));
                        assert(node_wf(*node)) by {
                            assert(forall|i: int| 0 <= i < node.children@.len() - 1
                                ==> (#[trigger] node.children@[i]).choice
                                    != Option::Some(abs));
                        }
                        assert(seen_this_expand@[seen_this_expand@.len() - 1]
                            == node.children@.len() - 1);
                        assert forall|i: int| 0 <= i < old_children.len()
                            implies #[trigger] node.children@[i]
                                == if seen_this_expand@.contains(i as usize) {
                                    bumped(old_children[i])
                                } else {
                                    old_children[i]
                                } by {
                            if seen_before.contains(i as usize) {
                                let w = choose|w: int| 0 <= w < seen_before.len()
                                    && seen_before[w] == i as usize;
                                assert(seen_this_expand@[w] == i as usize);
                            } else if seen_this_expand@.contains(i as usize) {
                                let w = choose|w: int| 0 <= w < seen_this_expand@.len()
                                    && seen_this_expand@[w] == i as usize;
                                assert(w < seen_before.len());
                                assert(false);
                            }
                        }
                        assert forall|i: int| 0 <= i < old_children.len()
                            implies ((#[trigger] seen_this_expand@.contains(i as usize))
                                == exists|k2: int| 0 <= k2 < k + 1
                                    && spec_abstracts_to(
                                        #[trigger] choices@[k2],
                                        old_children[i].choice.unwrap(), s)) by {
                            if seen_before.contains(i as usize) {
                                let w = choose|w: int| 0 <= w < seen_before.len()
                                    && seen_before[w] == i as usize;
                                assert(seen_this_expand@[w] == i as usize);
                            } else if seen_this_expand@.contains(i as usize) {
                                let w = choose|w: int| 0 <= w < seen_this_expand@.len()
                                    && seen_this_expand@[w] == i as usize;
                                assert(w < seen_before.len());
                                assert(false);
                            }
                        }
                        assert forall|i: int| old_children.len() <= i < node.children@.len()
                            implies fresh_child(#[trigger] node.children@[i], active_player)
                                && seen_this_expand@.contains(i as usize) by {
                            if i < node.children@.len() - 1 {
                                assert(node.children@[i] == before[i]);
                                if seen_before.contains(i as usize) {
                                    let w = choose|w: int| 0 <= w < seen_before.len()
                                        && seen_before[w] == i as usize;
                                    assert(seen_this_expand@[w] == i as usize);
                                }
                            }
                        }
                    }
                    added_new_node = true;
                }
            }
        }
        k = k + 1;
    }
}

/// Simulate to the end of the game with the cheap random playout policy,
/// up to a step cap; past the cap the outcome is unknown and the returned
/// vector is empty.
fn rollout(
    state: &mut GameState,
    max_round: Option<u32>,
    max_rollout_steps: u32,
    rng: &mut SmallRng,
) -> (scores: Vec<u32>)
    requires
        state_wf(*old(state)),
    ensures
        state_wf(*final(state)),
        scores_bounded(scores@),
        // A playout that ends on a finished position reports its terminal
        // split; one that hits the step cap reports nothing, so the caller
        // credits zero reward rather than a guess.
        crate::colori_game::spec_is_over(*final(state), max_round)
            ==> spec_terminal_scores(*final(state), scores@),
        !crate::colori_game::spec_is_over(*final(state), max_round) ==> scores@.len() == 0,
{
    let mut steps: u32 = 0;
    while steps < max_rollout_steps
        invariant
            state_wf(*state),
        decreases max_rollout_steps - steps,
    {
        match get_game_status(state, max_round) {
            GameStatus::Terminated { scores } => {
                proof {
                    lemma_terminal_scores_bounded(*state, scores@);
                }
                return scores;
            }
            GameStatus::AwaitingAction { .. } => {}
        }
        crate::colori_game::apply_rollout_step(state, rng);
        steps = steps + 1;
    }
    match get_game_status(state, max_round) {
        GameStatus::Terminated { scores } => {
            proof {
                lemma_terminal_scores_bounded(*state, scores@);
            }
            scores
        }
        GameStatus::AwaitingAction { .. } => Vec::new(),
    }
}

/// One search iteration against one determinization: walk the tree by the
/// selection policy, expand, simulate on a first visit, and credit the
/// outcome to every node on the path. Returns the outcome and whether a
/// child of this node was visited.
fn iteration(
    node: &mut MctsNode,
    state: &mut GameState,
    depth: u32,
    max_round: Option<u32>,
    config: &MctsConfig,
    choices_buf: &mut Vec<ColoriChoice>,
    rng: &mut SmallRng,
) -> (r: (Vec<u32>, bool))
    requires
        state_wf(*old(state)),
        node_wf(*old(node)),
        old(node).games < u32::MAX,
    ensures
        state_wf(*final(state)),
        node_wf(*final(node)),
        final(node).games == old(node).games + 1,
        final(node).choice == old(node).choice,
        scores_bounded(r.0@),
        r.1 ==> sum_games(final(node).children@) == sum_games(old(node).children@) + 1,
        !r.1 ==> sum_games(final(node).children@) == sum_games(old(node).children@),
        // Entering on a finished position credits exactly its terminal
        // split, touches no child, and leaves the position alone.
        spec_is_over(*old(state), max_round) ==> {
            &&& spec_terminal_scores(*old(state), r.0@)
            &&& !r.1
            &&& *final(state) == *old(state)
        },
    decreases depth,
{
    let active_player = match get_game_status(state, max_round) {
        GameStatus::Terminated { scores } => {
            proof {
                lemma_terminal_scores_bounded(*state, scores@);
            }
            record_outcome(node, &scores);
            proof {
                lemma_sum_games_nonneg(node.children@);
            }
            return (scores, false);
        }
        GameStatus::AwaitingAction { player_id } => player_id,
    };

    // Expand: the root only until it has children; every other node on
    // every visit, so availability counts stay honest.
    let is_root = node.choice.is_none();
    let skip_expand = is_root && node.children.len() > 0;
    if !skip_expand {
        if config.canonical_ordering {
            enumerate_choices_canonical_into(state, choices_buf);
        } else {
            enumerate_choices_into(state, choices_buf);
        }
        if config.abstract_choices {
            deduplicate_choices(choices_buf, state);
        }
        expand(node, choices_buf, active_player, state, rng);
    }

    // Select among the children whose move is legal here.
    let mut cands: Vec<(usize, ColoriChoice)> = Vec::new();
    let mut j: usize = 0;
    while j < node.children.len()
        invariant
            j <= node.children@.len(),
            state_wf(*state),
            node_wf(*node),
            forall|k: int| 0 <= k < cands@.len()
                ==> (#[trigger] cands@[k]).0 < node.children@.len(),
            forall|k: int| 0 <= k < cands@.len()
                ==> spec_choice_available(*state, (#[trigger] cands@[k]).1),
        decreases node.children@.len() - j,
    {
        match &node.children[j].choice {
            Some(abs) => {
                match resolve_abstract_choice(abs, state) {
                    Some(concrete) => {
                        cands.push((j, concrete));
                    }
                    None => {}
                }
            }
            None => {}
        }
        j = j + 1;
    }

    proof {
        assert forall|i: int| 0 <= i < node.children@.len()
            implies (#[trigger] node.children@[i]).cumulative_reward
                <= (SCORE_UNIT as int) * node.children@[i].games by {
            assert(node_wf(node.children@[i]));
        }
    }
    let picked = select_best(
        &node.children, &cands, node.games, is_root, config.exploration_fp);
    let best_k = match picked {
        Some(k) => k,
        None => {
            // No child is available in this determinization; credit an
            // unknown outcome at this node alone.
            let empty: Vec<u32> = Vec::new();
            record_outcome(node, &empty);
            return (empty, false);
        }
    };
    let (best_idx, concrete) = cands[best_k];

    apply_choice_to_state(state, &concrete, rng);

    let first_visit = node.children[best_idx].games == 0;
    let ghost children_before = node.children@;
    let scores: Vec<u32>;
    if first_visit {
        scores = rollout(state, max_round, config.max_rollout_steps, rng);
        proof {
            lemma_sum_games_member(children_before, best_idx as int);
            assert(node_wf(children_before[best_idx as int]));
        }
        let child = &mut node.children[best_idx];
        record_outcome(child, &scores);
        proof {
            let c0 = children_before[best_idx as int];
            let c1 = node.children@[best_idx as int];
            assert(node_wf(c0));
            assert(sum_games(c1.children@) == sum_games(c0.children@));
            assert(node_wf(c1));
        }
    } else if depth == 0 {
        // The recursion budget is spent; credit an unknown outcome.
        let empty: Vec<u32> = Vec::new();
        proof {
            lemma_sum_games_member(children_before, best_idx as int);
            assert(node_wf(children_before[best_idx as int]));
        }
        let child = &mut node.children[best_idx];
        record_outcome(child, &empty);
        proof {
            let c0 = children_before[best_idx as int];
            let c1 = node.children@[best_idx as int];
            assert(node_wf(c0));
            assert(sum_games(c1.children@) == sum_games(c0.children@));
            assert(node_wf(c1));
        }
        scores = empty;
    } else {
        proof {
            lemma_sum_games_member(children_before, best_idx as int);
            assert(node_wf(children_before[best_idx as int]));
        }
        let child = &mut node.children[best_idx];
        let sub = iteration(child, state, depth - 1, max_round, config, choices_buf, rng);
        scores = sub.0;
    }
    proof {
        lemma_sum_games_update(
            children_before, best_idx as int, node.children@[best_idx as int]);
        assert(forall|i: int| 0 <= i < node.children@.len()
            ==> i != best_idx ==> node.children@[i] == children_before[i]);
        assert(node_wf(node.children@[best_idx as int]));
    }
    record_outcome(node, &scores);
    proof {
        assert forall|i: int| 0 <= i < node.children@.len()
            implies (#[trigger] node.children@[i]).choice is Some
                && node_wf(node.children@[i]) by {
            if i != best_idx {
                assert(node.children@[i] == children_before[i]);
                assert(node_wf(children_before[i]));
            }
        }
    }
    (scores, true)
}

/// What a finished search reports about its own work, for the laws the
/// search obeys: how many iterations ran, how many found no usable child at
/// the root, and how many visits the root's children collected in total.
#[derive(Debug, Clone, Copy, PartialEq, Eq, Structural)]
pub struct SearchStats {
    pub iterations_run: u32,
    pub no_child_iterations: u32,
    pub root_child_visits: u32,
}

/// Search among the given legal moves of a position. A single legal move is
/// returned at once without any search; otherwise the full iteration budget
/// runs, and every iteration either visits a root child or is counted as a
/// no-child fallback — the root children's visits account for all the rest.
pub fn search_among(
    state: &GameState,
    choices: Vec<ColoriChoice>,
    player_id: usize,
    config: &MctsConfig,
    seen_hands: &Option<Vec<Vec<crate::types::CardInstance>>>,
    max_round: Option<u32>,
    rng: &mut SmallRng,
) -> (r: (ColoriChoice, SearchStats))
    requires
        state_wf(*state),
        player_id < state.players@.len(),
        draft_hands_ok(*state),
        forall|i: int| 0 <= i < choices@.len()
            ==> spec_choice_available(*state, #[trigger] choices@[i]),
    ensures
        choices@.len() == 1 ==> r.0 == choices@[0] && r.1.iterations_run == 0,
        choices@.len() >= 1 ==> spec_choice_available(*state, r.0),
        spec_choice_available(*state, r.0) || r.0 == ColoriChoice::EndTurn,
        r.1.root_child_visits + r.1.no_child_iterations == r.1.iterations_run,
        choices@.len() != 1 ==> r.1.iterations_run == config.iterations,
{
    if choices.len() == 1 {
        let stats = SearchStats {
            iterations_run: 0,
            no_child_iterations: 0,
            root_child_visits: 0,
        };
        return (choices[0], stats);
    }

    let mut root = MctsNode::new(player_id, None);
    let mut det = state.duplicate();

    let mut cached_scores: [u32; 4] = [0; 4];
    let n = state.players.len();
    let mut ci: usize = 0;
    while ci < n
        invariant
            ci <= n,
            n <= 4,
            n == state.players@.len(),
        decreases n - ci,
    {
        cached_scores[ci] = calculate_score(state.players.get(ci));
        ci = ci + 1;
    }

    let original = crate::types::copy_vec(&choices);
    let mut choices_buf = choices;
    let mut no_child: u32 = 0;
    let mut i: u32 = 0;
    while i < config.iterations
        invariant
            i <= config.iterations,
            state_wf(*state),
            player_id < state.players@.len(),
            draft_hands_ok(*state),
            node_wf(root),
            root.choice is None,
            root.games == i,
            no_child <= i,
            sum_games(root.children@) + no_child == i,
        decreases config.iterations - i,
    {
        determinize_in_place(&mut det, state, player_id, seen_hands, &cached_scores, rng);
        let (_scores, visited) = iteration(
            &mut root, &mut det, config.iterations, max_round, config, &mut choices_buf, rng);
        if !visited {
            no_child = no_child + 1;
        }
        i = i + 1;
    }

    // The visits the root's children collected, summed back out of the tree.
    let mut visit_total: u32 = 0;
    let mut vi: usize = 0;
    proof {
        lemma_sum_games_nonneg(root.children@);
    }
    while vi < root.children.len()
        invariant
            vi <= root.children@.len(),
            visit_total == sum_games(root.children@.take(vi as int)),
            sum_games(root.children@) + no_child == config.iterations,
            visit_total <= config.iterations,
            node_wf(root),
        decreases root.children@.len() - vi,
    {
        proof {
            assert(root.children@.take(vi as int + 1).drop_last()
                =~= root.children@.take(vi as int));
            lemma_sum_prefix_bound(root.children@, vi as int + 1);
        }
        let g = root.children[vi].games;
        visit_total = visit_total + g;
        vi = vi + 1;
    }
    proof {
        assert(root.children@.take(root.children@.len() as int) =~= root.children@);
    }

    let stats = SearchStats {
        iterations_run: config.iterations,
        no_child_iterations: no_child,
        root_child_visits: visit_total,
    };

    // The move with the most visits wins; the first of equals is kept.
    match best_child_index(&root.children) {
        Some(b) => {
            match &root.children[b].choice {
                Some(a) => {
                    let abs = *a;
                    match resolve_abstract_choice(&abs, state) {
                        Some(c) => (c, stats),
                        None => (fallback_choice(state, &original, rng), stats),
                    }
                }
                None => (fallback_choice(state, &original, rng), stats),
            }
        }
        None => (fallback_choice(state, &original, rng), stats),
    }
}

proof fn lemma_sum_prefix_bound(s: Seq<MctsNode>, n: int)
    requires
        0 <= n <= s.len(),
    ensures
        sum_games(s.take(n)) <= sum_games(s),
        sum_games(s.take(n)) >= 0,
    decreases s.len() - n,
{
    lemma_sum_games_nonneg(s.take(n));
    if n == s.len() {
        assert(s.take(n) =~= s);
    } else {
        lemma_sum_prefix_bound(s, n + 1);
        assert(s.take(n + 1).drop_last() =~= s.take(n));
        assert(sum_games(s.take(n + 1)) == sum_games(s.take(n)) + s[n].games);
    }
}

/// The root child with the most visits; the earliest of equals wins.
pub fn best_child_index(children: &Vec<MctsNode>) -> (r: Option<usize>)
    ensures
        match r {
            Option::Some(b) => {
                &&& b < children@.len()
                &&& forall|l: int| 0 <= l < children@.len()
                    ==> (#[trigger] children@[l]).games <= children@[b as int].games
                &&& forall|l: int| 0 <= l < b
                    ==> (#[trigger] children@[l]).games < children@[b as int].games
            }
            Option::None => children@.len() == 0,
        },
{
    if children.len() == 0 {
        return None;
    }
    let mut best: usize = 0;
    let mut best_games = children[0].games;
    let mut l: usize = 1;
    while l < children.len()
        invariant
            1 <= l <= children@.len(),
            best < l,
            best_games == children@[best as int].games,
            forall|m: int| 0 <= m < l
                ==> (#[trigger] children@[m]).games <= best_games,
            forall|m: int| 0 <= m < best
                ==> (#[trigger] children@[m]).games < best_games,
        decreases children@.len() - l,
    {
        if children[l].games > best_games {
            best = l;
            best_games = children[l].games;
        }
        l = l + 1;
    }
    Some(best)
}

/// A uniformly random move from the listed legal moves, or `EndTurn` when
/// the position offers none at all.
fn fallback_choice(
    state: &GameState,
    choices: &Vec<ColoriChoice>,
    rng: &mut SmallRng,
) -> (r: ColoriChoice)
    requires
        state_wf(*state),
        forall|i: int| 0 <= i < choices@.len()
            ==> spec_choice_available(*state, #[trigger] choices@[i]),
    ensures
        choices@.len() >= 1 ==> spec_choice_available(*state, r),
        choices@.len() == 0 ==> r == ColoriChoice::EndTurn,
{
    if choices.len() == 0 {
        return ColoriChoice::EndTurn;
    }
    let idx = crate::rng::rand_below_usize(rng, choices.len());
    choices[idx]
}

/// Choose a move for the position's active player by Information-Set Monte
/// Carlo Tree Search: with exactly one legal move it is returned at once;
/// otherwise the tree is refined over fresh determinizations for the whole
/// iteration budget and the most-visited root move wins. The result is a
/// legal move whenever the position has any (`EndTurn` stands in when the
/// rule engine offers none at all).
pub fn ismcts(
    state: &GameState,
    player_id: usize,
    config: &MctsConfig,
    seen_hands: &Option<Vec<Vec<crate::types::CardInstance>>>,
    max_round: Option<u32>,
    rng: &mut SmallRng,
) -> (r: ColoriChoice)
    requires
        state_wf(*state),
        player_id < state.players@.len(),
        draft_hands_ok(*state),
    ensures
        spec_choice_available(*state, r) || r == ColoriChoice::EndTurn,
        // Whenever the rule engine owes the active player a move — a free
        // action turn, a draft pick from a nonempty hand, or a cleanup keep
        // — the returned move is a legal one.
        crate::colori_game::spec_must_offer(*state) ==> spec_choice_available(*state, r),
{
    let mut choices_buf: Vec<ColoriChoice> = Vec::new();
    if config.canonical_ordering {
        enumerate_choices_canonical_into(state, &mut choices_buf);
    } else {
        enumerate_choices_into(state, &mut choices_buf);
    }
    if config.abstract_choices {
        deduplicate_choices(&mut choices_buf, state);
    }
    let (choice, _stats) = search_among(
        state, choices_buf, player_id, config, seen_hands, max_round, rng);
    choice
}

} // verus!
