//! Building the initial game state: starter decks, the draft stock, and the
//! buyer deck and display.

use vstd::prelude::*;
use crate::fixed_vec::FixedVec;
use crate::types::{
    buyer_type_index, BuyerCard, BuyerInstance, Card, Color, ColorWheel, GamePhase, GameState,
    Materials, PlayerState, state_wf,
};
use crate::unordered_cards::{UnorderedBuyers, UnorderedCards};
use crate::{MAX_BUYER_DISPLAY, MAX_PLAYERS};
use rand::rngs::SmallRng;

verus! {

/// Copies of each dye card in the draft stock.
pub const DYE_COPIES: u32 = 2;

/// Copies of each draft material card in the draft stock.
pub const MATERIAL_COPIES: u32 = 2;

/// Copies of each action card in the draft stock.
pub const ACTION_COPIES: u32 = 3;

/// The six cards of a personal starting deck.
fn starter_cards() -> (r: Vec<Card>)
    ensures
        r@.len() == 6,
{
    vec![
        Card::BasicRed,
        Card::BasicYellow,
        Card::BasicBlue,
        Card::StarterCeramics,
        Card::StarterPaintings,
        Card::StarterTextiles,
    ]
}

/// The fifteen dye card types of the draft stock.
fn draft_dye_types() -> (r: Vec<Card>)
    ensures
        r@.len() == 15,
{
    vec![
        Card::Kermes,
        Card::Weld,
        Card::Woad,
        Card::Madder,
        Card::Turmeric,
        Card::DyersGreenweed,
        Card::Verdigris,
        Card::Orchil,
        Card::Logwood,
        Card::VermilionDye,
        Card::Saffron,
        Card::PersianBerries,
        Card::Azurite,
        Card::IndigoDye,
        Card::Cochineal,
    ]
}

/// The fifteen material card types of the draft stock.
fn draft_material_types() -> (r: Vec<Card>)
    ensures
        r@.len() == 15,
{
    vec![
        Card::FineCeramics,
        Card::FinePaintings,
        Card::FineTextiles,
        Card::TerraCotta,
        Card::OchreWare,
        Card::CobaltWare,
        Card::CinnabarCanvas,
        Card::OrpimentCanvas,
        Card::UltramarineCanvas,
        Card::AlizarinFabric,
        Card::FusticFabric,
        Card::PastelFabric,
        Card::ClayCanvas,
        Card::ClayFabric,
        Card::CanvasFabric,
    ]
}

/// The five action card types of the draft stock.
fn draft_action_types() -> (r: Vec<Card>)
    ensures
        r@.len() == 5,
{
    vec![Card::Alum, Card::CreamOfTartar, Card::GumArabic, Card::Potash, Card::Vinegar]
}

/// Register a run of identical cards, assigning consecutive instance ids.
fn add_copies(
    deck: &mut UnorderedCards,
    lookup: &mut [Card; 128],
    next_id: &mut u8,
    card: Card,
    copies: u32,
)
    requires
        *old(next_id) as int + copies <= 128,
    ensures
        *final(next_id) == *old(next_id) + copies,
{
    let mut c: u32 = 0;
    while c < copies
        invariant
            c <= copies,
            *next_id == *old(next_id) + c,
            *old(next_id) + copies <= 128,
        decreases copies - c,
    {
        let id = *next_id;
        lookup[id as usize] = card;
        deck.insert(id);
        *next_id = *next_id + 1;
        c = c + 1;
    }
}

/// Build a fresh game for `num_players` players: everyone gets the starter
/// deck and one pip of each primary color; the draft stock holds the fixed
/// copy counts of every dye, material, and action card; all buyers go into
/// the buyer deck and six are dealt onto the display.
pub fn create_initial_game_state(
    num_players: usize,
    ai_players: &[bool],
    rng: &mut SmallRng,
) -> (r: GameState)
    requires
        1 <= num_players <= MAX_PLAYERS,
        ai_players@.len() <= MAX_PLAYERS,
    ensures
        state_wf(r),
        r.players@.len() == num_players,
        r.round == 1,
        r.phase is Draw,
        forall|i: int| 0 <= i < num_players
            ==> (#[trigger] r.players@[i]).ducats == 0
                && r.players@[i].cached_score == 0
                && r.players@[i].deck@.len() == 6,
{
    let mut card_lookup: [Card; 128] = [Card::BasicRed; 128];
    let mut buyer_lookup: [BuyerCard; 128] = [BuyerCard::Textiles2Vermilion; 128];
    let mut next_card_id: u8 = 0;

    // Personal starting decks: six cards and the three primary pips.
    let mut players: FixedVec<PlayerState, MAX_PLAYERS> = FixedVec::new();
    let starters = starter_cards();
    let mut p: usize = 0;
    while p < num_players
        invariant
            p <= num_players,
            num_players <= MAX_PLAYERS,
            players@.len() == p,
            players.wf(),
            next_card_id == 6 * p,
            starters@.len() == 6,
            forall|i: int| 0 <= i < p
                ==> (#[trigger] players@[i]).ducats == 0
                    && players@[i].cached_score == 0
                    && players@[i].deck@.len() == 6,
        decreases num_players - p,
    {
        let mut deck = UnorderedCards::new();
        let mut s: usize = 0;
        while s < 6
            invariant
                s <= 6,
                starters@.len() == 6,
                next_card_id == 6 * (p as int) + s,
                p < num_players <= MAX_PLAYERS,
                deck@.finite(),
                deck@.len() == s,
                forall|id: u8| deck@.contains(id)
                    ==> 6 * (p as int) <= id < 6 * (p as int) + s,
            decreases 6 - s,
        {
            let id = next_card_id;
            card_lookup[id as usize] = starters[s];
            proof {
                assert(!deck@.contains(id));
            }
            deck.insert(id);
            next_card_id = next_card_id + 1;
            s = s + 1;
        }

        let mut color_wheel = ColorWheel::new();
        color_wheel.set(Color::Red, 1);
        color_wheel.set(Color::Yellow, 1);
        color_wheel.set(Color::Blue, 1);

        let player = PlayerState {
            deck,
            discard: UnorderedCards::new(),
            used_cards: UnorderedCards::new(),
            workshop_cards: UnorderedCards::new(),
            drafted_cards: UnorderedCards::new(),
            color_wheel,
            materials: Materials::new(),
            completed_buyers: Vec::new(),
            ducats: 0,
            cached_score: 0,
        };
        players.push(player);
        p = p + 1;
    }

    // The draft stock: dyes, materials, and actions, a fixed number of
    // copies each. With at most four players this tops out at id 98.
    let mut draft_deck = UnorderedCards::new();

    let dyes = draft_dye_types();
    let mut d: usize = 0;
    while d < dyes.len()
        invariant
            d <= dyes@.len(),
            dyes@.len() == 15,
            num_players <= MAX_PLAYERS,
            next_card_id == 6 * (num_players as int) + DYE_COPIES * d,
        decreases dyes@.len() - d,
    {
        add_copies(&mut draft_deck, &mut card_lookup, &mut next_card_id, dyes[d], DYE_COPIES);
        d = d + 1;
    }

    let materials = draft_material_types();
    let mut m: usize = 0;
    while m < materials.len()
        invariant
            m <= materials@.len(),
            materials@.len() == 15,
            num_players <= MAX_PLAYERS,
            next_card_id == 6 * (num_players as int) + 30 + MATERIAL_COPIES * m,
        decreases materials@.len() - m,
    {
        add_copies(
            &mut draft_deck, &mut card_lookup, &mut next_card_id, materials[m],
            MATERIAL_COPIES);
        m = m + 1;
    }

    let actions = draft_action_types();
    let mut a: usize = 0;
    while a < actions.len()
        invariant
            a <= actions@.len(),
            actions@.len() == 5,
            num_players <= MAX_PLAYERS,
            next_card_id == 6 * (num_players as int) + 60 + ACTION_COPIES * a,
        decreases actions@.len() - a,
    {
        add_copies(
            &mut draft_deck, &mut card_lookup, &mut next_card_id, actions[a], ACTION_COPIES);
        a = a + 1;
    }

    // The 51 buyers, one instance each.
    let mut buyer_deck = UnorderedBuyers::new();
    let buyers = crate::types::all_buyer_cards();
    let mut b: usize = 0;
    while b < buyers.len()
        invariant
            b <= buyers@.len(),
            buyers@.len() == 51,
        decreases buyers@.len() - b,
    {
        let id = b as u8;
        buyer_lookup[id as usize] = buyers[b];
        buyer_deck.insert(id);
        b = b + 1;
    }

    // Deal six buyers onto the display.
    let mut buyer_display: FixedVec<BuyerInstance, MAX_BUYER_DISPLAY> = FixedVec::new();
    let drawn_buyers = buyer_deck.draw_multiple(6, rng);
    let drawn_ids = drawn_buyers.members();
    let mut k: usize = 0;
    while k < drawn_ids.len()
        invariant
            k <= drawn_ids@.len(),
            drawn_ids@.len() <= MAX_BUYER_DISPLAY,
            buyer_display@.len() <= k,
            buyer_display.wf(),
            forall|l: int| 0 <= l < drawn_ids@.len() ==> #[trigger] drawn_ids@[l] < 128,
        decreases drawn_ids@.len() - k,
    {
        let id = drawn_ids[k];
        if buyer_display.len() < MAX_BUYER_DISPLAY {
            let inst = BuyerInstance {
                instance_id: id as u32,
                buyer: buyer_lookup[id as usize],
            };
            buyer_display.push(inst);
        }
        k = k + 1;
    }

    let ai_count = if ai_players.len() <= MAX_PLAYERS { ai_players.len() } else { MAX_PLAYERS };
    let ai = FixedVec::from_slice(ai_players);

    GameState {
        players,
        draft_deck,
        destroyed_pile: UnorderedCards::new(),
        buyer_deck,
        buyer_display,
        phase: GamePhase::Draw,
        round: 1,
        ai_players: ai,
        card_lookup,
        buyer_lookup,
    }
}

} // verus!
