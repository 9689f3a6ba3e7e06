//! The card catalog: full descriptions of every card in the game, usable
//! by hosts that need names and printed details rather than the compact
//! enumerated types the engine runs on.

use vstd::prelude::*;
use crate::types::{
    buyer_color_cost, buyer_required_material, buyer_stars, buyer_type_index, card_ability,
    card_kind, card_name, card_of_index, card_pips, card_material_types,
    card_workshop_abilities, Ability, BuyerCard, Card, CardKind, Color, MaterialType,
};

verus! {

/// A full card description: what is printed on the physical card.
#[derive(Debug)]
pub enum AnyCard {
    Dye { name: String, colors: Vec<Color>, ability: Ability },
    BasicDye { name: String, color: Color, ability: Ability },
    Material {
        name: String,
        material_types: Vec<MaterialType>,
        color_pip: Option<Color>,
        ability: Ability,
    },
    Action { name: String, ability: Ability, workshop_abilities: Vec<Ability> },
    Buyer { stars: u32, required_material: MaterialType, color_cost: Vec<Color> },
}

/// Whether a description matches the engine's card type `c` exactly: same
/// name, kind, pips, materials, and abilities.
pub open spec fn describes(a: AnyCard, c: Card) -> bool {
    match a {
        AnyCard::Dye { name, colors, ability } => {
            &&& card_kind(c) is Dye
            &&& name@ == card_name(c)
            &&& colors@ == card_pips(c)
            &&& ability == card_ability(c)
        }
        AnyCard::BasicDye { name, color, ability } => {
            &&& card_kind(c) is BasicDye
            &&& name@ == card_name(c)
            &&& seq![color] == card_pips(c)
            &&& ability == card_ability(c)
        }
        AnyCard::Material { name, material_types, color_pip, ability } => {
            &&& card_kind(c) is Material
            &&& name@ == card_name(c)
            &&& material_types@ == card_material_types(c)
            &&& (match color_pip {
                Option::Some(p) => seq![p] == card_pips(c),
                Option::None => card_pips(c).len() == 0,
            })
            &&& ability == card_ability(c)
        }
        AnyCard::Action { name, ability, workshop_abilities } => {
            &&& card_kind(c) is Action
            &&& name@ == card_name(c)
            &&& ability == card_ability(c)
            &&& workshop_abilities@ == card_workshop_abilities(c)
        }
        AnyCard::Buyer { .. } => false,
    }
}

/// Whether a description matches the buyer type at dense index `i`.
pub open spec fn describes_buyer_at(a: AnyCard, i: int) -> bool {
    exists|b: BuyerCard| #[trigger] buyer_type_index(b) == i && match a {
        AnyCard::Buyer { stars, required_material, color_cost } => {
            &&& stars == buyer_stars(b)
            &&& required_material == buyer_required_material(b)
            &&& color_cost@ == buyer_color_cost(b)
        }
        _ => false,
    }
}

impl AnyCard {
    /// The color pips printed on the card.
    pub fn get_pips(&self) -> (r: Vec<Color>)
        ensures
            match self {
                AnyCard::Dye { colors, .. } => r@ == colors@,
                AnyCard::BasicDye { color, .. } => r@ == seq![*color],
                AnyCard::Material { color_pip, .. } => match color_pip {
                    Option::Some(p) => r@ == seq![*p],
                    Option::None => r@.len() == 0,
                },
                _ => r@.len() == 0,
            },
    {
        match self {
            AnyCard::Dye { colors, .. } => {
                let r = crate::types::copy_vec(colors);
                r
            }
            AnyCard::BasicDye { color, .. } => {
                let r = vec![*color];
                proof {
                    assert(r@ =~= seq![*color]);
                }
                r
            }
            AnyCard::Material { color_pip, .. } => match color_pip {
                Some(c) => {
                    let r = vec![*c];
                    proof {
                        assert(r@ =~= seq![*c]);
                    }
                    r
                }
                None => Vec::new(),
            },
            AnyCard::Action { .. } => Vec::new(),
            AnyCard::Buyer { .. } => Vec::new(),
        }
    }

    /// The ability printed on the card; buyers have none.
    pub fn get_ability(&self) -> (r: &Ability)
        requires
            !(self is Buyer),
        ensures
            match self {
                AnyCard::Dye { ability, .. } => *r == ability,
                AnyCard::BasicDye { ability, .. } => *r == ability,
                AnyCard::Material { ability, .. } => *r == ability,
                AnyCard::Action { ability, .. } => *r == ability,
                _ => true,
            },
    {
        match self {
            AnyCard::Dye { ability, .. } => ability,
            AnyCard::BasicDye { ability, .. } => ability,
            AnyCard::Material { ability, .. } => ability,
            AnyCard::Action { ability, .. } => ability,
            AnyCard::Buyer { .. } => vstd::pervasive::unreached(),
        }
    }

    /// The kind of the card, as a short label.
    pub fn kind_str(&self) -> (r: &'static str)
        ensures
            match self {
                AnyCard::Dye { .. } => r@ == "dye"@,
                AnyCard::BasicDye { .. } => r@ == "basicDye"@,
                AnyCard::Material { .. } => r@ == "material"@,
                AnyCard::Action { .. } => r@ == "action"@,
                AnyCard::Buyer { .. } => r@ == "buyer"@,
            },
    {
        match self {
            AnyCard::Dye { .. } => "dye",
            AnyCard::BasicDye { .. } => "basicDye",
            AnyCard::Material { .. } => "material",
            AnyCard::Action { .. } => "action",
            AnyCard::Buyer { .. } => "buyer",
        }
    }

    /// Whether this is a buyer card.
    pub fn is_buyer(&self) -> (r: bool)
        ensures
            r == (self is Buyer),
    {
        matches!(self, AnyCard::Buyer { .. })
    }
}


/// The three basic dye cards of the starter decks.
pub fn basic_dye_cards() -> (r: Vec<AnyCard>)
    ensures
        r@.len() == 3,
        forall|i: int| 0 <= i < 3
            ==> describes(#[trigger] r@[i], card_of_index(0 + i)),
{
    let mut r: Vec<AnyCard> = Vec::new();
    let e0 = AnyCard::BasicDye {
        name: str::to_owned("Basic Red"),
        color: Color::Red,
        ability: Ability::Sell,
    };
    proof {
        assert(seq![Color::Red] =~= card_pips(card_of_index(0)));
    }
    proof {
        assert(describes(e0, card_of_index(0)));
    }
    r.push(e0);
    let e1 = AnyCard::BasicDye {
        name: str::to_owned("Basic Yellow"),
        color: Color::Yellow,
        ability: Ability::Sell,
    };
    proof {
        assert(seq![Color::Yellow] =~= card_pips(card_of_index(1)));
    }
    proof {
        assert(describes(e1, card_of_index(1)));
    }
    r.push(e1);
    let e2 = AnyCard::BasicDye {
        name: str::to_owned("Basic Blue"),
        color: Color::Blue,
        ability: Ability::Sell,
    };
    proof {
        assert(seq![Color::Blue] =~= card_pips(card_of_index(2)));
    }
    proof {
        assert(describes(e2, card_of_index(2)));
    }
    r.push(e2);
    proof {
        assert forall|i: int| 0 <= i < 3
            implies describes(#[trigger] r@[i], card_of_index(0 + i)) by {
            if i == 0 {
                assert(r@[0] == e0);
            } else if i == 1 {
                assert(r@[1] == e1);
            } else if i == 2 {
                assert(r@[2] == e2);
            }
        }
    }
    r
}

/// The fifteen dye cards of the draft stock.
pub fn dye_cards() -> (r: Vec<AnyCard>)
    ensures
        r@.len() == 15,
        forall|i: int| 0 <= i < 15
            ==> describes(#[trigger] r@[i], card_of_index(3 + i)),
{
    let mut r: Vec<AnyCard> = Vec::new();
    let colors0: Vec<Color> = vec![Color::Red, Color::Red, Color::Red];
    proof {
        assert(colors0@ =~= card_pips(card_of_index(3)));
    }
    let e0 = AnyCard::Dye {
        name: str::to_owned("Kermes"),
        colors: colors0,
        ability: Ability::Sell,
    };
    proof {
        assert(describes(e0, card_of_index(3)));
    }
    r.push(e0);
    let colors1: Vec<Color> = vec![Color::Yellow, Color::Yellow, Color::Yellow];
    proof {
        assert(colors1@ =~= card_pips(card_of_index(4)));
    }
    let e1 = AnyCard::Dye {
        name: str::to_owned("Weld"),
        colors: colors1,
        ability: Ability::Sell,
    };
    proof {
        assert(describes(e1, card_of_index(4)));
    }
    r.push(e1);
    let colors2: Vec<Color> = vec![Color::Blue, Color::Blue, Color::Blue];
    proof {
        assert(colors2@ =~= card_pips(card_of_index(5)));
    }
    let e2 = AnyCard::Dye {
        name: str::to_owned("Woad"),
        colors: colors2,
        ability: Ability::Sell,
    };
    proof {
        assert(describes(e2, card_of_index(5)));
    }
    r.push(e2);
    let colors3: Vec<Color> = vec![Color::Orange, Color::Red];
    proof {
        assert(colors3@ =~= card_pips(card_of_index(6)));
    }
    let e3 = AnyCard::Dye {
        name: str::to_owned("Madder"),
        colors: colors3,
        ability: Ability::Workshop { count: 3 },
    };
    proof {
        assert(describes(e3, card_of_index(6)));
    }
    r.push(e3);
    let colors4: Vec<Color> = vec![Color::Orange, Color::Yellow];
    proof {
        assert(colors4@ =~= card_pips(card_of_index(7)));
    }
    let e4 = AnyCard::Dye {
        name: str::to_owned("Turmeric"),
        colors: colors4,
        ability: Ability::Workshop { count: 3 },
    };
    proof {
        assert(describes(e4, card_of_index(7)));
    }
    r.push(e4);
    let colors5: Vec<Color> = vec![Color::Green, Color::Yellow];
    proof {
        assert(colors5@ =~= card_pips(card_of_index(8)));
    }
    let e5 = AnyCard::Dye {
        name: str::to_owned("Dyer's Greenweed"),
        colors: colors5,
        ability: Ability::Workshop { count: 3 },
    };
    proof {
        assert(describes(e5, card_of_index(8)));
    }
    r.push(e5);
    let colors6: Vec<Color> = vec![Color::Green, Color::Blue];
    proof {
        assert(colors6@ =~= card_pips(card_of_index(9)));
    }
    let e6 = AnyCard::Dye {
        name: str::to_owned("Verdigris"),
        colors: colors6,
        ability: Ability::Workshop { count: 3 },
    };
    proof {
        assert(describes(e6, card_of_index(9)));
    }
    r.push(e6);
    let colors7: Vec<Color> = vec![Color::Purple, Color::Red];
    proof {
        assert(colors7@ =~= card_pips(card_of_index(10)));
    }
    let e7 = AnyCard::Dye {
        name: str::to_owned("Orchil"),
        colors: colors7,
        ability: Ability::Workshop { count: 3 },
    };
    proof {
        assert(describes(e7, card_of_index(10)));
    }
    r.push(e7);
    let colors8: Vec<Color> = vec![Color::Purple, Color::Blue];
    proof {
        assert(colors8@ =~= card_pips(card_of_index(11)));
    }
    let e8 = AnyCard::Dye {
        name: str::to_owned("Logwood"),
        colors: colors8,
        ability: Ability::Workshop { count: 3 },
    };
    proof {
        assert(describes(e8, card_of_index(11)));
    }
    r.push(e8);
    let colors9: Vec<Color> = vec![Color::Vermilion];
    proof {
        assert(colors9@ =~= card_pips(card_of_index(12)));
    }
    let e9 = AnyCard::Dye {
        name: str::to_owned("Vermilion"),
        colors: colors9,
        ability: Ability::MixColors { count: 2 },
    };
    proof {
        assert(describes(e9, card_of_index(12)));
    }
    r.push(e9);
    let colors10: Vec<Color> = vec![Color::Amber];
    proof {
        assert(colors10@ =~= card_pips(card_of_index(13)));
    }
    let e10 = AnyCard::Dye {
        name: str::to_owned("Saffron"),
        colors: colors10,
        ability: Ability::MixColors { count: 2 },
    };
    proof {
        assert(describes(e10, card_of_index(13)));
    }
    r.push(e10);
    let colors11: Vec<Color> = vec![Color::Chartreuse];
    proof {
        assert(colors11@ =~= card_pips(card_of_index(14)));
    }
    let e11 = AnyCard::Dye {
        name: str::to_owned("Persian Berries"),
        colors: colors11,
        ability: Ability::MixColors { count: 2 },
    };
    proof {
        assert(describes(e11, card_of_index(14)));
    }
    r.push(e11);
    let colors12: Vec<Color> = vec![Color::Teal];
    proof {
        assert(colors12@ =~= card_pips(card_of_index(15)));
    }
    let e12 = AnyCard::Dye {
        name: str::to_owned("Azurite"),
        colors: colors12,
        ability: Ability::MixColors { count: 2 },
    };
    proof {
        assert(describes(e12, card_of_index(15)));
    }
    r.push(e12);
    let colors13: Vec<Color> = vec![Color::Indigo];
    proof {
        assert(colors13@ =~= card_pips(card_of_index(16)));
    }
    let e13 = AnyCard::Dye {
        name: str::to_owned("Indigo"),
        colors: colors13,
        ability: Ability::MixColors { count: 2 },
    };
    proof {
        assert(describes(e13, card_of_index(16)));
    }
    r.push(e13);
    let colors14: Vec<Color> = vec![Color::Magenta];
    proof {
        assert(colors14@ =~= card_pips(card_of_index(17)));
    }
    let e14 = AnyCard::Dye {
        name: str::to_owned("Cochineal"),
        colors: colors14,
        ability: Ability::MixColors { count: 2 },
    };
    proof {
        assert(describes(e14, card_of_index(17)));
    }
    r.push(e14);
    proof {
        assert forall|i: int| 0 <= i < 15
            implies describes(#[trigger] r@[i], card_of_index(3 + i)) by {
            if i == 0 {
                assert(r@[0] == e0);
            } else if i == 1 {
                assert(r@[1] == e1);
            } else if i == 2 {
                assert(r@[2] == e2);
            } else if i == 3 {
                assert(r@[3] == e3);
            } else if i == 4 {
                assert(r@[4] == e4);
            } else if i == 5 {
                assert(r@[5] == e5);
            } else if i == 6 {
                assert(r@[6] == e6);
            } else if i == 7 {
                assert(r@[7] == e7);
            } else if i == 8 {
                assert(r@[8] == e8);
            } else if i == 9 {
                assert(r@[9] == e9);
            } else if i == 10 {
                assert(r@[10] == e10);
            } else if i == 11 {
                assert(r@[11] == e11);
            } else if i == 12 {
                assert(r@[12] == e12);
            } else if i == 13 {
                assert(r@[13] == e13);
            } else if i == 14 {
                assert(r@[14] == e14);
            }
        }
    }
    r
}

/// The three starter material cards.
pub fn starter_material_cards() -> (r: Vec<AnyCard>)
    ensures
        r@.len() == 3,
        forall|i: int| 0 <= i < 3
            ==> describes(#[trigger] r@[i], card_of_index(18 + i)),
{
    let mut r: Vec<AnyCard> = Vec::new();
    let mats0: Vec<MaterialType> = vec![MaterialType::Ceramics];
    proof {
        assert(mats0@ =~= card_material_types(card_of_index(18)));
    }
    let e0 = AnyCard::Material {
        name: str::to_owned("Ceramics"),
        material_types: mats0,
        color_pip: None,
        ability: Ability::Workshop { count: 2 },
    };
    proof {
        assert(describes(e0, card_of_index(18)));
    }
    r.push(e0);
    let mats1: Vec<MaterialType> = vec![MaterialType::Paintings];
    proof {
        assert(mats1@ =~= card_material_types(card_of_index(19)));
    }
    let e1 = AnyCard::Material {
        name: str::to_owned("Paintings"),
        material_types: mats1,
        color_pip: None,
        ability: Ability::Sell,
    };
    proof {
        assert(describes(e1, card_of_index(19)));
    }
    r.push(e1);
    let mats2: Vec<MaterialType> = vec![MaterialType::Textiles];
    proof {
        assert(mats2@ =~= card_material_types(card_of_index(20)));
    }
    let e2 = AnyCard::Material {
        name: str::to_owned("Textiles"),
        material_types: mats2,
        color_pip: None,
        ability: Ability::Workshop { count: 2 },
    };
    proof {
        assert(describes(e2, card_of_index(20)));
    }
    r.push(e2);
    proof {
        assert forall|i: int| 0 <= i < 3
            implies describes(#[trigger] r@[i], card_of_index(18 + i)) by {
            if i == 0 {
                assert(r@[0] == e0);
            } else if i == 1 {
                assert(r@[1] == e1);
            } else if i == 2 {
                assert(r@[2] == e2);
            }
        }
    }
    r
}

/// The fifteen material cards of the draft stock.
pub fn draft_material_cards() -> (r: Vec<AnyCard>)
    ensures
        r@.len() == 15,
        forall|i: int| 0 <= i < 15
            ==> describes(#[trigger] r@[i], card_of_index(21 + i)),
{
    let mut r: Vec<AnyCard> = Vec::new();
    let mats0: Vec<MaterialType> = vec![MaterialType::Ceramics, MaterialType::Ceramics];
    proof {
        assert(mats0@ =~= card_material_types(card_of_index(21)));
    }
    let e0 = AnyCard::Material {
        name: str::to_owned("Fine Ceramics"),
        material_types: mats0,
        color_pip: None,
        ability: Ability::Workshop { count: 2 },
    };
    proof {
        assert(describes(e0, card_of_index(21)));
    }
    r.push(e0);
    let mats1: Vec<MaterialType> = vec![MaterialType::Paintings, MaterialType::Paintings];
    proof {
        assert(mats1@ =~= card_material_types(card_of_index(22)));
    }
    let e1 = AnyCard::Material {
        name: str::to_owned("Fine Paintings"),
        material_types: mats1,
        color_pip: None,
        ability: Ability::Sell,
    };
    proof {
        assert(describes(e1, card_of_index(22)));
    }
    r.push(e1);
    let mats2: Vec<MaterialType> = vec![MaterialType::Textiles, MaterialType::Textiles];
    proof {
        assert(mats2@ =~= card_material_types(card_of_index(23)));
    }
    let e2 = AnyCard::Material {
        name: str::to_owned("Fine Textiles"),
        material_types: mats2,
        color_pip: None,
        ability: Ability::DrawCards { count: 2 },
    };
    proof {
        assert(describes(e2, card_of_index(23)));
    }
    r.push(e2);
    let mats3: Vec<MaterialType> = vec![MaterialType::Ceramics];
    proof {
        assert(mats3@ =~= card_material_types(card_of_index(24)));
        assert(seq![Color::Red] =~= card_pips(card_of_index(24)));
    }
    let e3 = AnyCard::Material {
        name: str::to_owned("Terra Cotta"),
        material_types: mats3,
        color_pip: Some(Color::Red),
        ability: Ability::Workshop { count: 2 },
    };
    proof {
        assert(describes(e3, card_of_index(24)));
    }
    r.push(e3);
    let mats4: Vec<MaterialType> = vec![MaterialType::Ceramics];
    proof {
        assert(mats4@ =~= card_material_types(card_of_index(25)));
        assert(seq![Color::Yellow] =~= card_pips(card_of_index(25)));
    }
    let e4 = AnyCard::Material {
        name: str::to_owned("Ochre Ware"),
        material_types: mats4,
        color_pip: Some(Color::Yellow),
        ability: Ability::Workshop { count: 2 },
    };
    proof {
        assert(describes(e4, card_of_index(25)));
    }
    r.push(e4);
    let mats5: Vec<MaterialType> = vec![MaterialType::Ceramics];
    proof {
        assert(mats5@ =~= card_material_types(card_of_index(26)));
        assert(seq![Color::Blue] =~= card_pips(card_of_index(26)));
    }
    let e5 = AnyCard::Material {
        name: str::to_owned("Cobalt Ware"),
        material_types: mats5,
        color_pip: Some(Color::Blue),
        ability: Ability::Workshop { count: 2 },
    };
    proof {
        assert(describes(e5, card_of_index(26)));
    }
    r.push(e5);
    let mats6: Vec<MaterialType> = vec![MaterialType::Paintings];
    proof {
        assert(mats6@ =~= card_material_types(card_of_index(27)));
        assert(seq![Color::Red] =~= card_pips(card_of_index(27)));
    }
    let e6 = AnyCard::Material {
        name: str::to_owned("Cinnabar & Canvas"),
        material_types: mats6,
        color_pip: Some(Color::Red),
        ability: Ability::Sell,
    };
    proof {
        assert(describes(e6, card_of_index(27)));
    }
    r.push(e6);
    let mats7: Vec<MaterialType> = vec![MaterialType::Paintings];
    proof {
        assert(mats7@ =~= card_material_types(card_of_index(28)));
        assert(seq![Color::Yellow] =~= card_pips(card_of_index(28)));
    }
    let e7 = AnyCard::Material {
        name: str::to_owned("Orpiment & Canvas"),
        material_types: mats7,
        color_pip: Some(Color::Yellow),
        ability: Ability::Sell,
    };
    proof {
        assert(describes(e7, card_of_index(28)));
    }
    r.push(e7);
    let mats8: Vec<MaterialType> = vec![MaterialType::Paintings];
    proof {
        assert(mats8@ =~= card_material_types(card_of_index(29)));
        assert(seq![Color::Blue] =~= card_pips(card_of_index(29)));
    }
    let e8 = AnyCard::Material {
        name: str::to_owned("Ultramarine & Canvas"),
        material_types: mats8,
        color_pip: Some(Color::Blue),
        ability: Ability::Sell,
    };
    proof {
        assert(describes(e8, card_of_index(29)));
    }
    r.push(e8);
    let mats9: Vec<MaterialType> = vec![MaterialType::Textiles];
    proof {
        assert(mats9@ =~= card_material_types(card_of_index(30)));
        assert(seq![Color::Red] =~= card_pips(card_of_index(30)));
    }
    let e9 = AnyCard::Material {
        name: str::to_owned("Alizarin & Fabric"),
        material_types: mats9,
        color_pip: Some(Color::Red),
        ability: Ability::DrawCards { count: 2 },
    };
    proof {
        assert(describes(e9, card_of_index(30)));
    }
    r.push(e9);
    let mats10: Vec<MaterialType> = vec![MaterialType::Textiles];
    proof {
        assert(mats10@ =~= card_material_types(card_of_index(31)));
        assert(seq![Color::Yellow] =~= card_pips(card_of_index(31)));
    }
    let e10 = AnyCard::Material {
        name: str::to_owned("Fustic & Fabric"),
        material_types: mats10,
        color_pip: Some(Color::Yellow),
        ability: Ability::DrawCards { count: 2 },
    };
    proof {
        assert(describes(e10, card_of_index(31)));
    }
    r.push(e10);
    let mats11: Vec<MaterialType> = vec![MaterialType::Textiles];
    proof {
        assert(mats11@ =~= card_material_types(card_of_index(32)));
        assert(seq![Color::Blue] =~= card_pips(card_of_index(32)));
    }
    let e11 = AnyCard::Material {
        name: str::to_owned("Pastel & Fabric"),
        material_types: mats11,
        color_pip: Some(Color::Blue),
        ability: Ability::DrawCards { count: 2 },
    };
    proof {
        assert(describes(e11, card_of_index(32)));
    }
    r.push(e11);
    let mats12: Vec<MaterialType> = vec![MaterialType::Ceramics, MaterialType::Paintings];
    proof {
        assert(mats12@ =~= card_material_types(card_of_index(33)));
    }
    let e12 = AnyCard::Material {
        name: str::to_owned("Clay & Canvas"),
        material_types: mats12,
        color_pip: None,
        ability: Ability::DestroyCards { count: 1 },
    };
    proof {
        assert(describes(e12, card_of_index(33)));
    }
    r.push(e12);
    let mats13: Vec<MaterialType> = vec![MaterialType::Ceramics, MaterialType::Textiles];
    proof {
        assert(mats13@ =~= card_material_types(card_of_index(34)));
    }
    let e13 = AnyCard::Material {
        name: str::to_owned("Clay & Fabric"),
        material_types: mats13,
        color_pip: None,
        ability: Ability::DestroyCards { count: 1 },
    };
    proof {
        assert(describes(e13, card_of_index(34)));
    }
    r.push(e13);
    let mats14: Vec<MaterialType> = vec![MaterialType::Paintings, MaterialType::Textiles];
    proof {
        assert(mats14@ =~= card_material_types(card_of_index(35)));
    }
    let e14 = AnyCard::Material {
        name: str::to_owned("Canvas & Fabric"),
        material_types: mats14,
        color_pip: None,
        ability: Ability::DestroyCards { count: 1 },
    };
    proof {
        assert(describes(e14, card_of_index(35)));
    }
    r.push(e14);
    proof {
        assert forall|i: int| 0 <= i < 15
            implies describes(#[trigger] r@[i], card_of_index(21 + i)) by {
            if i == 0 {
                assert(r@[0] == e0);
            } else if i == 1 {
                assert(r@[1] == e1);
            } else if i == 2 {
                assert(r@[2] == e2);
            } else if i == 3 {
                assert(r@[3] == e3);
            } else if i == 4 {
                assert(r@[4] == e4);
            } else if i == 5 {
                assert(r@[5] == e5);
            } else if i == 6 {
                assert(r@[6] == e6);
            } else if i == 7 {
                assert(r@[7] == e7);
            } else if i == 8 {
                assert(r@[8] == e8);
            } else if i == 9 {
                assert(r@[9] == e9);
            } else if i == 10 {
                assert(r@[10] == e10);
            } else if i == 11 {
                assert(r@[11] == e11);
            } else if i == 12 {
                assert(r@[12] == e12);
            } else if i == 13 {
                assert(r@[13] == e13);
            } else if i == 14 {
                assert(r@[14] == e14);
            }
        }
    }
    r
}

/// The five action cards of the draft stock.
pub fn action_cards() -> (r: Vec<AnyCard>)
    ensures
        r@.len() == 5,
        forall|i: int| 0 <= i < 5
            ==> describes(#[trigger] r@[i], card_of_index(36 + i)),
{
    let mut r: Vec<AnyCard> = Vec::new();
    let ws0: Vec<Ability> = vec![Ability::GainDucats { count: 1 }];
    proof {
        assert(ws0@ =~= card_workshop_abilities(card_of_index(36)));
    }
    let e0 = AnyCard::Action {
        name: str::to_owned("Alum"),
        ability: Ability::DestroyCards { count: 1 },
        workshop_abilities: ws0,
    };
    proof {
        assert(describes(e0, card_of_index(36)));
    }
    r.push(e0);
    let ws1: Vec<Ability> = vec![Ability::DrawCards { count: 3 }];
    proof {
        assert(ws1@ =~= card_workshop_abilities(card_of_index(37)));
    }
    let e1 = AnyCard::Action {
        name: str::to_owned("Cream of Tartar"),
        ability: Ability::DestroyCards { count: 1 },
        workshop_abilities: ws1,
    };
    proof {
        assert(describes(e1, card_of_index(37)));
    }
    r.push(e1);
    let ws2: Vec<Ability> = vec![Ability::GainSecondary];
    proof {
        assert(ws2@ =~= card_workshop_abilities(card_of_index(38)));
    }
    let e2 = AnyCard::Action {
        name: str::to_owned("Gum Arabic"),
        ability: Ability::DestroyCards { count: 1 },
        workshop_abilities: ws2,
    };
    proof {
        assert(describes(e2, card_of_index(38)));
    }
    r.push(e2);
    let ws3: Vec<Ability> = vec![Ability::Workshop { count: 3 }];
    proof {
        assert(ws3@ =~= card_workshop_abilities(card_of_index(39)));
    }
    let e3 = AnyCard::Action {
        name: str::to_owned("Potash"),
        ability: Ability::DestroyCards { count: 1 },
        workshop_abilities: ws3,
    };
    proof {
        assert(describes(e3, card_of_index(39)));
    }
    r.push(e3);
    let ws4: Vec<Ability> = vec![Ability::ChangeTertiary];
    proof {
        assert(ws4@ =~= card_workshop_abilities(card_of_index(40)));
    }
    let e4 = AnyCard::Action {
        name: str::to_owned("Vinegar"),
        ability: Ability::DestroyCards { count: 1 },
        workshop_abilities: ws4,
    };
    proof {
        assert(describes(e4, card_of_index(40)));
    }
    r.push(e4);
    proof {
        assert forall|i: int| 0 <= i < 5
            implies describes(#[trigger] r@[i], card_of_index(36 + i)) by {
            if i == 0 {
                assert(r@[0] == e0);
            } else if i == 1 {
                assert(r@[1] == e1);
            } else if i == 2 {
                assert(r@[2] == e2);
            } else if i == 3 {
                assert(r@[3] == e3);
            } else if i == 4 {
                assert(r@[4] == e4);
            }
        }
    }
    r
}

/// The chalk action card, outside the regular draft stock.
pub fn chalk_card() -> (r: AnyCard)
    ensures
        describes(r, Card::Chalk),
{
    let ws: Vec<Ability> = vec![Ability::GainPrimary];
    proof {
        assert(ws@ =~= card_workshop_abilities(Card::Chalk));
    }
    AnyCard::Action {
        name: str::to_owned("Chalk"),
        ability: Ability::Sell,
        workshop_abilities: ws,
    }
}

/// Every buyer card as a full description, in dense-index order.
pub fn generate_all_buyers() -> (r: Vec<AnyCard>)
    ensures
        r@.len() == 51,
        forall|i: int| 0 <= i < 51 ==> describes_buyer_at(#[trigger] r@[i], i),
{
    let types = crate::types::all_buyer_cards();
    let mut out: Vec<AnyCard> = Vec::new();
    let mut k: usize = 0;
    while k < types.len()
        invariant
            k <= types@.len(),
            types@.len() == 51,
            out@.len() == k,
            forall|i: int| 0 <= i < 51 ==> buyer_type_index(#[trigger] types@[i]) == i,
            forall|i: int| 0 <= i < k ==> describes_buyer_at(#[trigger] out@[i], i),
        decreases types@.len() - k,
    {
        let b = types[k];
        let entry = AnyCard::Buyer {
            stars: b.stars(),
            required_material: b.required_material(),
            color_cost: b.color_cost(),
        };
        proof {
            assert(buyer_type_index(types@[k as int]) == k as int);
            assert(describes_buyer_at(entry, k as int));
        }
        out.push(entry);
        k = k + 1;
    }
    out
}

} // verus!
