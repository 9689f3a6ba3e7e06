//! Core data model: colors, materials, abilities, cards, buyers, game
//! state, and the choices a player can make.

use vstd::prelude::*;
use crate::fixed_vec::FixedVec;
use crate::unordered_cards::{UnorderedBuyers, UnorderedCards};
use crate::{MAX_BUYER_DISPLAY, MAX_PLAYERS};

verus! {

/// The twelve colors of the wheel, in wheel order: primaries sit at
/// positions 0, 4, 8; secondaries at 2, 6, 10; tertiaries at the odd
/// positions between them.
#[derive(Debug, Clone, Copy, PartialEq, Eq, Structural)]
pub enum Color {
    Red,
    Vermilion,
    Orange,
    Amber,
    Yellow,
    Chartreuse,
    Green,
    Teal,
    Blue,
    Indigo,
    Purple,
    Magenta,
}

/// Position of a color on the wheel.
pub open spec fn color_index(c: Color) -> int {
    match c {
        Color::Red => 0,
        Color::Vermilion => 1,
        Color::Orange => 2,
        Color::Amber => 3,
        Color::Yellow => 4,
        Color::Chartreuse => 5,
        Color::Green => 6,
        Color::Teal => 7,
        Color::Blue => 8,
        Color::Indigo => 9,
        Color::Purple => 10,
        Color::Magenta => 11,
    }
}

/// The color sitting at a wheel position.
pub open spec fn color_at(i: int) -> Color {
    if i == 0 { Color::Red }
    else if i == 1 { Color::Vermilion }
    else if i == 2 { Color::Orange }
    else if i == 3 { Color::Amber }
    else if i == 4 { Color::Yellow }
    else if i == 5 { Color::Chartreuse }
    else if i == 6 { Color::Green }
    else if i == 7 { Color::Teal }
    else if i == 8 { Color::Blue }
    else if i == 9 { Color::Indigo }
    else if i == 10 { Color::Purple }
    else { Color::Magenta }
}

impl Color {
    /// Position of this color on the wheel.
    pub fn index(self) -> (r: usize)
        ensures
            r == color_index(self),
            r < 12,
    {
        match self {
            Color::Red => 0,
            Color::Vermilion => 1,
            Color::Orange => 2,
            Color::Amber => 3,
            Color::Yellow => 4,
            Color::Chartreuse => 5,
            Color::Green => 6,
            Color::Teal => 7,
            Color::Blue => 8,
            Color::Indigo => 9,
            Color::Purple => 10,
            Color::Magenta => 11,
        }
    }

    /// The color at a wheel position.
    pub fn from_index(i: usize) -> (r: Color)
        requires
            i < 12,
        ensures
            r == color_at(i as int),
            color_index(r) == i,
    {
        if i == 0 { Color::Red }
        else if i == 1 { Color::Vermilion }
        else if i == 2 { Color::Orange }
        else if i == 3 { Color::Amber }
        else if i == 4 { Color::Yellow }
        else if i == 5 { Color::Chartreuse }
        else if i == 6 { Color::Green }
        else if i == 7 { Color::Teal }
        else if i == 8 { Color::Blue }
        else if i == 9 { Color::Indigo }
        else if i == 10 { Color::Purple }
        else { Color::Magenta }
    }
}

/// Round-tripping a color through its wheel position returns the color.
pub proof fn lemma_color_index_roundtrip(c: Color)
    ensures
        color_at(color_index(c)) == c,
        0 <= color_index(c) < 12,
{
}

/// The three kinds of goods a buyer can demand.
#[derive(Debug, Clone, Copy, PartialEq, Eq, Structural)]
pub enum MaterialType {
    Textiles,
    Ceramics,
    Paintings,
}

/// Index of a material type in a `Materials` count array.
pub open spec fn material_index(m: MaterialType) -> int {
    match m {
        MaterialType::Textiles => 0,
        MaterialType::Ceramics => 1,
        MaterialType::Paintings => 2,
    }
}

impl MaterialType {
    /// Index of this material type in a `Materials` count array.
    pub fn index(self) -> (r: usize)
        ensures
            r == material_index(self),
            r < 3,
    {
        match self {
            MaterialType::Textiles => 0,
            MaterialType::Ceramics => 1,
            MaterialType::Paintings => 2,
        }
    }
}

/// An effect a card grants when played or used in the workshop.
#[derive(Debug, Clone, Copy, PartialEq, Eq, Structural)]
pub enum Ability {
    Workshop { count: u32 },
    DrawCards { count: u32 },
    MixColors { count: u32 },
    DestroyCards { count: u32 },
    Sell,
    GainDucats { count: u32 },
    GainSecondary,
    GainPrimary,
    ChangeTertiary,
}

/// Broad category of a card.
#[derive(Debug, Clone, Copy, PartialEq, Eq, Structural)]
pub enum CardKind {
    Dye,
    BasicDye,
    Material,
    Action,
}

/// All cards in the game, one variant per card type.
#[derive(Debug, Clone, Copy, PartialEq, Eq, Structural)]
pub enum Card {
    BasicRed,
    BasicYellow,
    BasicBlue,
    Kermes,
    Weld,
    Woad,
    Madder,
    Turmeric,
    DyersGreenweed,
    Verdigris,
    Orchil,
    Logwood,
    VermilionDye,
    Saffron,
    PersianBerries,
    Azurite,
    IndigoDye,
    Cochineal,
    StarterCeramics,
    StarterPaintings,
    StarterTextiles,
    FineCeramics,
    FinePaintings,
    FineTextiles,
    TerraCotta,
    OchreWare,
    CobaltWare,
    CinnabarCanvas,
    OrpimentCanvas,
    UltramarineCanvas,
    AlizarinFabric,
    FusticFabric,
    PastelFabric,
    ClayCanvas,
    ClayFabric,
    CanvasFabric,
    Alum,
    CreamOfTartar,
    GumArabic,
    Potash,
    Vinegar,
    Chalk,
}

pub const NUM_CARD_TYPES: usize = 42;

/// Dense index of a card type, used by encodings and canonical orderings.
pub open spec fn card_type_index(c: Card) -> int {
    match c {
        Card::BasicRed => 0,
        Card::BasicYellow => 1,
        Card::BasicBlue => 2,
        Card::Kermes => 3,
        Card::Weld => 4,
        Card::Woad => 5,
        Card::Madder => 6,
        Card::Turmeric => 7,
        Card::DyersGreenweed => 8,
        Card::Verdigris => 9,
        Card::Orchil => 10,
        Card::Logwood => 11,
        Card::VermilionDye => 12,
        Card::Saffron => 13,
        Card::PersianBerries => 14,
        Card::Azurite => 15,
        Card::IndigoDye => 16,
        Card::Cochineal => 17,
        Card::StarterCeramics => 18,
        Card::StarterPaintings => 19,
        Card::StarterTextiles => 20,
        Card::FineCeramics => 21,
        Card::FinePaintings => 22,
        Card::FineTextiles => 23,
        Card::TerraCotta => 24,
        Card::OchreWare => 25,
        Card::CobaltWare => 26,
        Card::CinnabarCanvas => 27,
        Card::OrpimentCanvas => 28,
        Card::UltramarineCanvas => 29,
        Card::AlizarinFabric => 30,
        Card::FusticFabric => 31,
        Card::PastelFabric => 32,
        Card::ClayCanvas => 33,
        Card::ClayFabric => 34,
        Card::CanvasFabric => 35,
        Card::Alum => 36,
        Card::CreamOfTartar => 37,
        Card::GumArabic => 38,
        Card::Potash => 39,
        Card::Vinegar => 40,
        Card::Chalk => 41,
    }
}

/// The card type at a dense index.
pub open spec fn card_of_index(i: int) -> Card {
    if i == 0 { Card::BasicRed }
    else if i == 1 { Card::BasicYellow }
    else if i == 2 { Card::BasicBlue }
    else if i == 3 { Card::Kermes }
    else if i == 4 { Card::Weld }
    else if i == 5 { Card::Woad }
    else if i == 6 { Card::Madder }
    else if i == 7 { Card::Turmeric }
    else if i == 8 { Card::DyersGreenweed }
    else if i == 9 { Card::Verdigris }
    else if i == 10 { Card::Orchil }
    else if i == 11 { Card::Logwood }
    else if i == 12 { Card::VermilionDye }
    else if i == 13 { Card::Saffron }
    else if i == 14 { Card::PersianBerries }
    else if i == 15 { Card::Azurite }
    else if i == 16 { Card::IndigoDye }
    else if i == 17 { Card::Cochineal }
    else if i == 18 { Card::StarterCeramics }
    else if i == 19 { Card::StarterPaintings }
    else if i == 20 { Card::StarterTextiles }
    else if i == 21 { Card::FineCeramics }
    else if i == 22 { Card::FinePaintings }
    else if i == 23 { Card::FineTextiles }
    else if i == 24 { Card::TerraCotta }
    else if i == 25 { Card::OchreWare }
    else if i == 26 { Card::CobaltWare }
    else if i == 27 { Card::CinnabarCanvas }
    else if i == 28 { Card::OrpimentCanvas }
    else if i == 29 { Card::UltramarineCanvas }
    else if i == 30 { Card::AlizarinFabric }
    else if i == 31 { Card::FusticFabric }
    else if i == 32 { Card::PastelFabric }
    else if i == 33 { Card::ClayCanvas }
    else if i == 34 { Card::ClayFabric }
    else if i == 35 { Card::CanvasFabric }
    else if i == 36 { Card::Alum }
    else if i == 37 { Card::CreamOfTartar }
    else if i == 38 { Card::GumArabic }
    else if i == 39 { Card::Potash }
    else if i == 40 { Card::Vinegar }
    else { Card::Chalk }
}

/// Category of a card type.
pub open spec fn card_kind(c: Card) -> CardKind {
    match c {
        Card::BasicRed => CardKind::BasicDye,
        Card::BasicYellow => CardKind::BasicDye,
        Card::BasicBlue => CardKind::BasicDye,
        Card::Kermes => CardKind::Dye,
        Card::Weld => CardKind::Dye,
        Card::Woad => CardKind::Dye,
        Card::Madder => CardKind::Dye,
        Card::Turmeric => CardKind::Dye,
        Card::DyersGreenweed => CardKind::Dye,
        Card::Verdigris => CardKind::Dye,
        Card::Orchil => CardKind::Dye,
        Card::Logwood => CardKind::Dye,
        Card::VermilionDye => CardKind::Dye,
        Card::Saffron => CardKind::Dye,
        Card::PersianBerries => CardKind::Dye,
        Card::Azurite => CardKind::Dye,
        Card::IndigoDye => CardKind::Dye,
        Card::Cochineal => CardKind::Dye,
        Card::StarterCeramics => CardKind::Material,
        Card::StarterPaintings => CardKind::Material,
        Card::StarterTextiles => CardKind::Material,
        Card::FineCeramics => CardKind::Material,
        Card::FinePaintings => CardKind::Material,
        Card::FineTextiles => CardKind::Material,
        Card::TerraCotta => CardKind::Material,
        Card::OchreWare => CardKind::Material,
        Card::CobaltWare => CardKind::Material,
        Card::CinnabarCanvas => CardKind::Material,
        Card::OrpimentCanvas => CardKind::Material,
        Card::UltramarineCanvas => CardKind::Material,
        Card::AlizarinFabric => CardKind::Material,
        Card::FusticFabric => CardKind::Material,
        Card::PastelFabric => CardKind::Material,
        Card::ClayCanvas => CardKind::Material,
        Card::ClayFabric => CardKind::Material,
        Card::CanvasFabric => CardKind::Material,
        Card::Alum => CardKind::Action,
        Card::CreamOfTartar => CardKind::Action,
        Card::GumArabic => CardKind::Action,
        Card::Potash => CardKind::Action,
        Card::Vinegar => CardKind::Action,
        Card::Chalk => CardKind::Action,
    }
}

/// The ability a card grants when played from the drafted row.
pub open spec fn card_ability(c: Card) -> Ability {
    match c {
        Card::BasicRed => Ability::Sell,
        Card::BasicYellow => Ability::Sell,
        Card::BasicBlue => Ability::Sell,
        Card::Kermes => Ability::Sell,
        Card::Weld => Ability::Sell,
        Card::Woad => Ability::Sell,
        Card::Madder => Ability::Workshop { count: 3 },
        Card::Turmeric => Ability::Workshop { count: 3 },
        Card::DyersGreenweed => Ability::Workshop { count: 3 },
        Card::Verdigris => Ability::Workshop { count: 3 },
        Card::Orchil => Ability::Workshop { count: 3 },
        Card::Logwood => Ability::Workshop { count: 3 },
        Card::VermilionDye => Ability::MixColors { count: 2 },
        Card::Saffron => Ability::MixColors { count: 2 },
        Card::PersianBerries => Ability::MixColors { count: 2 },
        Card::Azurite => Ability::MixColors { count: 2 },
        Card::IndigoDye => Ability::MixColors { count: 2 },
        Card::Cochineal => Ability::MixColors { count: 2 },
        Card::StarterCeramics => Ability::Workshop { count: 2 },
        Card::StarterPaintings => Ability::Sell,
        Card::StarterTextiles => Ability::Workshop { count: 2 },
        Card::FineCeramics => Ability::Workshop { count: 2 },
        Card::FinePaintings => Ability::Sell,
        Card::FineTextiles => Ability::DrawCards { count: 2 },
        Card::TerraCotta => Ability::Workshop { count: 2 },
        Card::OchreWare => Ability::Workshop { count: 2 },
        Card::CobaltWare => Ability::Workshop { count: 2 },
        Card::CinnabarCanvas => Ability::Sell,
        Card::OrpimentCanvas => Ability::Sell,
        Card::UltramarineCanvas => Ability::Sell,
        Card::AlizarinFabric => Ability::DrawCards { count: 2 },
        Card::FusticFabric => Ability::DrawCards { count: 2 },
        Card::PastelFabric => Ability::DrawCards { count: 2 },
        Card::ClayCanvas => Ability::DestroyCards { count: 1 },
        Card::ClayFabric => Ability::DestroyCards { count: 1 },
        Card::CanvasFabric => Ability::DestroyCards { count: 1 },
        Card::Alum => Ability::DestroyCards { count: 1 },
        Card::CreamOfTartar => Ability::DestroyCards { count: 1 },
        Card::GumArabic => Ability::DestroyCards { count: 1 },
        Card::Potash => Ability::DestroyCards { count: 1 },
        Card::Vinegar => Ability::DestroyCards { count: 1 },
        Card::Chalk => Ability::Sell,
    }
}

/// Color pips printed on a card.
pub open spec fn card_pips(c: Card) -> Seq<Color> {
    match c {
        Card::BasicRed => seq![Color::Red],
        Card::BasicYellow => seq![Color::Yellow],
        Card::BasicBlue => seq![Color::Blue],
        Card::Kermes => seq![Color::Red, Color::Red, Color::Red],
        Card::Weld => seq![Color::Yellow, Color::Yellow, Color::Yellow],
        Card::Woad => seq![Color::Blue, Color::Blue, Color::Blue],
        Card::Madder => seq![Color::Orange, Color::Red],
        Card::Turmeric => seq![Color::Orange, Color::Yellow],
        Card::DyersGreenweed => seq![Color::Green, Color::Yellow],
        Card::Verdigris => seq![Color::Green, Color::Blue],
        Card::Orchil => seq![Color::Purple, Color::Red],
        Card::Logwood => seq![Color::Purple, Color::Blue],
        Card::VermilionDye => seq![Color::Vermilion],
        Card::Saffron => seq![Color::Amber],
        Card::PersianBerries => seq![Color::Chartreuse],
        Card::Azurite => seq![Color::Teal],
        Card::IndigoDye => seq![Color::Indigo],
        Card::Cochineal => seq![Color::Magenta],
        Card::StarterCeramics => Seq::<Color>::empty(),
        Card::StarterPaintings => Seq::<Color>::empty(),
        Card::StarterTextiles => Seq::<Color>::empty(),
        Card::FineCeramics => Seq::<Color>::empty(),
        Card::FinePaintings => Seq::<Color>::empty(),
        Card::FineTextiles => Seq::<Color>::empty(),
        Card::TerraCotta => seq![Color::Red],
        Card::OchreWare => seq![Color::Yellow],
        Card::CobaltWare => seq![Color::Blue],
        Card::CinnabarCanvas => seq![Color::Red],
        Card::OrpimentCanvas => seq![Color::Yellow],
        Card::UltramarineCanvas => seq![Color::Blue],
        Card::AlizarinFabric => seq![Color::Red],
        Card::FusticFabric => seq![Color::Yellow],
        Card::PastelFabric => seq![Color::Blue],
        Card::ClayCanvas => Seq::<Color>::empty(),
        Card::ClayFabric => Seq::<Color>::empty(),
        Card::CanvasFabric => Seq::<Color>::empty(),
        Card::Alum => Seq::<Color>::empty(),
        Card::CreamOfTartar => Seq::<Color>::empty(),
        Card::GumArabic => Seq::<Color>::empty(),
        Card::Potash => Seq::<Color>::empty(),
        Card::Vinegar => Seq::<Color>::empty(),
        Card::Chalk => Seq::<Color>::empty(),
    }
}

/// Material icons printed on a card.
pub open spec fn card_material_types(c: Card) -> Seq<MaterialType> {
    match c {
        Card::BasicRed => Seq::<MaterialType>::empty(),
        Card::BasicYellow => Seq::<MaterialType>::empty(),
        Card::BasicBlue => Seq::<MaterialType>::empty(),
        Card::Kermes => Seq::<MaterialType>::empty(),
        Card::Weld => Seq::<MaterialType>::empty(),
        Card::Woad => Seq::<MaterialType>::empty(),
        Card::Madder => Seq::<MaterialType>::empty(),
        Card::Turmeric => Seq::<MaterialType>::empty(),
        Card::DyersGreenweed => Seq::<MaterialType>::empty(),
        Card::Verdigris => Seq::<MaterialType>::empty(),
        Card::Orchil => Seq::<MaterialType>::empty(),
        Card::Logwood => Seq::<MaterialType>::empty(),
        Card::VermilionDye => Seq::<MaterialType>::empty(),
        Card::Saffron => Seq::<MaterialType>::empty(),
        Card::PersianBerries => Seq::<MaterialType>::empty(),
        Card::Azurite => Seq::<MaterialType>::empty(),
        Card::IndigoDye => Seq::<MaterialType>::empty(),
        Card::Cochineal => Seq::<MaterialType>::empty(),
        Card::StarterCeramics => seq![MaterialType::Ceramics],
        Card::StarterPaintings => seq![MaterialType::Paintings],
        Card::StarterTextiles => seq![MaterialType::Textiles],
        Card::FineCeramics => seq![MaterialType::Ceramics, MaterialType::Ceramics],
        Card::FinePaintings => seq![MaterialType::Paintings, MaterialType::Paintings],
        Card::FineTextiles => seq![MaterialType::Textiles, MaterialType::Textiles],
        Card::TerraCotta => seq![MaterialType::Ceramics],
        Card::OchreWare => seq![MaterialType::Ceramics],
        Card::CobaltWare => seq![MaterialType::Ceramics],
        Card::CinnabarCanvas => seq![MaterialType::Paintings],
        Card::OrpimentCanvas => seq![MaterialType::Paintings],
        Card::UltramarineCanvas => seq![MaterialType::Paintings],
        Card::AlizarinFabric => seq![MaterialType::Textiles],
        Card::FusticFabric => seq![MaterialType::Textiles],
        Card::PastelFabric => seq![MaterialType::Textiles],
        Card::ClayCanvas => seq![MaterialType::Ceramics, MaterialType::Paintings],
        Card::ClayFabric => seq![MaterialType::Ceramics, MaterialType::Textiles],
        Card::CanvasFabric => seq![MaterialType::Paintings, MaterialType::Textiles],
        Card::Alum => Seq::<MaterialType>::empty(),
        Card::CreamOfTartar => Seq::<MaterialType>::empty(),
        Card::GumArabic => Seq::<MaterialType>::empty(),
        Card::Potash => Seq::<MaterialType>::empty(),
        Card::Vinegar => Seq::<MaterialType>::empty(),
        Card::Chalk => Seq::<MaterialType>::empty(),
    }
}

/// Abilities an action card grants when used in the workshop.
pub open spec fn card_workshop_abilities(c: Card) -> Seq<Ability> {
    match c {
        Card::BasicRed => Seq::<Ability>::empty(),
        Card::BasicYellow => Seq::<Ability>::empty(),
        Card::BasicBlue => Seq::<Ability>::empty(),
        Card::Kermes => Seq::<Ability>::empty(),
        Card::Weld => Seq::<Ability>::empty(),
        Card::Woad => Seq::<Ability>::empty(),
        Card::Madder => Seq::<Ability>::empty(),
        Card::Turmeric => Seq::<Ability>::empty(),
        Card::DyersGreenweed => Seq::<Ability>::empty(),
        Card::Verdigris => Seq::<Ability>::empty(),
        Card::Orchil => Seq::<Ability>::empty(),
        Card::Logwood => Seq::<Ability>::empty(),
        Card::VermilionDye => Seq::<Ability>::empty(),
        Card::Saffron => Seq::<Ability>::empty(),
        Card::PersianBerries => Seq::<Ability>::empty(),
        Card::Azurite => Seq::<Ability>::empty(),
        Card::IndigoDye => Seq::<Ability>::empty(),
        Card::Cochineal => Seq::<Ability>::empty(),
        Card::StarterCeramics => Seq::<Ability>::empty(),
        Card::StarterPaintings => Seq::<Ability>::empty(),
        Card::StarterTextiles => Seq::<Ability>::empty(),
        Card::FineCeramics => Seq::<Ability>::empty(),
        Card::FinePaintings => Seq::<Ability>::empty(),
        Card::FineTextiles => Seq::<Ability>::empty(),
        Card::TerraCotta => Seq::<Ability>::empty(),
        Card::OchreWare => Seq::<Ability>::empty(),
        Card::CobaltWare => Seq::<Ability>::empty(),
        Card::CinnabarCanvas => Seq::<Ability>::empty(),
        Card::OrpimentCanvas => Seq::<Ability>::empty(),
        Card::UltramarineCanvas => Seq::<Ability>::empty(),
        Card::AlizarinFabric => Seq::<Ability>::empty(),
        Card::FusticFabric => Seq::<Ability>::empty(),
        Card::PastelFabric => Seq::<Ability>::empty(),
        Card::ClayCanvas => Seq::<Ability>::empty(),
        Card::ClayFabric => Seq::<Ability>::empty(),
        Card::CanvasFabric => Seq::<Ability>::empty(),
        Card::Alum => seq![Ability::GainDucats { count: 1 }],
        Card::CreamOfTartar => seq![Ability::DrawCards { count: 3 }],
        Card::GumArabic => seq![Ability::GainSecondary],
        Card::Potash => seq![Ability::Workshop { count: 3 }],
        Card::Vinegar => seq![Ability::ChangeTertiary],
        Card::Chalk => seq![Ability::GainPrimary],
    }
}

/// Display name of a card type.
pub open spec fn card_name(c: Card) -> Seq<char> {
    match c {
        Card::BasicRed => "Basic Red"@,
        Card::BasicYellow => "Basic Yellow"@,
        Card::BasicBlue => "Basic Blue"@,
        Card::Kermes => "Kermes"@,
        Card::Weld => "Weld"@,
        Card::Woad => "Woad"@,
        Card::Madder => "Madder"@,
        Card::Turmeric => "Turmeric"@,
        Card::DyersGreenweed => "Dyer's Greenweed"@,
        Card::Verdigris => "Verdigris"@,
        Card::Orchil => "Orchil"@,
        Card::Logwood => "Logwood"@,
        Card::VermilionDye => "Vermilion"@,
        Card::Saffron => "Saffron"@,
        Card::PersianBerries => "Persian Berries"@,
        Card::Azurite => "Azurite"@,
        Card::IndigoDye => "Indigo"@,
        Card::Cochineal => "Cochineal"@,
        Card::StarterCeramics => "Ceramics"@,
        Card::StarterPaintings => "Paintings"@,
        Card::StarterTextiles => "Textiles"@,
        Card::FineCeramics => "Fine Ceramics"@,
        Card::FinePaintings => "Fine Paintings"@,
        Card::FineTextiles => "Fine Textiles"@,
        Card::TerraCotta => "Terra Cotta"@,
        Card::OchreWare => "Ochre Ware"@,
        Card::CobaltWare => "Cobalt Ware"@,
        Card::CinnabarCanvas => "Cinnabar & Canvas"@,
        Card::OrpimentCanvas => "Orpiment & Canvas"@,
        Card::UltramarineCanvas => "Ultramarine & Canvas"@,
        Card::AlizarinFabric => "Alizarin & Fabric"@,
        Card::FusticFabric => "Fustic & Fabric"@,
        Card::PastelFabric => "Pastel & Fabric"@,
        Card::ClayCanvas => "Clay & Canvas"@,
        Card::ClayFabric => "Clay & Fabric"@,
        Card::CanvasFabric => "Canvas & Fabric"@,
        Card::Alum => "Alum"@,
        Card::CreamOfTartar => "Cream of Tartar"@,
        Card::GumArabic => "Gum Arabic"@,
        Card::Potash => "Potash"@,
        Card::Vinegar => "Vinegar"@,
        Card::Chalk => "Chalk"@,
    }
}

impl Card {
    /// Dense index of this card type.
    pub fn type_index(&self) -> (r: usize)
        ensures
            r == card_type_index(*self),
            r < NUM_CARD_TYPES,
    {
        match self {
            Card::BasicRed => 0,
            Card::BasicYellow => 1,
            Card::BasicBlue => 2,
            Card::Kermes => 3,
            Card::Weld => 4,
            Card::Woad => 5,
            Card::Madder => 6,
            Card::Turmeric => 7,
            Card::DyersGreenweed => 8,
            Card::Verdigris => 9,
            Card::Orchil => 10,
            Card::Logwood => 11,
            Card::VermilionDye => 12,
            Card::Saffron => 13,
            Card::PersianBerries => 14,
            Card::Azurite => 15,
            Card::IndigoDye => 16,
            Card::Cochineal => 17,
            Card::StarterCeramics => 18,
            Card::StarterPaintings => 19,
            Card::StarterTextiles => 20,
            Card::FineCeramics => 21,
            Card::FinePaintings => 22,
            Card::FineTextiles => 23,
            Card::TerraCotta => 24,
            Card::OchreWare => 25,
            Card::CobaltWare => 26,
            Card::CinnabarCanvas => 27,
            Card::OrpimentCanvas => 28,
            Card::UltramarineCanvas => 29,
            Card::AlizarinFabric => 30,
            Card::FusticFabric => 31,
            Card::PastelFabric => 32,
            Card::ClayCanvas => 33,
            Card::ClayFabric => 34,
            Card::CanvasFabric => 35,
            Card::Alum => 36,
            Card::CreamOfTartar => 37,
            Card::GumArabic => 38,
            Card::Potash => 39,
            Card::Vinegar => 40,
            Card::Chalk => 41,
        }
    }

    /// Display name of this card type.
    pub fn name(&self) -> (r: &'static str)
        ensures
            r@ == card_name(*self),
    {
        match self {
            Card::BasicRed => "Basic Red",
            Card::BasicYellow => "Basic Yellow",
            Card::BasicBlue => "Basic Blue",
            Card::Kermes => "Kermes",
            Card::Weld => "Weld",
            Card::Woad => "Woad",
            Card::Madder => "Madder",
            Card::Turmeric => "Turmeric",
            Card::DyersGreenweed => "Dyer's Greenweed",
            Card::Verdigris => "Verdigris",
            Card::Orchil => "Orchil",
            Card::Logwood => "Logwood",
            Card::VermilionDye => "Vermilion",
            Card::Saffron => "Saffron",
            Card::PersianBerries => "Persian Berries",
            Card::Azurite => "Azurite",
            Card::IndigoDye => "Indigo",
            Card::Cochineal => "Cochineal",
            Card::StarterCeramics => "Ceramics",
            Card::StarterPaintings => "Paintings",
            Card::StarterTextiles => "Textiles",
            Card::FineCeramics => "Fine Ceramics",
            Card::FinePaintings => "Fine Paintings",
            Card::FineTextiles => "Fine Textiles",
            Card::TerraCotta => "Terra Cotta",
            Card::OchreWare => "Ochre Ware",
            Card::CobaltWare => "Cobalt Ware",
            Card::CinnabarCanvas => "Cinnabar & Canvas",
            Card::OrpimentCanvas => "Orpiment & Canvas",
            Card::UltramarineCanvas => "Ultramarine & Canvas",
            Card::AlizarinFabric => "Alizarin & Fabric",
            Card::FusticFabric => "Fustic & Fabric",
            Card::PastelFabric => "Pastel & Fabric",
            Card::ClayCanvas => "Clay & Canvas",
            Card::ClayFabric => "Clay & Fabric",
            Card::CanvasFabric => "Canvas & Fabric",
            Card::Alum => "Alum",
            Card::CreamOfTartar => "Cream of Tartar",
            Card::GumArabic => "Gum Arabic",
            Card::Potash => "Potash",
            Card::Vinegar => "Vinegar",
            Card::Chalk => "Chalk",
        }
    }

    /// Category of this card type.
    pub fn kind(&self) -> (r: CardKind)
        ensures
            r == card_kind(*self),
    {
        match self {
            Card::BasicRed => CardKind::BasicDye,
            Card::BasicYellow => CardKind::BasicDye,
            Card::BasicBlue => CardKind::BasicDye,
            Card::Kermes => CardKind::Dye,
            Card::Weld => CardKind::Dye,
            Card::Woad => CardKind::Dye,
            Card::Madder => CardKind::Dye,
            Card::Turmeric => CardKind::Dye,
            Card::DyersGreenweed => CardKind::Dye,
            Card::Verdigris => CardKind::Dye,
            Card::Orchil => CardKind::Dye,
            Card::Logwood => CardKind::Dye,
            Card::VermilionDye => CardKind::Dye,
            Card::Saffron => CardKind::Dye,
            Card::PersianBerries => CardKind::Dye,
            Card::Azurite => CardKind::Dye,
            Card::IndigoDye => CardKind::Dye,
            Card::Cochineal => CardKind::Dye,
            Card::StarterCeramics => CardKind::Material,
            Card::StarterPaintings => CardKind::Material,
            Card::StarterTextiles => CardKind::Material,
            Card::FineCeramics => CardKind::Material,
            Card::FinePaintings => CardKind::Material,
            Card::FineTextiles => CardKind::Material,
            Card::TerraCotta => CardKind::Material,
            Card::OchreWare => CardKind::Material,
            Card::CobaltWare => CardKind::Material,
            Card::CinnabarCanvas => CardKind::Material,
            Card::OrpimentCanvas => CardKind::Material,
            Card::UltramarineCanvas => CardKind::Material,
            Card::AlizarinFabric => CardKind::Material,
            Card::FusticFabric => CardKind::Material,
            Card::PastelFabric => CardKind::Material,
            Card::ClayCanvas => CardKind::Material,
            Card::ClayFabric => CardKind::Material,
            Card::CanvasFabric => CardKind::Material,
            Card::Alum => CardKind::Action,
            Card::CreamOfTartar => CardKind::Action,
            Card::GumArabic => CardKind::Action,
            Card::Potash => CardKind::Action,
            Card::Vinegar => CardKind::Action,
            Card::Chalk => CardKind::Action,
        }
    }

    /// The ability this card grants when played from the drafted row.
    pub fn ability(&self) -> (r: Ability)
        ensures
            r == card_ability(*self),
    {
        match self {
            Card::BasicRed => Ability::Sell,
            Card::BasicYellow => Ability::Sell,
            Card::BasicBlue => Ability::Sell,
            Card::Kermes => Ability::Sell,
            Card::Weld => Ability::Sell,
            Card::Woad => Ability::Sell,
            Card::Madder => Ability::Workshop { count: 3 },
            Card::Turmeric => Ability::Workshop { count: 3 },
            Card::DyersGreenweed => Ability::Workshop { count: 3 },
            Card::Verdigris => Ability::Workshop { count: 3 },
            Card::Orchil => Ability::Workshop { count: 3 },
            Card::Logwood => Ability::Workshop { count: 3 },
            Card::VermilionDye => Ability::MixColors { count: 2 },
            Card::Saffron => Ability::MixColors { count: 2 },
            Card::PersianBerries => Ability::MixColors { count: 2 },
            Card::Azurite => Ability::MixColors { count: 2 },
            Card::IndigoDye => Ability::MixColors { count: 2 },
            Card::Cochineal => Ability::MixColors { count: 2 },
            Card::StarterCeramics => Ability::Workshop { count: 2 },
            Card::StarterPaintings => Ability::Sell,
            Card::StarterTextiles => Ability::Workshop { count: 2 },
            Card::FineCeramics => Ability::Workshop { count: 2 },
            Card::FinePaintings => Ability::Sell,
            Card::FineTextiles => Ability::DrawCards { count: 2 },
            Card::TerraCotta => Ability::Workshop { count: 2 },
            Card::OchreWare => Ability::Workshop { count: 2 },
            Card::CobaltWare => Ability::Workshop { count: 2 },
            Card::CinnabarCanvas => Ability::Sell,
            Card::OrpimentCanvas => Ability::Sell,
            Card::UltramarineCanvas => Ability::Sell,
            Card::AlizarinFabric => Ability::DrawCards { count: 2 },
            Card::FusticFabric => Ability::DrawCards { count: 2 },
            Card::PastelFabric => Ability::DrawCards { count: 2 },
            Card::ClayCanvas => Ability::DestroyCards { count: 1 },
            Card::ClayFabric => Ability::DestroyCards { count: 1 },
            Card::CanvasFabric => Ability::DestroyCards { count: 1 },
            Card::Alum => Ability::DestroyCards { count: 1 },
            Card::CreamOfTartar => Ability::DestroyCards { count: 1 },
            Card::GumArabic => Ability::DestroyCards { count: 1 },
            Card::Potash => Ability::DestroyCards { count: 1 },
            Card::Vinegar => Ability::DestroyCards { count: 1 },
            Card::Chalk => Ability::Sell,
        }
    }

    /// Color pips printed on this card.
    pub fn pips(&self) -> (r: Vec<Color>)
        ensures
            r@ == card_pips(*self),
    {
        let r: Vec<Color> = match self {
            Card::BasicRed => vec![Color::Red],
            Card::BasicYellow => vec![Color::Yellow],
            Card::BasicBlue => vec![Color::Blue],
            Card::Kermes => vec![Color::Red, Color::Red, Color::Red],
            Card::Weld => vec![Color::Yellow, Color::Yellow, Color::Yellow],
            Card::Woad => vec![Color::Blue, Color::Blue, Color::Blue],
            Card::Madder => vec![Color::Orange, Color::Red],
            Card::Turmeric => vec![Color::Orange, Color::Yellow],
            Card::DyersGreenweed => vec![Color::Green, Color::Yellow],
            Card::Verdigris => vec![Color::Green, Color::Blue],
            Card::Orchil => vec![Color::Purple, Color::Red],
            Card::Logwood => vec![Color::Purple, Color::Blue],
            Card::VermilionDye => vec![Color::Vermilion],
            Card::Saffron => vec![Color::Amber],
            Card::PersianBerries => vec![Color::Chartreuse],
            Card::Azurite => vec![Color::Teal],
            Card::IndigoDye => vec![Color::Indigo],
            Card::Cochineal => vec![Color::Magenta],
            Card::StarterCeramics => Vec::new(),
            Card::StarterPaintings => Vec::new(),
            Card::StarterTextiles => Vec::new(),
            Card::FineCeramics => Vec::new(),
            Card::FinePaintings => Vec::new(),
            Card::FineTextiles => Vec::new(),
            Card::TerraCotta => vec![Color::Red],
            Card::OchreWare => vec![Color::Yellow],
            Card::CobaltWare => vec![Color::Blue],
            Card::CinnabarCanvas => vec![Color::Red],
            Card::OrpimentCanvas => vec![Color::Yellow],
            Card::UltramarineCanvas => vec![Color::Blue],
            Card::AlizarinFabric => vec![Color::Red],
            Card::FusticFabric => vec![Color::Yellow],
            Card::PastelFabric => vec![Color::Blue],
            Card::ClayCanvas => Vec::new(),
            Card::ClayFabric => Vec::new(),
            Card::CanvasFabric => Vec::new(),
            Card::Alum => Vec::new(),
            Card::CreamOfTartar => Vec::new(),
            Card::GumArabic => Vec::new(),
            Card::Potash => Vec::new(),
            Card::Vinegar => Vec::new(),
            Card::Chalk => Vec::new(),
        };
        proof { assert(r@ =~= card_pips(*self)); }
        r
    }

    /// Material icons printed on this card.
    pub fn material_types(&self) -> (r: Vec<MaterialType>)
        ensures
            r@ == card_material_types(*self),
    {
        let r: Vec<MaterialType> = match self {
            Card::BasicRed => Vec::new(),
            Card::BasicYellow => Vec::new(),
            Card::BasicBlue => Vec::new(),
            Card::Kermes => Vec::new(),
            Card::Weld => Vec::new(),
            Card::Woad => Vec::new(),
            Card::Madder => Vec::new(),
            Card::Turmeric => Vec::new(),
            Card::DyersGreenweed => Vec::new(),
            Card::Verdigris => Vec::new(),
            Card::Orchil => Vec::new(),
            Card::Logwood => Vec::new(),
            Card::VermilionDye => Vec::new(),
            Card::Saffron => Vec::new(),
            Card::PersianBerries => Vec::new(),
            Card::Azurite => Vec::new(),
            Card::IndigoDye => Vec::new(),
            Card::Cochineal => Vec::new(),
            Card::StarterCeramics => vec![MaterialType::Ceramics],
            Card::StarterPaintings => vec![MaterialType::Paintings],
            Card::StarterTextiles => vec![MaterialType::Textiles],
            Card::FineCeramics => vec![MaterialType::Ceramics, MaterialType::Ceramics],
            Card::FinePaintings => vec![MaterialType::Paintings, MaterialType::Paintings],
            Card::FineTextiles => vec![MaterialType::Textiles, MaterialType::Textiles],
            Card::TerraCotta => vec![MaterialType::Ceramics],
            Card::OchreWare => vec![MaterialType::Ceramics],
            Card::CobaltWare => vec![MaterialType::Ceramics],
            Card::CinnabarCanvas => vec![MaterialType::Paintings],
            Card::OrpimentCanvas => vec![MaterialType::Paintings],
            Card::UltramarineCanvas => vec![MaterialType::Paintings],
            Card::AlizarinFabric => vec![MaterialType::Textiles],
            Card::FusticFabric => vec![MaterialType::Textiles],
            Card::PastelFabric => vec![MaterialType::Textiles],
            Card::ClayCanvas => vec![MaterialType::Ceramics, MaterialType::Paintings],
            Card::ClayFabric => vec![MaterialType::Ceramics, MaterialType::Textiles],
            Card::CanvasFabric => vec![MaterialType::Paintings, MaterialType::Textiles],
            Card::Alum => Vec::new(),
            Card::CreamOfTartar => Vec::new(),
            Card::GumArabic => Vec::new(),
            Card::Potash => Vec::new(),
            Card::Vinegar => Vec::new(),
            Card::Chalk => Vec::new(),
        };
        proof { assert(r@ =~= card_material_types(*self)); }
        r
    }

    /// Abilities this card grants when used in the workshop.
    pub fn workshop_abilities(&self) -> (r: Vec<Ability>)
        ensures
            r@ == card_workshop_abilities(*self),
    {
        let r: Vec<Ability> = match self {
            Card::BasicRed => Vec::new(),
            Card::BasicYellow => Vec::new(),
            Card::BasicBlue => Vec::new(),
            Card::Kermes => Vec::new(),
            Card::Weld => Vec::new(),
            Card::Woad => Vec::new(),
            Card::Madder => Vec::new(),
            Card::Turmeric => Vec::new(),
            Card::DyersGreenweed => Vec::new(),
            Card::Verdigris => Vec::new(),
            Card::Orchil => Vec::new(),
            Card::Logwood => Vec::new(),
            Card::VermilionDye => Vec::new(),
            Card::Saffron => Vec::new(),
            Card::PersianBerries => Vec::new(),
            Card::Azurite => Vec::new(),
            Card::IndigoDye => Vec::new(),
            Card::Cochineal => Vec::new(),
            Card::StarterCeramics => Vec::new(),
            Card::StarterPaintings => Vec::new(),
            Card::StarterTextiles => Vec::new(),
            Card::FineCeramics => Vec::new(),
            Card::FinePaintings => Vec::new(),
            Card::FineTextiles => Vec::new(),
            Card::TerraCotta => Vec::new(),
            Card::OchreWare => Vec::new(),
            Card::CobaltWare => Vec::new(),
            Card::CinnabarCanvas => Vec::new(),
            Card::OrpimentCanvas => Vec::new(),
            Card::UltramarineCanvas => Vec::new(),
            Card::AlizarinFabric => Vec::new(),
            Card::FusticFabric => Vec::new(),
            Card::PastelFabric => Vec::new(),
            Card::ClayCanvas => Vec::new(),
            Card::ClayFabric => Vec::new(),
            Card::CanvasFabric => Vec::new(),
            Card::Alum => vec![Ability::GainDucats { count: 1 }],
            Card::CreamOfTartar => vec![Ability::DrawCards { count: 3 }],
            Card::GumArabic => vec![Ability::GainSecondary],
            Card::Potash => vec![Ability::Workshop { count: 3 }],
            Card::Vinegar => vec![Ability::ChangeTertiary],
            Card::Chalk => vec![Ability::GainPrimary],
        };
        proof { assert(r@ =~= card_workshop_abilities(*self)); }
        r
    }

    /// Whether this is an action card.
    pub fn is_action(&self) -> (r: bool)
        ensures
            r == (card_kind(*self) is Action),
    {
        matches!(self.kind(), CardKind::Action)
    }
}


/// All buyer cards, one variant per buyer type.
#[derive(Debug, Clone, Copy, PartialEq, Eq, Structural)]
pub enum BuyerCard {
    Textiles2Vermilion,
    Textiles2Amber,
    Textiles2Chartreuse,
    Textiles2Teal,
    Textiles2Indigo,
    Textiles2Magenta,
    Textiles2OrangeRed,
    Textiles2OrangeYellow,
    Textiles2OrangeBlue,
    Textiles2GreenRed,
    Textiles2GreenYellow,
    Textiles2GreenBlue,
    Textiles2PurpleRed,
    Textiles2PurpleYellow,
    Textiles2PurpleBlue,
    Ceramics3VermilionRed,
    Ceramics3VermilionYellow,
    Ceramics3VermilionBlue,
    Ceramics3AmberRed,
    Ceramics3AmberYellow,
    Ceramics3AmberBlue,
    Ceramics3ChartreuseRed,
    Ceramics3ChartreuseYellow,
    Ceramics3ChartreuseBlue,
    Ceramics3TealRed,
    Ceramics3TealYellow,
    Ceramics3TealBlue,
    Ceramics3IndigoRed,
    Ceramics3IndigoYellow,
    Ceramics3IndigoBlue,
    Ceramics3MagentaRed,
    Ceramics3MagentaYellow,
    Ceramics3MagentaBlue,
    Paintings4VermilionOrange,
    Paintings4VermilionGreen,
    Paintings4VermilionPurple,
    Paintings4AmberOrange,
    Paintings4AmberGreen,
    Paintings4AmberPurple,
    Paintings4ChartreuseOrange,
    Paintings4ChartreuseGreen,
    Paintings4ChartreusePurple,
    Paintings4TealOrange,
    Paintings4TealGreen,
    Paintings4TealPurple,
    Paintings4IndigoOrange,
    Paintings4IndigoGreen,
    Paintings4IndigoPurple,
    Paintings4MagentaOrange,
    Paintings4MagentaGreen,
    Paintings4MagentaPurple,
}

pub const NUM_BUYER_TYPES: usize = 51;

/// Dense index of a buyer type, used by encodings.
pub open spec fn buyer_type_index(b: BuyerCard) -> int {
    match b {
        BuyerCard::Textiles2Vermilion => 0,
        BuyerCard::Textiles2Amber => 1,
        BuyerCard::Textiles2Chartreuse => 2,
        BuyerCard::Textiles2Teal => 3,
        BuyerCard::Textiles2Indigo => 4,
        BuyerCard::Textiles2Magenta => 5,
        BuyerCard::Textiles2OrangeRed => 6,
        BuyerCard::Textiles2OrangeYellow => 7,
        BuyerCard::Textiles2OrangeBlue => 8,
        BuyerCard::Textiles2GreenRed => 9,
        BuyerCard::Textiles2GreenYellow => 10,
        BuyerCard::Textiles2GreenBlue => 11,
        BuyerCard::Textiles2PurpleRed => 12,
        BuyerCard::Textiles2PurpleYellow => 13,
        BuyerCard::Textiles2PurpleBlue => 14,
        BuyerCard::Ceramics3VermilionRed => 15,
        BuyerCard::Ceramics3VermilionYellow => 16,
        BuyerCard::Ceramics3VermilionBlue => 17,
        BuyerCard::Ceramics3AmberRed => 18,
        BuyerCard::Ceramics3AmberYellow => 19,
        BuyerCard::Ceramics3AmberBlue => 20,
        BuyerCard::Ceramics3ChartreuseRed => 21,
        BuyerCard::Ceramics3ChartreuseYellow => 22,
        BuyerCard::Ceramics3ChartreuseBlue => 23,
        BuyerCard::Ceramics3TealRed => 24,
        BuyerCard::Ceramics3TealYellow => 25,
        BuyerCard::Ceramics3TealBlue => 26,
        BuyerCard::Ceramics3IndigoRed => 27,
        BuyerCard::Ceramics3IndigoYellow => 28,
        BuyerCard::Ceramics3IndigoBlue => 29,
        BuyerCard::Ceramics3MagentaRed => 30,
        BuyerCard::Ceramics3MagentaYellow => 31,
        BuyerCard::Ceramics3MagentaBlue => 32,
        BuyerCard::Paintings4VermilionOrange => 33,
        BuyerCard::Paintings4VermilionGreen => 34,
        BuyerCard::Paintings4VermilionPurple => 35,
        BuyerCard::Paintings4AmberOrange => 36,
        BuyerCard::Paintings4AmberGreen => 37,
        BuyerCard::Paintings4AmberPurple => 38,
        BuyerCard::Paintings4ChartreuseOrange => 39,
        BuyerCard::Paintings4ChartreuseGreen => 40,
        BuyerCard::Paintings4ChartreusePurple => 41,
        BuyerCard::Paintings4TealOrange => 42,
        BuyerCard::Paintings4TealGreen => 43,
        BuyerCard::Paintings4TealPurple => 44,
        BuyerCard::Paintings4IndigoOrange => 45,
        BuyerCard::Paintings4IndigoGreen => 46,
        BuyerCard::Paintings4IndigoPurple => 47,
        BuyerCard::Paintings4MagentaOrange => 48,
        BuyerCard::Paintings4MagentaGreen => 49,
        BuyerCard::Paintings4MagentaPurple => 50,
    }
}

/// Stars awarded for completing a buyer.
pub open spec fn buyer_stars(b: BuyerCard) -> u32 {
    match b {
        BuyerCard::Textiles2Vermilion => 2,
        BuyerCard::Textiles2Amber => 2,
        BuyerCard::Textiles2Chartreuse => 2,
        BuyerCard::Textiles2Teal => 2,
        BuyerCard::Textiles2Indigo => 2,
        BuyerCard::Textiles2Magenta => 2,
        BuyerCard::Textiles2OrangeRed => 2,
        BuyerCard::Textiles2OrangeYellow => 2,
        BuyerCard::Textiles2OrangeBlue => 2,
        BuyerCard::Textiles2GreenRed => 2,
        BuyerCard::Textiles2GreenYellow => 2,
        BuyerCard::Textiles2GreenBlue => 2,
        BuyerCard::Textiles2PurpleRed => 2,
        BuyerCard::Textiles2PurpleYellow => 2,
        BuyerCard::Textiles2PurpleBlue => 2,
        BuyerCard::Ceramics3VermilionRed => 3,
        BuyerCard::Ceramics3VermilionYellow => 3,
        BuyerCard::Ceramics3VermilionBlue => 3,
        BuyerCard::Ceramics3AmberRed => 3,
        BuyerCard::Ceramics3AmberYellow => 3,
        BuyerCard::Ceramics3AmberBlue => 3,
        BuyerCard::Ceramics3ChartreuseRed => 3,
        BuyerCard::Ceramics3ChartreuseYellow => 3,
        BuyerCard::Ceramics3ChartreuseBlue => 3,
        BuyerCard::Ceramics3TealRed => 3,
        BuyerCard::Ceramics3TealYellow => 3,
        BuyerCard::Ceramics3TealBlue => 3,
        BuyerCard::Ceramics3IndigoRed => 3,
        BuyerCard::Ceramics3IndigoYellow => 3,
        BuyerCard::Ceramics3IndigoBlue => 3,
        BuyerCard::Ceramics3MagentaRed => 3,
        BuyerCard::Ceramics3MagentaYellow => 3,
        BuyerCard::Ceramics3MagentaBlue => 3,
        BuyerCard::Paintings4VermilionOrange => 4,
        BuyerCard::Paintings4VermilionGreen => 4,
        BuyerCard::Paintings4VermilionPurple => 4,
        BuyerCard::Paintings4AmberOrange => 4,
        BuyerCard::Paintings4AmberGreen => 4,
        BuyerCard::Paintings4AmberPurple => 4,
        BuyerCard::Paintings4ChartreuseOrange => 4,
        BuyerCard::Paintings4ChartreuseGreen => 4,
        BuyerCard::Paintings4ChartreusePurple => 4,
        BuyerCard::Paintings4TealOrange => 4,
        BuyerCard::Paintings4TealGreen => 4,
        BuyerCard::Paintings4TealPurple => 4,
        BuyerCard::Paintings4IndigoOrange => 4,
        BuyerCard::Paintings4IndigoGreen => 4,
        BuyerCard::Paintings4IndigoPurple => 4,
        BuyerCard::Paintings4MagentaOrange => 4,
        BuyerCard::Paintings4MagentaGreen => 4,
        BuyerCard::Paintings4MagentaPurple => 4,
    }
}

/// Material a buyer demands.
pub open spec fn buyer_required_material(b: BuyerCard) -> MaterialType {
    match b {
        BuyerCard::Textiles2Vermilion => MaterialType::Textiles,
        BuyerCard::Textiles2Amber => MaterialType::Textiles,
        BuyerCard::Textiles2Chartreuse => MaterialType::Textiles,
        BuyerCard::Textiles2Teal => MaterialType::Textiles,
        BuyerCard::Textiles2Indigo => MaterialType::Textiles,
        BuyerCard::Textiles2Magenta => MaterialType::Textiles,
        BuyerCard::Textiles2OrangeRed => MaterialType::Textiles,
        BuyerCard::Textiles2OrangeYellow => MaterialType::Textiles,
        BuyerCard::Textiles2OrangeBlue => MaterialType::Textiles,
        BuyerCard::Textiles2GreenRed => MaterialType::Textiles,
        BuyerCard::Textiles2GreenYellow => MaterialType::Textiles,
        BuyerCard::Textiles2GreenBlue => MaterialType::Textiles,
        BuyerCard::Textiles2PurpleRed => MaterialType::Textiles,
        BuyerCard::Textiles2PurpleYellow => MaterialType::Textiles,
        BuyerCard::Textiles2PurpleBlue => MaterialType::Textiles,
        BuyerCard::Ceramics3VermilionRed => MaterialType::Ceramics,
        BuyerCard::Ceramics3VermilionYellow => MaterialType::Ceramics,
        BuyerCard::Ceramics3VermilionBlue => MaterialType::Ceramics,
        BuyerCard::Ceramics3AmberRed => MaterialType::Ceramics,
        BuyerCard::Ceramics3AmberYellow => MaterialType::Ceramics,
        BuyerCard::Ceramics3AmberBlue => MaterialType::Ceramics,
        BuyerCard::Ceramics3ChartreuseRed => MaterialType::Ceramics,
        BuyerCard::Ceramics3ChartreuseYellow => MaterialType::Ceramics,
        BuyerCard::Ceramics3ChartreuseBlue => MaterialType::Ceramics,
        BuyerCard::Ceramics3TealRed => MaterialType::Ceramics,
        BuyerCard::Ceramics3TealYellow => MaterialType::Ceramics,
        BuyerCard::Ceramics3TealBlue => MaterialType::Ceramics,
        BuyerCard::Ceramics3IndigoRed => MaterialType::Ceramics,
        BuyerCard::Ceramics3IndigoYellow => MaterialType::Ceramics,
        BuyerCard::Ceramics3IndigoBlue => MaterialType::Ceramics,
        BuyerCard::Ceramics3MagentaRed => MaterialType::Ceramics,
        BuyerCard::Ceramics3MagentaYellow => MaterialType::Ceramics,
        BuyerCard::Ceramics3MagentaBlue => MaterialType::Ceramics,
        BuyerCard::Paintings4VermilionOrange => MaterialType::Paintings,
        BuyerCard::Paintings4VermilionGreen => MaterialType::Paintings,
        BuyerCard::Paintings4VermilionPurple => MaterialType::Paintings,
        BuyerCard::Paintings4AmberOrange => MaterialType::Paintings,
        BuyerCard::Paintings4AmberGreen => MaterialType::Paintings,
        BuyerCard::Paintings4AmberPurple => MaterialType::Paintings,
        BuyerCard::Paintings4ChartreuseOrange => MaterialType::Paintings,
        BuyerCard::Paintings4ChartreuseGreen => MaterialType::Paintings,
        BuyerCard::Paintings4ChartreusePurple => MaterialType::Paintings,
        BuyerCard::Paintings4TealOrange => MaterialType::Paintings,
        BuyerCard::Paintings4TealGreen => MaterialType::Paintings,
        BuyerCard::Paintings4TealPurple => MaterialType::Paintings,
        BuyerCard::Paintings4IndigoOrange => MaterialType::Paintings,
        BuyerCard::Paintings4IndigoGreen => MaterialType::Paintings,
        BuyerCard::Paintings4IndigoPurple => MaterialType::Paintings,
        BuyerCard::Paintings4MagentaOrange => MaterialType::Paintings,
        BuyerCard::Paintings4MagentaGreen => MaterialType::Paintings,
        BuyerCard::Paintings4MagentaPurple => MaterialType::Paintings,
    }
}

/// Colors a buyer demands.
pub open spec fn buyer_color_cost(b: BuyerCard) -> Seq<Color> {
    match b {
        BuyerCard::Textiles2Vermilion => seq![Color::Vermilion],
        BuyerCard::Textiles2Amber => seq![Color::Amber],
        BuyerCard::Textiles2Chartreuse => seq![Color::Chartreuse],
        BuyerCard::Textiles2Teal => seq![Color::Teal],
        BuyerCard::Textiles2Indigo => seq![Color::Indigo],
        BuyerCard::Textiles2Magenta => seq![Color::Magenta],
        BuyerCard::Textiles2OrangeRed => seq![Color::Orange, Color::Red],
        BuyerCard::Textiles2OrangeYellow => seq![Color::Orange, Color::Yellow],
        BuyerCard::Textiles2OrangeBlue => seq![Color::Orange, Color::Blue],
        BuyerCard::Textiles2GreenRed => seq![Color::Green, Color::Red],
        BuyerCard::Textiles2GreenYellow => seq![Color::Green, Color::Yellow],
        BuyerCard::Textiles2GreenBlue => seq![Color::Green, Color::Blue],
        BuyerCard::Textiles2PurpleRed => seq![Color::Purple, Color::Red],
        BuyerCard::Textiles2PurpleYellow => seq![Color::Purple, Color::Yellow],
        BuyerCard::Textiles2PurpleBlue => seq![Color::Purple, Color::Blue],
        BuyerCard::Ceramics3VermilionRed => seq![Color::Vermilion, Color::Red],
        BuyerCard::Ceramics3VermilionYellow => seq![Color::Vermilion, Color::Yellow],
        BuyerCard::Ceramics3VermilionBlue => seq![Color::Vermilion, Color::Blue],
        BuyerCard::Ceramics3AmberRed => seq![Color::Amber, Color::Red],
        BuyerCard::Ceramics3AmberYellow => seq![Color::Amber, Color::Yellow],
        BuyerCard::Ceramics3AmberBlue => seq![Color::Amber, Color::Blue],
        BuyerCard::Ceramics3ChartreuseRed => seq![Color::Chartreuse, Color::Red],
        BuyerCard::Ceramics3ChartreuseYellow => seq![Color::Chartreuse, Color::Yellow],
        BuyerCard::Ceramics3ChartreuseBlue => seq![Color::Chartreuse, Color::Blue],
        BuyerCard::Ceramics3TealRed => seq![Color::Teal, Color::Red],
        BuyerCard::Ceramics3TealYellow => seq![Color::Teal, Color::Yellow],
        BuyerCard::Ceramics3TealBlue => seq![Color::Teal, Color::Blue],
        BuyerCard::Ceramics3IndigoRed => seq![Color::Indigo, Color::Red],
        BuyerCard::Ceramics3IndigoYellow => seq![Color::Indigo, Color::Yellow],
        BuyerCard::Ceramics3IndigoBlue => seq![Color::Indigo, Color::Blue],
        BuyerCard::Ceramics3MagentaRed => seq![Color::Magenta, Color::Red],
        BuyerCard::Ceramics3MagentaYellow => seq![Color::Magenta, Color::Yellow],
        BuyerCard::Ceramics3MagentaBlue => seq![Color::Magenta, Color::Blue],
        BuyerCard::Paintings4VermilionOrange => seq![Color::Vermilion, Color::Orange],
        BuyerCard::Paintings4VermilionGreen => seq![Color::Vermilion, Color::Green],
        BuyerCard::Paintings4VermilionPurple => seq![Color::Vermilion, Color::Purple],
        BuyerCard::Paintings4AmberOrange => seq![Color::Amber, Color::Orange],
        BuyerCard::Paintings4AmberGreen => seq![Color::Amber, Color::Green],
        BuyerCard::Paintings4AmberPurple => seq![Color::Amber, Color::Purple],
        BuyerCard::Paintings4ChartreuseOrange => seq![Color::Chartreuse, Color::Orange],
        BuyerCard::Paintings4ChartreuseGreen => seq![Color::Chartreuse, Color::Green],
        BuyerCard::Paintings4ChartreusePurple => seq![Color::Chartreuse, Color::Purple],
        BuyerCard::Paintings4TealOrange => seq![Color::Teal, Color::Orange],
        BuyerCard::Paintings4TealGreen => seq![Color::Teal, Color::Green],
        BuyerCard::Paintings4TealPurple => seq![Color::Teal, Color::Purple],
        BuyerCard::Paintings4IndigoOrange => seq![Color::Indigo, Color::Orange],
        BuyerCard::Paintings4IndigoGreen => seq![Color::Indigo, Color::Green],
        BuyerCard::Paintings4IndigoPurple => seq![Color::Indigo, Color::Purple],
        BuyerCard::Paintings4MagentaOrange => seq![Color::Magenta, Color::Orange],
        BuyerCard::Paintings4MagentaGreen => seq![Color::Magenta, Color::Green],
        BuyerCard::Paintings4MagentaPurple => seq![Color::Magenta, Color::Purple],
    }
}

impl BuyerCard {
    /// Dense index of this buyer type.
    pub fn type_index(&self) -> (r: usize)
        ensures
            r == buyer_type_index(*self),
            r < NUM_BUYER_TYPES,
    {
        match self {
            BuyerCard::Textiles2Vermilion => 0,
            BuyerCard::Textiles2Amber => 1,
            BuyerCard::Textiles2Chartreuse => 2,
            BuyerCard::Textiles2Teal => 3,
            BuyerCard::Textiles2Indigo => 4,
            BuyerCard::Textiles2Magenta => 5,
            BuyerCard::Textiles2OrangeRed => 6,
            BuyerCard::Textiles2OrangeYellow => 7,
            BuyerCard::Textiles2OrangeBlue => 8,
            BuyerCard::Textiles2GreenRed => 9,
            BuyerCard::Textiles2GreenYellow => 10,
            BuyerCard::Textiles2GreenBlue => 11,
            BuyerCard::Textiles2PurpleRed => 12,
            BuyerCard::Textiles2PurpleYellow => 13,
            BuyerCard::Textiles2PurpleBlue => 14,
            BuyerCard::Ceramics3VermilionRed => 15,
            BuyerCard::Ceramics3VermilionYellow => 16,
            BuyerCard::Ceramics3VermilionBlue => 17,
            BuyerCard::Ceramics3AmberRed => 18,
            BuyerCard::Ceramics3AmberYellow => 19,
            BuyerCard::Ceramics3AmberBlue => 20,
            BuyerCard::Ceramics3ChartreuseRed => 21,
            BuyerCard::Ceramics3ChartreuseYellow => 22,
            BuyerCard::Ceramics3ChartreuseBlue => 23,
            BuyerCard::Ceramics3TealRed => 24,
            BuyerCard::Ceramics3TealYellow => 25,
            BuyerCard::Ceramics3TealBlue => 26,
            BuyerCard::Ceramics3IndigoRed => 27,
            BuyerCard::Ceramics3IndigoYellow => 28,
            BuyerCard::Ceramics3IndigoBlue => 29,
            BuyerCard::Ceramics3MagentaRed => 30,
            BuyerCard::Ceramics3MagentaYellow => 31,
            BuyerCard::Ceramics3MagentaBlue => 32,
            BuyerCard::Paintings4VermilionOrange => 33,
            BuyerCard::Paintings4VermilionGreen => 34,
            BuyerCard::Paintings4VermilionPurple => 35,
            BuyerCard::Paintings4AmberOrange => 36,
            BuyerCard::Paintings4AmberGreen => 37,
            BuyerCard::Paintings4AmberPurple => 38,
            BuyerCard::Paintings4ChartreuseOrange => 39,
            BuyerCard::Paintings4ChartreuseGreen => 40,
            BuyerCard::Paintings4ChartreusePurple => 41,
            BuyerCard::Paintings4TealOrange => 42,
            BuyerCard::Paintings4TealGreen => 43,
            BuyerCard::Paintings4TealPurple => 44,
            BuyerCard::Paintings4IndigoOrange => 45,
            BuyerCard::Paintings4IndigoGreen => 46,
            BuyerCard::Paintings4IndigoPurple => 47,
            BuyerCard::Paintings4MagentaOrange => 48,
            BuyerCard::Paintings4MagentaGreen => 49,
            BuyerCard::Paintings4MagentaPurple => 50,
        }
    }

    /// Stars awarded for completing this buyer.
    pub fn stars(&self) -> (r: u32)
        ensures
            r == buyer_stars(*self),
            2 <= r <= 4,
    {
        match self {
            BuyerCard::Textiles2Vermilion => 2,
            BuyerCard::Textiles2Amber => 2,
            BuyerCard::Textiles2Chartreuse => 2,
            BuyerCard::Textiles2Teal => 2,
            BuyerCard::Textiles2Indigo => 2,
            BuyerCard::Textiles2Magenta => 2,
            BuyerCard::Textiles2OrangeRed => 2,
            BuyerCard::Textiles2OrangeYellow => 2,
            BuyerCard::Textiles2OrangeBlue => 2,
            BuyerCard::Textiles2GreenRed => 2,
            BuyerCard::Textiles2GreenYellow => 2,
            BuyerCard::Textiles2GreenBlue => 2,
            BuyerCard::Textiles2PurpleRed => 2,
            BuyerCard::Textiles2PurpleYellow => 2,
            BuyerCard::Textiles2PurpleBlue => 2,
            BuyerCard::Ceramics3VermilionRed => 3,
            BuyerCard::Ceramics3VermilionYellow => 3,
            BuyerCard::Ceramics3VermilionBlue => 3,
            BuyerCard::Ceramics3AmberRed => 3,
            BuyerCard::Ceramics3AmberYellow => 3,
            BuyerCard::Ceramics3AmberBlue => 3,
            BuyerCard::Ceramics3ChartreuseRed => 3,
            BuyerCard::Ceramics3ChartreuseYellow => 3,
            BuyerCard::Ceramics3ChartreuseBlue => 3,
            BuyerCard::Ceramics3TealRed => 3,
            BuyerCard::Ceramics3TealYellow => 3,
            BuyerCard::Ceramics3TealBlue => 3,
            BuyerCard::Ceramics3IndigoRed => 3,
            BuyerCard::Ceramics3IndigoYellow => 3,
            BuyerCard::Ceramics3IndigoBlue => 3,
            BuyerCard::Ceramics3MagentaRed => 3,
            BuyerCard::Ceramics3MagentaYellow => 3,
            BuyerCard::Ceramics3MagentaBlue => 3,
            BuyerCard::Paintings4VermilionOrange => 4,
            BuyerCard::Paintings4VermilionGreen => 4,
            BuyerCard::Paintings4VermilionPurple => 4,
            BuyerCard::Paintings4AmberOrange => 4,
            BuyerCard::Paintings4AmberGreen => 4,
            BuyerCard::Paintings4AmberPurple => 4,
            BuyerCard::Paintings4ChartreuseOrange => 4,
            BuyerCard::Paintings4ChartreuseGreen => 4,
            BuyerCard::Paintings4ChartreusePurple => 4,
            BuyerCard::Paintings4TealOrange => 4,
            BuyerCard::Paintings4TealGreen => 4,
            BuyerCard::Paintings4TealPurple => 4,
            BuyerCard::Paintings4IndigoOrange => 4,
            BuyerCard::Paintings4IndigoGreen => 4,
            BuyerCard::Paintings4IndigoPurple => 4,
            BuyerCard::Paintings4MagentaOrange => 4,
            BuyerCard::Paintings4MagentaGreen => 4,
            BuyerCard::Paintings4MagentaPurple => 4,
        }
    }

    /// Material this buyer demands.
    pub fn required_material(&self) -> (r: MaterialType)
        ensures
            r == buyer_required_material(*self),
    {
        match self {
            BuyerCard::Textiles2Vermilion => MaterialType::Textiles,
            BuyerCard::Textiles2Amber => MaterialType::Textiles,
            BuyerCard::Textiles2Chartreuse => MaterialType::Textiles,
            BuyerCard::Textiles2Teal => MaterialType::Textiles,
            BuyerCard::Textiles2Indigo => MaterialType::Textiles,
            BuyerCard::Textiles2Magenta => MaterialType::Textiles,
            BuyerCard::Textiles2OrangeRed => MaterialType::Textiles,
            BuyerCard::Textiles2OrangeYellow => MaterialType::Textiles,
            BuyerCard::Textiles2OrangeBlue => MaterialType::Textiles,
            BuyerCard::Textiles2GreenRed => MaterialType::Textiles,
            BuyerCard::Textiles2GreenYellow => MaterialType::Textiles,
            BuyerCard::Textiles2GreenBlue => MaterialType::Textiles,
            BuyerCard::Textiles2PurpleRed => MaterialType::Textiles,
            BuyerCard::Textiles2PurpleYellow => MaterialType::Textiles,
            BuyerCard::Textiles2PurpleBlue => MaterialType::Textiles,
            BuyerCard::Ceramics3VermilionRed => MaterialType::Ceramics,
            BuyerCard::Ceramics3VermilionYellow => MaterialType::Ceramics,
            BuyerCard::Ceramics3VermilionBlue => MaterialType::Ceramics,
            BuyerCard::Ceramics3AmberRed => MaterialType::Ceramics,
            BuyerCard::Ceramics3AmberYellow => MaterialType::Ceramics,
            BuyerCard::Ceramics3AmberBlue => MaterialType::Ceramics,
            BuyerCard::Ceramics3ChartreuseRed => MaterialType::Ceramics,
            BuyerCard::Ceramics3ChartreuseYellow => MaterialType::Ceramics,
            BuyerCard::Ceramics3ChartreuseBlue => MaterialType::Ceramics,
            BuyerCard::Ceramics3TealRed => MaterialType::Ceramics,
            BuyerCard::Ceramics3TealYellow => MaterialType::Ceramics,
            BuyerCard::Ceramics3TealBlue => MaterialType::Ceramics,
            BuyerCard::Ceramics3IndigoRed => MaterialType::Ceramics,
            BuyerCard::Ceramics3IndigoYellow => MaterialType::Ceramics,
            BuyerCard::Ceramics3IndigoBlue => MaterialType::Ceramics,
            BuyerCard::Ceramics3MagentaRed => MaterialType::Ceramics,
            BuyerCard::Ceramics3MagentaYellow => MaterialType::Ceramics,
            BuyerCard::Ceramics3MagentaBlue => MaterialType::Ceramics,
            BuyerCard::Paintings4VermilionOrange => MaterialType::Paintings,
            BuyerCard::Paintings4VermilionGreen => MaterialType::Paintings,
            BuyerCard::Paintings4VermilionPurple => MaterialType::Paintings,
            BuyerCard::Paintings4AmberOrange => MaterialType::Paintings,
            BuyerCard::Paintings4AmberGreen => MaterialType::Paintings,
            BuyerCard::Paintings4AmberPurple => MaterialType::Paintings,
            BuyerCard::Paintings4ChartreuseOrange => MaterialType::Paintings,
            BuyerCard::Paintings4ChartreuseGreen => MaterialType::Paintings,
            BuyerCard::Paintings4ChartreusePurple => MaterialType::Paintings,
            BuyerCard::Paintings4TealOrange => MaterialType::Paintings,
            BuyerCard::Paintings4TealGreen => MaterialType::Paintings,
            BuyerCard::Paintings4TealPurple => MaterialType::Paintings,
            BuyerCard::Paintings4IndigoOrange => MaterialType::Paintings,
            BuyerCard::Paintings4IndigoGreen => MaterialType::Paintings,
            BuyerCard::Paintings4IndigoPurple => MaterialType::Paintings,
            BuyerCard::Paintings4MagentaOrange => MaterialType::Paintings,
            BuyerCard::Paintings4MagentaGreen => MaterialType::Paintings,
            BuyerCard::Paintings4MagentaPurple => MaterialType::Paintings,
        }
    }

    /// Colors this buyer demands.
    pub fn color_cost(&self) -> (r: Vec<Color>)
        ensures
            r@ == buyer_color_cost(*self),
    {
        let r: Vec<Color> = match self {
            BuyerCard::Textiles2Vermilion => vec![Color::Vermilion],
            BuyerCard::Textiles2Amber => vec![Color::Amber],
            BuyerCard::Textiles2Chartreuse => vec![Color::Chartreuse],
            BuyerCard::Textiles2Teal => vec![Color::Teal],
            BuyerCard::Textiles2Indigo => vec![Color::Indigo],
            BuyerCard::Textiles2Magenta => vec![Color::Magenta],
            BuyerCard::Textiles2OrangeRed => vec![Color::Orange, Color::Red],
            BuyerCard::Textiles2OrangeYellow => vec![Color::Orange, Color::Yellow],
            BuyerCard::Textiles2OrangeBlue => vec![Color::Orange, Color::Blue],
            BuyerCard::Textiles2GreenRed => vec![Color::Green, Color::Red],
            BuyerCard::Textiles2GreenYellow => vec![Color::Green, Color::Yellow],
            BuyerCard::Textiles2GreenBlue => vec![Color::Green, Color::Blue],
            BuyerCard::Textiles2PurpleRed => vec![Color::Purple, Color::Red],
            BuyerCard::Textiles2PurpleYellow => vec![Color::Purple, Color::Yellow],
            BuyerCard::Textiles2PurpleBlue => vec![Color::Purple, Color::Blue],
            BuyerCard::Ceramics3VermilionRed => vec![Color::Vermilion, Color::Red],
            BuyerCard::Ceramics3VermilionYellow => vec![Color::Vermilion, Color::Yellow],
            BuyerCard::Ceramics3VermilionBlue => vec![Color::Vermilion, Color::Blue],
            BuyerCard::Ceramics3AmberRed => vec![Color::Amber, Color::Red],
            BuyerCard::Ceramics3AmberYellow => vec![Color::Amber, Color::Yellow],
            BuyerCard::Ceramics3AmberBlue => vec![Color::Amber, Color::Blue],
            BuyerCard::Ceramics3ChartreuseRed => vec![Color::Chartreuse, Color::Red],
            BuyerCard::Ceramics3ChartreuseYellow => vec![Color::Chartreuse, Color::Yellow],
            BuyerCard::Ceramics3ChartreuseBlue => vec![Color::Chartreuse, Color::Blue],
            BuyerCard::Ceramics3TealRed => vec![Color::Teal, Color::Red],
            BuyerCard::Ceramics3TealYellow => vec![Color::Teal, Color::Yellow],
            BuyerCard::Ceramics3TealBlue => vec![Color::Teal, Color::Blue],
            BuyerCard::Ceramics3IndigoRed => vec![Color::Indigo, Color::Red],
            BuyerCard::Ceramics3IndigoYellow => vec![Color::Indigo, Color::Yellow],
            BuyerCard::Ceramics3IndigoBlue => vec![Color::Indigo, Color::Blue],
            BuyerCard::Ceramics3MagentaRed => vec![Color::Magenta, Color::Red],
            BuyerCard::Ceramics3MagentaYellow => vec![Color::Magenta, Color::Yellow],
            BuyerCard::Ceramics3MagentaBlue => vec![Color::Magenta, Color::Blue],
            BuyerCard::Paintings4VermilionOrange => vec![Color::Vermilion, Color::Orange],
            BuyerCard::Paintings4VermilionGreen => vec![Color::Vermilion, Color::Green],
            BuyerCard::Paintings4VermilionPurple => vec![Color::Vermilion, Color::Purple],
            BuyerCard::Paintings4AmberOrange => vec![Color::Amber, Color::Orange],
            BuyerCard::Paintings4AmberGreen => vec![Color::Amber, Color::Green],
            BuyerCard::Paintings4AmberPurple => vec![Color::Amber, Color::Purple],
            BuyerCard::Paintings4ChartreuseOrange => vec![Color::Chartreuse, Color::Orange],
            BuyerCard::Paintings4ChartreuseGreen => vec![Color::Chartreuse, Color::Green],
            BuyerCard::Paintings4ChartreusePurple => vec![Color::Chartreuse, Color::Purple],
            BuyerCard::Paintings4TealOrange => vec![Color::Teal, Color::Orange],
            BuyerCard::Paintings4TealGreen => vec![Color::Teal, Color::Green],
            BuyerCard::Paintings4TealPurple => vec![Color::Teal, Color::Purple],
            BuyerCard::Paintings4IndigoOrange => vec![Color::Indigo, Color::Orange],
            BuyerCard::Paintings4IndigoGreen => vec![Color::Indigo, Color::Green],
            BuyerCard::Paintings4IndigoPurple => vec![Color::Indigo, Color::Purple],
            BuyerCard::Paintings4MagentaOrange => vec![Color::Magenta, Color::Orange],
            BuyerCard::Paintings4MagentaGreen => vec![Color::Magenta, Color::Green],
            BuyerCard::Paintings4MagentaPurple => vec![Color::Magenta, Color::Purple],
        };
        proof { assert(r@ =~= buyer_color_cost(*self)); }
        r
    }
}


/// One physical copy of a card, identified by a small instance id.
#[derive(Debug, Clone, Copy, PartialEq, Eq, Structural)]
pub struct CardInstance {
    pub instance_id: u32,
    pub card: Card,
}

/// One physical copy of a buyer, identified by a small instance id.
#[derive(Debug, Clone, Copy, PartialEq, Eq, Structural)]
pub struct BuyerInstance {
    pub instance_id: u32,
    pub buyer: BuyerCard,
}

/// Saturating add on u32, used for counters with no game-imposed bound.
pub open spec fn sat_add_u32(a: u32, b: u32) -> u32 {
    if a + b <= u32::MAX { (a + b) as u32 } else { u32::MAX }
}

/// Add two counters, saturating at the counter's limit.
pub fn add_saturating(a: u32, b: u32) -> (r: u32)
    ensures
        r == sat_add_u32(a, b),
{
    if a <= u32::MAX - b {
        a + b
    } else {
        u32::MAX
    }
}

/// Color wheel: how many pips of each of the 12 colors a player holds.
#[derive(Debug, Clone, Copy)]
pub struct ColorWheel {
    pub counts: [u32; 12],
}

impl ColorWheel {
    /// An empty wheel.
    pub fn new() -> (r: ColorWheel)
        ensures
            forall|i: int| 0 <= i < 12 ==> r.counts@[i] == 0,
    {
        ColorWheel { counts: [0; 12] }
    }

    /// Count of pips of a color.
    pub fn get(&self, color: Color) -> (r: u32)
        ensures
            r == self.counts@[color_index(color)],
    {
        self.counts[color.index()]
    }

    /// Set the count of pips of a color.
    pub fn set(&mut self, color: Color, value: u32)
        ensures
            final(self).counts@ == old(self).counts@.update(color_index(color), value),
    {
        let i = color.index();
        self.counts[i] = value;
    }

    /// Add one pip of a color, saturating at the counter's limit.
    pub fn increment(&mut self, color: Color)
        ensures
            final(self).counts@ == old(self).counts@.update(
                color_index(color),
                sat_add_u32(old(self).counts@[color_index(color)], 1),
            ),
    {
        let i = color.index();
        if self.counts[i] < u32::MAX {
            self.counts[i] = self.counts[i] + 1;
        }
    }

    /// Remove one pip of a color; reports whether a pip was present.
    pub fn decrement(&mut self, color: Color) -> (r: bool)
        ensures
            r == (old(self).counts@[color_index(color)] > 0),
            r ==> final(self).counts@ == old(self).counts@.update(
                color_index(color),
                (old(self).counts@[color_index(color)] - 1) as u32,
            ),
            !r ==> *final(self) == *old(self),
    {
        let i = color.index();
        if self.counts[i] == 0 {
            return false;
        }
        self.counts[i] = self.counts[i] - 1;
        true
    }
}

/// Stored materials: how many of each of the 3 material types a player holds.
#[derive(Debug, Clone, Copy)]
pub struct Materials {
    pub counts: [u32; 3],
}

impl Materials {
    /// No stored materials.
    pub fn new() -> (r: Materials)
        ensures
            forall|i: int| 0 <= i < 3 ==> r.counts@[i] == 0,
    {
        Materials { counts: [0; 3] }
    }

    /// Count of a material type.
    pub fn get(&self, mt: MaterialType) -> (r: u32)
        ensures
            r == self.counts@[material_index(mt)],
    {
        self.counts[mt.index()]
    }

    /// Add one of a material type, saturating at the counter's limit.
    pub fn increment(&mut self, mt: MaterialType)
        ensures
            final(self).counts@ == old(self).counts@.update(
                material_index(mt),
                sat_add_u32(old(self).counts@[material_index(mt)], 1),
            ),
    {
        let i = mt.index();
        if self.counts[i] < u32::MAX {
            self.counts[i] = self.counts[i] + 1;
        }
    }

    /// Remove one of a material type; reports whether one was present.
    pub fn decrement(&mut self, mt: MaterialType) -> (r: bool)
        ensures
            r == (old(self).counts@[material_index(mt)] > 0),
            r ==> final(self).counts@ == old(self).counts@.update(
                material_index(mt),
                (old(self).counts@[material_index(mt)] - 1) as u32,
            ),
            !r ==> *final(self) == *old(self),
    {
        let i = mt.index();
        if self.counts[i] == 0 {
            return false;
        }
        self.counts[i] = self.counts[i] - 1;
        true
    }
}



/// A decision the active player still owes before play continues.
#[derive(Debug, Clone, Copy, PartialEq, Eq, Structural)]
pub enum PendingChoice {
    ChooseCardsForWorkshop { count: u32 },
    ChooseCardsToDestroy { count: u32 },
    ChooseMix { remaining: u32 },
    ChooseBuyer,
    ChooseSecondaryColor,
    ChoosePrimaryColor,
    ChooseTertiaryToLose,
}

/// Per-draft bookkeeping: each player's current hand and whose pick it is.
#[derive(Debug, Clone, Copy)]
pub struct DraftState {
    pub pick_number: u32,
    pub current_player_index: usize,
    pub hands: [UnorderedCards; 4],
    pub num_hands: usize,
    pub direction: i32,
    pub waiting_for_pass: bool,
}

/// Per-turn bookkeeping in the action phase.
#[derive(Debug)]
pub struct ActionState {
    pub current_player_index: usize,
    pub ability_stack: Vec<Ability>,
    pub pending_choice: Option<PendingChoice>,
    pub canonical_phase: u8,
}

/// Per-round bookkeeping in the cleanup phase.
#[derive(Debug, Clone, Copy)]
pub struct CleanupState {
    pub current_player_index: usize,
}

/// Which phase the game is in, with that phase's bookkeeping.
#[derive(Debug)]
pub enum GamePhase {
    Draw,
    Draft { draft_state: DraftState },
    Action { action_state: ActionState },
    Cleanup { cleanup_state: CleanupState },
    GameOver,
}

/// Everything one player owns.
#[derive(Debug)]
pub struct PlayerState {
    pub deck: UnorderedCards,
    pub discard: UnorderedCards,
    pub used_cards: UnorderedCards,
    pub workshop_cards: UnorderedCards,
    pub drafted_cards: UnorderedCards,
    pub color_wheel: ColorWheel,
    pub materials: Materials,
    pub completed_buyers: Vec<BuyerInstance>,
    pub ducats: u32,
    pub cached_score: u32,
}

/// A full game position.
#[derive(Debug)]
pub struct GameState {
    pub players: FixedVec<PlayerState, MAX_PLAYERS>,
    pub draft_deck: UnorderedCards,
    pub destroyed_pile: UnorderedCards,
    pub buyer_deck: UnorderedBuyers,
    pub buyer_display: FixedVec<BuyerInstance, MAX_BUYER_DISPLAY>,
    pub phase: GamePhase,
    pub round: u32,
    pub ai_players: FixedVec<bool, MAX_PLAYERS>,
    pub card_lookup: [Card; 128],
    pub buyer_lookup: [BuyerCard; 128],
}

/// Structural validity of a game state: a legal player count, in-range
/// player indices, and per-phase bookkeeping that matches the player list.
pub open spec fn state_wf(s: GameState) -> bool {
    &&& 1 <= s.players@.len() <= MAX_PLAYERS
    &&& s.players.wf()
    &&& s.buyer_display.wf()
    &&& s.ai_players.wf()
    &&& s.round >= 1
    &&& match s.phase {
        GamePhase::Draft { draft_state } => {
            &&& draft_state.num_hands == s.players@.len()
            &&& draft_state.current_player_index < s.players@.len()
            &&& (draft_state.direction == 1 || draft_state.direction == -1)
        }
        GamePhase::Action { action_state } =>
            action_state.current_player_index < s.players@.len(),
        GamePhase::Cleanup { cleanup_state } =>
            cleanup_state.current_player_index < s.players@.len(),
        _ => true,
    }
}

/// Two player states carry the same data.
pub open spec fn player_eq(a: PlayerState, b: PlayerState) -> bool {
    &&& a.deck == b.deck
    &&& a.discard == b.discard
    &&& a.used_cards == b.used_cards
    &&& a.workshop_cards == b.workshop_cards
    &&& a.drafted_cards == b.drafted_cards
    &&& a.color_wheel == b.color_wheel
    &&& a.materials == b.materials
    &&& a.completed_buyers@ == b.completed_buyers@
    &&& a.ducats == b.ducats
    &&& a.cached_score == b.cached_score
}

/// Two phases carry the same data.
pub open spec fn phase_eq(a: GamePhase, b: GamePhase) -> bool {
    match (a, b) {
        (GamePhase::Draw, GamePhase::Draw) => true,
        (GamePhase::Draft { draft_state: x }, GamePhase::Draft { draft_state: y }) => x == y,
        (GamePhase::Action { action_state: x }, GamePhase::Action { action_state: y }) => {
            &&& x.current_player_index == y.current_player_index
            &&& x.ability_stack@ == y.ability_stack@
            &&& x.pending_choice == y.pending_choice
            &&& x.canonical_phase == y.canonical_phase
        }
        (GamePhase::Cleanup { cleanup_state: x }, GamePhase::Cleanup { cleanup_state: y }) =>
            x == y,
        (GamePhase::GameOver, GamePhase::GameOver) => true,
        _ => false,
    }
}

/// Two game states carry the same data.
pub open spec fn state_eq(a: GameState, b: GameState) -> bool {
    &&& a.players@.len() == b.players@.len()
    &&& forall|i: int| 0 <= i < a.players@.len()
        ==> player_eq(#[trigger] a.players@[i], b.players@[i])
    &&& a.draft_deck == b.draft_deck
    &&& a.destroyed_pile == b.destroyed_pile
    &&& a.buyer_deck == b.buyer_deck
    &&& a.buyer_display@ == b.buyer_display@
    &&& phase_eq(a.phase, b.phase)
    &&& a.round == b.round
    &&& a.ai_players@ == b.ai_players@
    &&& a.card_lookup@ == b.card_lookup@
    &&& a.buyer_lookup@ == b.buyer_lookup@
}

/// Copy a vector of plain values.
pub fn copy_vec<T: Copy>(v: &Vec<T>) -> (r: Vec<T>)
    ensures
        r@ == v@,
{
    let mut out: Vec<T> = Vec::new();
    let mut i: usize = 0;
    while i < v.len()
        invariant
            i <= v@.len(),
            out@ == v@.take(i as int),
        decreases v@.len() - i,
    {
        let x = v[i];
        out.push(x);
        proof {
            assert(out@ =~= v@.take(i as int + 1));
        }
        i = i + 1;
    }
    proof {
        assert(v@.take(v@.len() as int) =~= v@);
    }
    out
}

impl PlayerState {
    /// An independent copy of this player's data.
    pub fn duplicate(&self) -> (r: PlayerState)
        ensures
            player_eq(r, *self),
    {
        PlayerState {
            deck: self.deck,
            discard: self.discard,
            used_cards: self.used_cards,
            workshop_cards: self.workshop_cards,
            drafted_cards: self.drafted_cards,
            color_wheel: self.color_wheel,
            materials: self.materials,
            completed_buyers: copy_vec(&self.completed_buyers),
            ducats: self.ducats,
            cached_score: self.cached_score,
        }
    }
}

impl GamePhase {
    /// An independent copy of this phase.
    pub fn duplicate(&self) -> (r: GamePhase)
        ensures
            phase_eq(r, *self),
    {
        match self {
            GamePhase::Draw => GamePhase::Draw,
            GamePhase::Draft { draft_state } => GamePhase::Draft { draft_state: *draft_state },
            GamePhase::Action { action_state } => GamePhase::Action {
                action_state: ActionState {
                    current_player_index: action_state.current_player_index,
                    ability_stack: copy_vec(&action_state.ability_stack),
                    pending_choice: action_state.pending_choice,
                    canonical_phase: action_state.canonical_phase,
                },
            },
            GamePhase::Cleanup { cleanup_state } => GamePhase::Cleanup {
                cleanup_state: *cleanup_state,
            },
            GamePhase::GameOver => GamePhase::GameOver,
        }
    }
}

impl GameState {
    /// An independent copy of this position.
    pub fn duplicate(&self) -> (r: GameState)
        requires
            self.players.wf(),
        ensures
            state_eq(r, *self),
            state_wf(*self) ==> state_wf(r),
    {
        let mut players: FixedVec<PlayerState, MAX_PLAYERS> = FixedVec::new();
        let mut i: usize = 0;
        while i < self.players.len()
            invariant
                i <= self.players@.len(),
                self.players@.len() <= MAX_PLAYERS,
                players@.len() == i,
                players.wf(),
                forall|j: int| 0 <= j < i
                    ==> player_eq(#[trigger] players@[j], self.players@[j]),
            decreases self.players@.len() - i,
        {
            let p = self.players.get(i).duplicate();
            players.push(p);
            i = i + 1;
        }
        GameState {
            players,
            draft_deck: self.draft_deck,
            destroyed_pile: self.destroyed_pile,
            buyer_deck: self.buyer_deck,
            buyer_display: self.buyer_display.duplicate(),
            phase: self.phase.duplicate(),
            round: self.round,
            ai_players: self.ai_players.duplicate(),
            card_lookup: self.card_lookup,
            buyer_lookup: self.buyer_lookup,
        }
    }
}

/// An ordered pair of colors to mix.
#[derive(Debug, Clone, Copy, PartialEq, Eq, Structural)]
pub struct MixPair {
    pub a: Color,
    pub b: Color,
}

/// One or two color mixes applied in a single move.
#[derive(Debug, Clone, Copy, PartialEq, Eq, Structural)]
pub enum Mixes {
    Zero,
    One(MixPair),
    Two(MixPair, MixPair),
}

/// The mixes as a sequence of color pairs.
pub open spec fn mixes_seq(m: Mixes) -> Seq<MixPair> {
    match m {
        Mixes::Zero => Seq::empty(),
        Mixes::One(p) => seq![p],
        Mixes::Two(p, q) => seq![p, q],
    }
}

impl Mixes {
    /// Number of mixes.
    pub fn len(&self) -> (r: usize)
        ensures
            r == mixes_seq(*self).len(),
            r <= 2,
    {
        match self {
            Mixes::Zero => 0,
            Mixes::One(_) => 1,
            Mixes::Two(_, _) => 2,
        }
    }

    /// The `i`-th mix.
    pub fn get(&self, i: usize) -> (r: MixPair)
        requires
            i < mixes_seq(*self).len(),
        ensures
            r == mixes_seq(*self)[i as int],
    {
        match self {
            Mixes::Zero => MixPair { a: Color::Red, b: Color::Red },
            Mixes::One(p) => *p,
            Mixes::Two(p, q) => if i == 0 { *p } else { *q },
        }
    }
}

/// A concrete move, naming specific card and buyer instances.
#[derive(Debug, Clone, Copy, PartialEq, Eq, Structural)]
pub enum ColoriChoice {
    DraftPick { card_instance_id: u32 },
    DestroyDraftedCard { card_instance_id: u32 },
    EndTurn,
    Workshop { card_instance_ids: UnorderedCards },
    SkipWorkshop,
    DestroyDrawnCards { card_instance_ids: UnorderedCards },
    SelectBuyer { buyer_instance_id: u32 },
    GainSecondary { color: Color },
    GainPrimary { color: Color },
    MixAll { mixes: Mixes },
    SwapTertiary { lose: Color, gain: Color },
    DestroyAndMixAll { card_instance_id: u32, mixes: Mixes },
    DestroyAndSell { card_instance_id: u32, buyer_instance_id: u32 },
    KeepWorkshopCards { card_instance_ids: UnorderedCards },
}

/// How many instances of each card type a selection holds; the canonical
/// multiset form used to compare selections across determinizations.
#[derive(Debug, Clone, Copy)]
pub struct CardCounts {
    pub counts: [u8; 42],
}

impl CardCounts {
    /// No cards.
    pub fn new() -> (r: CardCounts)
        ensures
            forall|i: int| 0 <= i < 42 ==> r.counts@[i] == 0,
    {
        CardCounts { counts: [0; 42] }
    }

    /// Record one more instance of a card type, saturating at the
    /// counter's limit.
    pub fn add(&mut self, card: Card)
        ensures
            final(self).counts@ == old(self).counts@.update(
                card_type_index(card),
                if old(self).counts@[card_type_index(card)] < 255 {
                    (old(self).counts@[card_type_index(card)] + 1) as u8
                } else {
                    255u8
                },
            ),
    {
        let i = card.type_index();
        if self.counts[i] < 255 {
            self.counts[i] = self.counts[i] + 1;
        }
    }

    /// How many instances of a card type are recorded.
    pub fn get(&self, card: Card) -> (r: u8)
        ensures
            r == self.counts@[card_type_index(card)],
    {
        self.counts[card.type_index()]
    }

    /// Whether two selections hold the same multiset of card types.
    pub fn same(&self, other: &CardCounts) -> (r: bool)
        ensures
            r == (*self == *other),
    {
        let mut i: usize = 0;
        while i < 42
            invariant
                i <= 42,
                forall|j: int| 0 <= j < i ==> self.counts@[j] == other.counts@[j],
            decreases 42 - i,
        {
            if self.counts[i] != other.counts[i] {
                return false;
            }
            i = i + 1;
        }
        proof {
            assert(self.counts =~= other.counts);
        }
        true
    }
}

/// A move up to interchangeable card copies: specific instance ids are
/// replaced by card and buyer types, so that the same abstract action is
/// recognized across different determinizations.
#[derive(Debug, Clone, Copy)]
pub enum AbstractChoice {
    DraftPick { card: Card },
    DestroyDraftedCard { card: Card },
    EndTurn,
    Workshop { card_types: CardCounts },
    SkipWorkshop,
    DestroyDrawnCards { card_types: CardCounts },
    SelectBuyer { buyer: BuyerCard },
    GainSecondary { color: Color },
    GainPrimary { color: Color },
    MixAll { mixes: Mixes },
    SwapTertiary { lose: Color, gain: Color },
    DestroyAndMixAll { card: Card, mixes: Mixes },
    DestroyAndSell { card: Card, buyer: BuyerCard },
    KeepWorkshopCards { card_types: CardCounts },
}

impl AbstractChoice {
    /// Whether two abstract moves are the same move.
    pub fn same(&self, other: &AbstractChoice) -> (r: bool)
        ensures
            r == (*self == *other),
    {
        match (self, other) {
            (AbstractChoice::DraftPick { card: a }, AbstractChoice::DraftPick { card: b }) =>
                *a == *b,
            (
                AbstractChoice::DestroyDraftedCard { card: a },
                AbstractChoice::DestroyDraftedCard { card: b },
            ) => *a == *b,
            (AbstractChoice::EndTurn, AbstractChoice::EndTurn) => true,
            (
                AbstractChoice::Workshop { card_types: a },
                AbstractChoice::Workshop { card_types: b },
            ) => a.same(b),
            (AbstractChoice::SkipWorkshop, AbstractChoice::SkipWorkshop) => true,
            (
                AbstractChoice::DestroyDrawnCards { card_types: a },
                AbstractChoice::DestroyDrawnCards { card_types: b },
            ) => a.same(b),
            (
                AbstractChoice::SelectBuyer { buyer: a },
                AbstractChoice::SelectBuyer { buyer: b },
            ) => *a == *b,
            (
                AbstractChoice::GainSecondary { color: a },
                AbstractChoice::GainSecondary { color: b },
            ) => *a == *b,
            (
                AbstractChoice::GainPrimary { color: a },
                AbstractChoice::GainPrimary { color: b },
            ) => *a == *b,
            (AbstractChoice::MixAll { mixes: a }, AbstractChoice::MixAll { mixes: b }) =>
                *a == *b,
            (
                AbstractChoice::SwapTertiary { lose: a, gain: b },
                AbstractChoice::SwapTertiary { lose: c, gain: d },
            ) => *a == *c && *b == *d,
            (
                AbstractChoice::DestroyAndMixAll { card: a, mixes: m },
                AbstractChoice::DestroyAndMixAll { card: b, mixes: n },
            ) => *a == *b && *m == *n,
            (
                AbstractChoice::DestroyAndSell { card: a, buyer: x },
                AbstractChoice::DestroyAndSell { card: b, buyer: y },
            ) => *a == *b && *x == *y,
            (
                AbstractChoice::KeepWorkshopCards { card_types: a },
                AbstractChoice::KeepWorkshopCards { card_types: b },
            ) => a.same(b),
            _ => false,
        }
    }
}


/// Distinct card types have distinct dense indices.
pub proof fn lemma_card_index_injective(a: Card, b: Card)
    ensures
        card_type_index(a) == card_type_index(b) ==> a == b,
{
}

/// A card type is recovered from its dense index.
pub proof fn lemma_card_index_roundtrip(c: Card)
    ensures
        card_of_index(card_type_index(c)) == c,
{
}

/// Distinct buyer types have distinct dense indices.
pub proof fn lemma_buyer_index_injective(a: BuyerCard, b: BuyerCard)
    ensures
        buyer_type_index(a) == buyer_type_index(b) ==> a == b,
{
}

/// Every buyer card, in dense-index order.
pub fn all_buyer_cards() -> (r: Vec<BuyerCard>)
    ensures
        r@.len() == 51,
        forall|i: int| 0 <= i < 51 ==> buyer_type_index(#[trigger] r@[i]) == i,
{
    let r: Vec<BuyerCard> = vec![
        BuyerCard::Textiles2Vermilion,
        BuyerCard::Textiles2Amber,
        BuyerCard::Textiles2Chartreuse,
        BuyerCard::Textiles2Teal,
        BuyerCard::Textiles2Indigo,
        BuyerCard::Textiles2Magenta,
        BuyerCard::Textiles2OrangeRed,
        BuyerCard::Textiles2OrangeYellow,
        BuyerCard::Textiles2OrangeBlue,
        BuyerCard::Textiles2GreenRed,
        BuyerCard::Textiles2GreenYellow,
        BuyerCard::Textiles2GreenBlue,
        BuyerCard::Textiles2PurpleRed,
        BuyerCard::Textiles2PurpleYellow,
        BuyerCard::Textiles2PurpleBlue,
        BuyerCard::Ceramics3VermilionRed,
        BuyerCard::Ceramics3VermilionYellow,
        BuyerCard::Ceramics3VermilionBlue,
        BuyerCard::Ceramics3AmberRed,
        BuyerCard::Ceramics3AmberYellow,
        BuyerCard::Ceramics3AmberBlue,
        BuyerCard::Ceramics3ChartreuseRed,
        BuyerCard::Ceramics3ChartreuseYellow,
        BuyerCard::Ceramics3ChartreuseBlue,
        BuyerCard::Ceramics3TealRed,
        BuyerCard::Ceramics3TealYellow,
        BuyerCard::Ceramics3TealBlue,
        BuyerCard::Ceramics3IndigoRed,
        BuyerCard::Ceramics3IndigoYellow,
        BuyerCard::Ceramics3IndigoBlue,
        BuyerCard::Ceramics3MagentaRed,
        BuyerCard::Ceramics3MagentaYellow,
        BuyerCard::Ceramics3MagentaBlue,
        BuyerCard::Paintings4VermilionOrange,
        BuyerCard::Paintings4VermilionGreen,
        BuyerCard::Paintings4VermilionPurple,
        BuyerCard::Paintings4AmberOrange,
        BuyerCard::Paintings4AmberGreen,
        BuyerCard::Paintings4AmberPurple,
        BuyerCard::Paintings4ChartreuseOrange,
        BuyerCard::Paintings4ChartreuseGreen,
        BuyerCard::Paintings4ChartreusePurple,
        BuyerCard::Paintings4TealOrange,
        BuyerCard::Paintings4TealGreen,
        BuyerCard::Paintings4TealPurple,
        BuyerCard::Paintings4IndigoOrange,
        BuyerCard::Paintings4IndigoGreen,
        BuyerCard::Paintings4IndigoPurple,
        BuyerCard::Paintings4MagentaOrange,
        BuyerCard::Paintings4MagentaGreen,
        BuyerCard::Paintings4MagentaPurple,
    ];
    proof {
        assert forall|i: int| 0 <= i < 51
            implies buyer_type_index(#[trigger] r@[i]) == i by {
            assert(r@.len() == 51);
        }
    }
    r
}

} // verus!

