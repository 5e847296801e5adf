//! Card and chip types, what each card type does, and the two decks.
use vstd::prelude::*;

verus! {

/// What a card does when it is resolved.
#[derive(Clone, Copy, Debug, PartialEq, Eq, Structural)]
pub enum CardType {
    Attack,
    BigDeal,
    Cocaine,
    Cannabis,
    Drought,
    Espionage,
    Export,
    LocalMarket,
    PoliceBribe,
    Train,
    Truck,
}

/// The two kinds of resource chip.
#[derive(Clone, Copy, Debug, PartialEq, Eq, Structural)]
pub enum ChipType {
    Cocaine,
    Cannabis,
}

/// A card of the game: its type and the image that shows it.
#[derive(Clone, Debug)]
pub struct Kard {
    pub card_type: CardType,
    pub filename: String,
}

/// Image file of each card type.
pub open spec fn card_filename_spec(t: CardType) -> Seq<char> {
    match t {
        CardType::Attack => "tarjetas/attack.png"@,
        CardType::BigDeal => "tarjetas/big-deal.png"@,
        CardType::Cocaine => "tarjetas/cocaine.png"@,
        CardType::Cannabis => "tarjetas/marijuana.png"@,
        CardType::Drought => "tarjetas/drought.png"@,
        CardType::Espionage => "tarjetas/espionage.png"@,
        CardType::Export => "tarjetas/export.png"@,
        CardType::LocalMarket => "tarjetas/local-market.png"@,
        CardType::PoliceBribe => "tarjetas/police-bribe.png"@,
        CardType::Train => "tarjetas/train.png"@,
        CardType::Truck => "tarjetas/truck.png"@,
    }
}

/// The chip that a production card drops, if it is one.
pub open spec fn produced_chip_spec(t: CardType) -> Option<ChipType> {
    match t {
        CardType::Cocaine => Some(ChipType::Cocaine),
        CardType::Cannabis => Some(ChipType::Cannabis),
        _ => None,
    }
}

/// Capacity of a transportation card, if it is one.
pub open spec fn transport_capacity_spec(t: CardType) -> Option<u64> {
    match t {
        CardType::Truck => Some(20),
        CardType::Train => Some(50),
        _ => None,
    }
}

/// Capacity of a sales card, if it is one.
pub open spec fn sales_capacity_spec(t: CardType) -> Option<u64> {
    match t {
        CardType::Export => Some(50),
        CardType::LocalMarket => Some(10),
        _ => None,
    }
}

/// The ten cards that the playing deck holds for each player, in order.
pub open spec fn playing_deck_pattern(i: int) -> CardType {
    if i < 2 {
        CardType::Cocaine
    } else if i < 4 {
        CardType::Cannabis
    } else if i < 6 {
        CardType::Truck
    } else if i < 7 {
        CardType::Train
    } else if i < 9 {
        CardType::LocalMarket
    } else {
        CardType::Export
    }
}

/// The two cards that the event deck holds for each player, in order.
pub open spec fn event_deck_pattern(i: int) -> CardType {
    if i == 0 {
        CardType::Drought
    } else {
        CardType::BigDeal
    }
}

impl CardType {
    pub fn produced_chip(self) -> (r: Option<ChipType>)
        ensures
            r == produced_chip_spec(self),
    {
        match self {
            CardType::Cocaine => Some(ChipType::Cocaine),
            CardType::Cannabis => Some(ChipType::Cannabis),
            _ => None,
        }
    }

    pub fn transport_capacity(self) -> (r: Option<u64>)
        ensures
            r == transport_capacity_spec(self),
    {
        match self {
            CardType::Truck => Some(20),
            CardType::Train => Some(50),
            _ => None,
        }
    }

    pub fn sales_capacity(self) -> (r: Option<u64>)
        ensures
            r == sales_capacity_spec(self),
    {
        match self {
            CardType::Export => Some(50),
            CardType::LocalMarket => Some(10),
            _ => None,
        }
    }
}

impl Kard {
    /// A card of the given type with its image.
    pub fn new(card_type: CardType) -> (r: Kard)
        ensures
            r.card_type == card_type,
            r.filename@ == card_filename_spec(card_type),
    {
        let name: &str = match card_type {
            CardType::Attack => "tarjetas/attack.png",
            CardType::BigDeal => "tarjetas/big-deal.png",
            CardType::Cocaine => "tarjetas/cocaine.png",
            CardType::Cannabis => "tarjetas/marijuana.png",
            CardType::Drought => "tarjetas/drought.png",
            CardType::Espionage => "tarjetas/espionage.png",
            CardType::Export => "tarjetas/export.png",
            CardType::LocalMarket => "tarjetas/local-market.png",
            CardType::PoliceBribe => "tarjetas/police-bribe.png",
            CardType::Train => "tarjetas/train.png",
            CardType::Truck => "tarjetas/truck.png",
        };
        Kard { card_type, filename: name.to_owned() }
    }

    /// The image file of the card.
    pub fn filename(&self) -> (r: String)
        ensures
            r@ == self.filename@,
    {
        self.filename.clone()
    }
}

/// The card at position `k` of each player's share of the playing deck.
fn playing_deck_card(k: usize) -> (r: CardType)
    ensures
        r == playing_deck_pattern(k as int),
{
    if k < 2 {
        CardType::Cocaine
    } else if k < 4 {
        CardType::Cannabis
    } else if k < 6 {
        CardType::Truck
    } else if k < 7 {
        CardType::Train
    } else if k < 9 {
        CardType::LocalMarket
    } else {
        CardType::Export
    }
}

/// The playing deck for a game of `num_players`: for each player two cocaine
/// and two cannabis cards, two trucks, a train, two local markets and an
/// export.
pub fn load_playing_deck(num_players: usize) -> (deck: Vec<Kard>)
    requires
        num_players <= usize::MAX / 10,
    ensures
        deck@.len() == 10 * num_players,
        forall|i: int|
            0 <= i < deck@.len() ==> (#[trigger] deck@[i]).card_type == playing_deck_pattern(
                i % 10,
            ) && deck@[i].filename@ == card_filename_spec(deck@[i].card_type),
{
    let mut deck: Vec<Kard> = Vec::new();
    let mut p: usize = 0;
    while p < num_players
        invariant
            p <= num_players <= usize::MAX / 10,
            deck@.len() == 10 * p,
            forall|i: int|
                0 <= i < deck@.len() ==> (#[trigger] deck@[i]).card_type == playing_deck_pattern(
                    i % 10,
                ) && deck@[i].filename@ == card_filename_spec(deck@[i].card_type),
        decreases num_players - p,
    {
        let mut k: usize = 0;
        while k < 10
            invariant
                k <= 10,
                p < num_players <= usize::MAX / 10,
                deck@.len() == 10 * p + k,
                forall|i: int|
                    0 <= i < deck@.len() ==> (#[trigger] deck@[i]).card_type
                        == playing_deck_pattern(i % 10) && deck@[i].filename@ == card_filename_spec(
                        deck@[i].card_type,
                    ),
            decreases 10 - k,
        {
            let c = Kard::new(playing_deck_card(k));
            assert((10 * p + k) % 10 == k) by (nonlinear_arith)
                requires
                    k < 10,
            ;
            deck.push(c);
            k = k + 1;
        }
        p = p + 1;
    }
    deck
}

/// The event deck for a game of `num_players`: a drought and a big deal for
/// each player.
pub fn load_event_deck(num_players: usize) -> (deck: Vec<Kard>)
    requires
        num_players <= usize::MAX / 2,
    ensures
        deck@.len() == 2 * num_players,
        forall|i: int|
            0 <= i < deck@.len() ==> (#[trigger] deck@[i]).card_type == event_deck_pattern(i % 2)
                && deck@[i].filename@ == card_filename_spec(deck@[i].card_type),
{
    let mut deck: Vec<Kard> = Vec::new();
    let mut p: usize = 0;
    while p < num_players
        invariant
            p <= num_players <= usize::MAX / 2,
            deck@.len() == 2 * p,
            forall|i: int|
                0 <= i < deck@.len() ==> (#[trigger] deck@[i]).card_type == event_deck_pattern(
                    i % 2,
                ) && deck@[i].filename@ == card_filename_spec(deck@[i].card_type),
        decreases num_players - p,
    {
        deck.push(Kard::new(CardType::Drought));
        deck.push(Kard::new(CardType::BigDeal));
        p = p + 1;
    }
    deck
}

} // verus!
