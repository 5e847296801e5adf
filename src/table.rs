//! What the presentation layer reports of the table, and the intents that
//! a resolution hands back to it.
use vstd::prelude::*;
use crate::cards::{CardType, ChipType};

verus! {

/// Area marker of the production area.
pub const PRODUCTION_AREA: usize = 1;

/// Area marker of the sales area.
pub const SALES_AREA: usize = 2;

/// Deck marker of the playing deck, where spent cards go back.
pub const PLAYING_DECK: usize = 1;

/// Deck marker of the event deck.
pub const EVENT_DECK: usize = 2;

/// Table slot where a drawn event card is laid.
pub const EVENT_SLOT: usize = 6;

/// A chip on the table, as the presentation layer reports it.
#[derive(Clone, Copy, Debug, PartialEq, Eq, Structural)]
pub struct ChipOnTable {
    pub id: u64,
    pub chip_type: ChipType,
    /// Area marker: `PRODUCTION_AREA` or `SALES_AREA`.
    pub area: usize,
    /// Player whose area holds the chip.
    pub player: usize,
    /// Turn in which the chip entered the production area.
    pub turn_activation_1: usize,
    /// Turn in which the chip entered the sales area; 0 if it never did.
    pub turn_activation_2: usize,
    /// Position of the chip along the table's sorting axis.
    pub sort_key: i64,
}

/// A card that a player has committed to a slot of the table.
#[derive(Clone, Copy, Debug, PartialEq, Eq, Structural)]
pub struct CardOnTable {
    pub id: u64,
    pub card_type: CardType,
    pub player: usize,
    pub marker: usize,
}

/// A card still in a deck.
#[derive(Clone, Copy, Debug, PartialEq, Eq, Structural)]
pub struct CardInDeck {
    pub id: u64,
    pub card_type: CardType,
    pub deck_marker: usize,
    /// Position of the card in the pile; the top card has the largest key.
    pub sort_key: i64,
}

/// An event card that is in force for a player.
#[derive(Clone, Copy, Debug, PartialEq, Eq, Structural)]
pub struct ActiveEventCard {
    pub id: u64,
    pub card_type: CardType,
    pub player: usize,
}

/// What the presentation layer reports of the table for one resolution.
#[derive(Debug)]
pub struct TableSnapshot {
    pub cards_on_table: Vec<CardOnTable>,
    pub cards_in_deck: Vec<CardInDeck>,
    pub chips_on_table: Vec<ChipOnTable>,
    pub event_cards_on_table: Vec<ActiveEventCard>,
}

/// Ask for the next phase.
#[derive(Clone, Copy, Debug, PartialEq, Eq, Structural)]
pub struct AdvancePhase;

/// The active player changed.
#[derive(Clone, Copy, Debug, PartialEq, Eq, Structural)]
pub struct SwitchPlayer {
    pub player: usize,
}

/// Put a new chip of `chip_type` in area `area` of `player`.
#[derive(Clone, Copy, Debug, PartialEq, Eq, Structural)]
pub struct DropChip {
    pub chip_type: ChipType,
    pub area: usize,
    pub player: usize,
}

/// Move chip `entity` to area `area` of `player`.
#[derive(Clone, Copy, Debug, PartialEq, Eq, Structural)]
pub struct MoveChip {
    pub entity: u64,
    pub area: usize,
    pub player: usize,
}

/// Take chip `entity` off the table.
#[derive(Clone, Copy, Debug, PartialEq, Eq, Structural)]
pub struct DiscardChip {
    pub entity: u64,
}

/// What a resolution asks the presentation layer to do, in order.
#[derive(Clone, Copy, Debug, PartialEq, Eq, Structural)]
pub enum Intent {
    DropChip(DropChip),
    MoveChip(MoveChip),
    DiscardChip(DiscardChip),
    /// Return card `card` from the table to deck `deck_marker`.
    PlaceCardOffTable { card: u64, deck_marker: usize },
    /// Lay card `card` on slot `marker` of `player`'s side of the table.
    PlaceCardOnTable { card: u64, marker: usize, player: usize },
    /// Mark event card `card` as in force for `player`.
    DrawEventCard { card: u64, player: usize },
    AdvancePhase(AdvancePhase),
}

} // verus!
