//! Rules engine of a tabletop card-and-chip strategy game: the turn/phase
//! state machine, the bank ledger, timed effects and the resolution of the
//! cards that a player commits to the table.
pub mod cards;
pub mod phase;
pub mod state;
pub mod table;
pub mod picks;
pub mod resolver;
pub mod events;
pub mod engine;
pub mod driver;
pub mod chips;
pub mod laws;
