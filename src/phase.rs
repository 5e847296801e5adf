//! The phases of a player's turn and the order in which they follow each other.
use vstd::prelude::*;

verus! {

/// The phases of one player's turn, in the order in which they are visited.
#[derive(Clone, Copy, Debug, PartialEq, Eq, Structural)]
pub enum TurnPhase {
    Prepare,
    PlaceCardsOnTable,
    DrawEventCard,
    ApplyEventCard,
    ApplyProductionCards,
    ApplyTransportationCards,
    ApplySalesCards,
    End,
}

/// The phase that follows `p` in the cycle; `End` wraps to `Prepare`.
pub open spec fn next_phase(p: TurnPhase) -> TurnPhase {
    match p {
        TurnPhase::Prepare => TurnPhase::PlaceCardsOnTable,
        TurnPhase::PlaceCardsOnTable => TurnPhase::DrawEventCard,
        TurnPhase::DrawEventCard => TurnPhase::ApplyEventCard,
        TurnPhase::ApplyEventCard => TurnPhase::ApplyProductionCards,
        TurnPhase::ApplyProductionCards => TurnPhase::ApplyTransportationCards,
        TurnPhase::ApplyTransportationCards => TurnPhase::ApplySalesCards,
        TurnPhase::ApplySalesCards => TurnPhase::End,
        TurnPhase::End => TurnPhase::Prepare,
    }
}

/// Position of a phase in the cycle, `Prepare` being 0 and `End` 7.
pub open spec fn phase_index(p: TurnPhase) -> nat {
    match p {
        TurnPhase::Prepare => 0,
        TurnPhase::PlaceCardsOnTable => 1,
        TurnPhase::DrawEventCard => 2,
        TurnPhase::ApplyEventCard => 3,
        TurnPhase::ApplyProductionCards => 4,
        TurnPhase::ApplyTransportationCards => 5,
        TurnPhase::ApplySalesCards => 6,
        TurnPhase::End => 7,
    }
}

/// Phases that resolve on their own and then ask for the next phase; the
/// others wait for the player.
pub open spec fn is_automatic_spec(p: TurnPhase) -> bool {
    !(p == TurnPhase::Prepare || p == TurnPhase::PlaceCardsOnTable)
}

impl TurnPhase {
    /// The phase that follows this one in the cycle.
    pub fn next(self) -> (r: TurnPhase)
        ensures
            r == next_phase(self),
    {
        match self {
            TurnPhase::Prepare => TurnPhase::PlaceCardsOnTable,
            TurnPhase::PlaceCardsOnTable => TurnPhase::DrawEventCard,
            TurnPhase::DrawEventCard => TurnPhase::ApplyEventCard,
            TurnPhase::ApplyEventCard => TurnPhase::ApplyProductionCards,
            TurnPhase::ApplyProductionCards => TurnPhase::ApplyTransportationCards,
            TurnPhase::ApplyTransportationCards => TurnPhase::ApplySalesCards,
            TurnPhase::ApplySalesCards => TurnPhase::End,
            TurnPhase::End => TurnPhase::Prepare,
        }
    }

    /// Whether the phase resolves without waiting for the player.
    pub fn is_automatic(self) -> (r: bool)
        ensures
            r == is_automatic_spec(self),
    {
        match self {
            TurnPhase::Prepare | TurnPhase::PlaceCardsOnTable => false,
            _ => true,
        }
    }
}

/// Advancing moves exactly one step forward around the cycle of eight phases.
pub proof fn lemma_next_phase_steps_once(p: TurnPhase)
    ensures
        phase_index(next_phase(p)) == (phase_index(p) + 1) % 8,
{
}

} // verus!
