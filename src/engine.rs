//! One resolution step of the current phase.
use vstd::prelude::*;
use crate::events::{
    DROUGHT_DURATION, draw_event_card, draw_event_intents, event_effects, retire_event_cards,
    retire_event_intents,
};
use crate::cards::CardType;
use crate::phase::TurnPhase;
use crate::resolver::{SALE_PRICE, resolve_cards, resolve_cards_spec};
use crate::state::{
    EffectType, BankError, GameState, MAX_BALANCE, credited, live_effects,
};
use crate::table::{ActiveEventCard, AdvancePhase, Intent, TableSnapshot};

verus! {

/// `a` and `b` agree on every field.
pub open spec fn same_state(a: GameState, b: GameState) -> bool {
    &&& a.turn_number == b.turn_number
    &&& a.phase == b.phase
    &&& a.player == b.player
    &&& a.num_players == b.num_players
    &&& a.bank@ == b.bank@
    &&& a.effects@ == b.effects@
}

/// Whether cards on the table are resolved in phase `p`.
pub open spec fn is_card_phase(p: TurnPhase) -> bool {
    p == TurnPhase::ApplyProductionCards || p == TurnPhase::ApplyTransportationCards || p
        == TurnPhase::ApplySalesCards
}

/// Registers the effects of the event cards in force for the active player.
fn apply_event_effects(state: &mut GameState, events: &Vec<ActiveEventCard>)
    ensures
        final(state).effects@ == old(state).effects@ + event_effects(
            events@,
            old(state).player,
            old(state).turn_number,
        ),
        final(state).players() == old(state).players(),
        final(state).turn_number == old(state).turn_number,
        final(state).phase == old(state).phase,
        final(state).player == old(state).player,
        final(state).bank@ == old(state).bank@,
{
    let player = state.player;
    let mut k: usize = 0;
    while k < events.len()
        invariant
            k <= events@.len(),
            player == old(state).player,
            state.effects@ == old(state).effects@ + event_effects(
                events@.subrange(0, k as int),
                old(state).player,
                old(state).turn_number,
            ),
            state.players() == old(state).players(),
            state.turn_number == old(state).turn_number,
            state.phase == old(state).phase,
            state.player == old(state).player,
            state.bank@ == old(state).bank@,
        decreases events@.len() - k,
    {
        let e = events[k];
        assert(events@.subrange(0, k + 1).drop_last() =~= events@.subrange(0, k as int));
        if e.player == player && e.card_type == CardType::Drought {
            state.add_effect(EffectType::Drought, DROUGHT_DURATION);
        }
        k = k + 1;
    }
    assert(events@.subrange(0, k as int) =~= events@);
}

/// Resolves the current phase for the active player against `table`.
///
/// In a card phase the player's cards are resolved in table order and the
/// sales are credited to their bank; the whole step is refused, with
/// nothing changed, if the credit would overflow the balance. Drawing the
/// event card, applying event cards and the end of the turn act as their
/// phases say. Every phase that resolves on its own ends its intents with a
/// request for the next phase.
pub fn apply_card_effects(state: &mut GameState, table: &TableSnapshot) -> (r: Result<
    Vec<Intent>,
    BankError,
>)
    requires
        old(state).wf(),
    ensures
        final(state).wf(),
        ({
            let s0 = *old(state);
            let s1 = *final(state);
            let pass = resolve_cards_spec(
                s0.phase,
                s0.player,
                s0.turn_number,
                table.chips_on_table@,
                table.cards_on_table@,
            );
            let credit = SALE_PRICE * pass.2;
            let adv = Intent::AdvancePhase(AdvancePhase);
            &&& is_card_phase(s0.phase) ==> {
                if s0.balance_of(s0.player as int) + credit > MAX_BALANCE {
                    r == Err::<Vec<Intent>, BankError>(BankError::Overflow) && same_state(s0, s1)
                } else {
                    &&& r is Ok
                    &&& r->Ok_0@ == pass.1.push(adv)
                    &&& s1.bank@ == credited(s0.bank@, s0.player as int, credit)
                    &&& s1.turn_number == s0.turn_number
                    &&& s1.phase == s0.phase
                    &&& s1.player == s0.player
                    &&& s1.num_players == s0.num_players
                    &&& s1.effects@ == s0.effects@
                }
            }
            &&& s0.phase == TurnPhase::DrawEventCard ==> r is Ok && r->Ok_0@ == draw_event_intents(
                table.cards_in_deck@,
                table.event_cards_on_table@,
                s0.player,
            ).push(adv) && same_state(s0, s1)
            &&& s0.phase == TurnPhase::End ==> r is Ok && r->Ok_0@ == (if s0.player
                == s0.num_players {
                retire_event_intents(table.event_cards_on_table@)
            } else {
                Seq::empty()
            }).push(adv) && same_state(s0, s1)
            &&& s0.phase == TurnPhase::ApplyEventCard ==> {
                &&& r is Ok
                &&& r->Ok_0@ == seq![adv]
                &&& s1.phase == TurnPhase::ApplyProductionCards
                &&& s1.turn_number == s0.turn_number
                &&& s1.player == s0.player
                &&& s1.num_players == s0.num_players
                &&& s1.bank@ == s0.bank@
                &&& s1.effects@ == live_effects(
                    s0.effects@ + event_effects(
                        table.event_cards_on_table@,
                        s0.player,
                        s0.turn_number,
                    ),
                    s0.turn_number as int,
                )
            }
            &&& (s0.phase == TurnPhase::Prepare || s0.phase == TurnPhase::PlaceCardsOnTable) ==> r
                is Ok && r->Ok_0@.len() == 0 && same_state(s0, s1)
        }),
{
    let player = state.player;
    let mut intents: Vec<Intent>;
    match state.phase {
        TurnPhase::ApplyProductionCards
        | TurnPhase::ApplyTransportationCards
        | TurnPhase::ApplySalesCards => {
            let (found, credit) = resolve_cards(
                state.phase,
                player,
                state.turn_number,
                &table.chips_on_table,
                &table.cards_on_table,
            );
            let balance = state.get_balance(player);
            if balance as u64 + credit > MAX_BALANCE as u64 {
                return Err(BankError::Overflow);
            }
            if credit > 0 {
                let credited_ok = state.increase_bank(player, credit as u16);
                assert(credited_ok is Ok);
            } else {
                assert(state.bank@ =~= credited(state.bank@, player as int, 0));
            }
            intents = found;
        },
        TurnPhase::DrawEventCard => {
            intents = draw_event_card(&table.cards_in_deck, &table.event_cards_on_table, player);
        },
        TurnPhase::End => {
            if state.player == state.num_players {
                intents = retire_event_cards(&table.event_cards_on_table);
            } else {
                intents = Vec::new();
            }
        },
        TurnPhase::ApplyEventCard => {
            apply_event_effects(state, &table.event_cards_on_table);
            state.advance();
            intents = Vec::new();
        },
        TurnPhase::Prepare | TurnPhase::PlaceCardsOnTable => {
            intents = Vec::new();
        },
    }
    if state.phase.is_automatic() {
        intents.push(Intent::AdvancePhase(AdvancePhase));
    }
    Ok(intents)
}

} // verus!
