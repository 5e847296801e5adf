//! Resolution of the cards that the active player has on the table.
use vstd::prelude::*;
use crate::cards::{produced_chip_spec, sales_capacity_spec, transport_capacity_spec};
use crate::phase::TurnPhase;
use crate::picks::{chips_taken, mark_taken, take_chips};
use crate::table::{
    CardOnTable, ChipOnTable, DiscardChip, DropChip, Intent, MoveChip, PLAYING_DECK,
    PRODUCTION_AREA, SALES_AREA,
};

verus! {

/// What the bank pays for each chip sold.
pub const SALE_PRICE: u16 = 100;

/// Credits at or above this bound overflow any balance; running credit
/// totals are kept up to it.
pub const CREDIT_CEILING: u64 = 65536;

/// Progress of a pass over the cards on the table: chips already taken,
/// intents so far, chips sold so far.
pub type PassState = (Seq<bool>, Seq<Intent>, nat);

/// Intents that move the chips `picks` to `player`'s sales area.
pub open spec fn move_intents(chips: Seq<ChipOnTable>, picks: Seq<usize>, player: usize) -> Seq<
    Intent,
> {
    Seq::new(
        picks.len(),
        |k: int|
            Intent::MoveChip(
                MoveChip { entity: chips[picks[k] as int].id, area: SALES_AREA, player },
            ),
    )
}

/// Intents that take the chips `picks` off the table.
pub open spec fn discard_intents(chips: Seq<ChipOnTable>, picks: Seq<usize>) -> Seq<Intent> {
    Seq::new(
        picks.len(),
        |k: int| Intent::DiscardChip(DiscardChip { entity: chips[picks[k] as int].id }),
    )
}

/// Intent that returns a spent card to the playing deck.
pub open spec fn retire(card: CardOnTable) -> Intent {
    Intent::PlaceCardOffTable { card: card.id, deck_marker: PLAYING_DECK }
}

/// The pass after card `card` is resolved in `phase` for `player` at
/// `turn`. Cards of other players, and cards that do nothing in this phase,
/// change nothing.
pub open spec fn card_step(
    phase: TurnPhase,
    player: usize,
    turn: usize,
    chips: Seq<ChipOnTable>,
    acc: PassState,
    card: CardOnTable,
) -> PassState {
    let (taken, intents, sold) = acc;
    if card.player != player {
        acc
    } else {
        match phase {
            TurnPhase::ApplyProductionCards => match produced_chip_spec(card.card_type) {
                Some(ty) => (
                    taken,
                    intents.push(
                        Intent::DropChip(DropChip { chip_type: ty, area: PRODUCTION_AREA, player }),
                    ).push(retire(card)),
                    sold,
                ),
                None => acc,
            },
            TurnPhase::ApplyTransportationCards => match transport_capacity_spec(card.card_type) {
                Some(cap) => {
                    let picks = chips_taken(chips, taken, player as int, turn as int, false, cap as int);
                    (
                        mark_taken(taken, picks),
                        intents + move_intents(chips, picks, player) + seq![retire(card)],
                        sold,
                    )
                },
                None => acc,
            },
            TurnPhase::ApplySalesCards => match sales_capacity_spec(card.card_type) {
                Some(cap) => {
                    let picks = chips_taken(chips, taken, player as int, turn as int, true, cap as int);
                    (
                        mark_taken(taken, picks),
                        intents + discard_intents(chips, picks) + seq![retire(card)],
                        sold + picks.len(),
                    )
                },
                None => acc,
            },
            _ => acc,
        }
    }
}

/// The pass over `cards`, in table order, from a table where no chip is
/// taken yet.
pub open spec fn resolve_cards_spec(
    phase: TurnPhase,
    player: usize,
    turn: usize,
    chips: Seq<ChipOnTable>,
    cards: Seq<CardOnTable>,
) -> PassState
    decreases cards.len(),
{
    if cards.len() == 0 {
        (Seq::new(chips.len(), |i: int| false), Seq::empty(), 0)
    } else {
        card_step(
            phase,
            player,
            turn,
            chips,
            resolve_cards_spec(phase, player, turn, chips, cards.drop_last()),
            cards.last(),
        )
    }
}

/// `x` capped at `CREDIT_CEILING`.
pub open spec fn capped(x: int) -> int {
    if x < CREDIT_CEILING {
        x
    } else {
        CREDIT_CEILING as int
    }
}


/// Resolves the cards that `player` has on the table in a card phase
/// (production, transportation or sales) at `turn`. Returns the intents, in
/// order, and the credit that the sales earn, capped at `CREDIT_CEILING`.
pub fn resolve_cards(
    phase: TurnPhase,
    player: usize,
    turn: usize,
    chips: &Vec<ChipOnTable>,
    cards: &Vec<CardOnTable>,
) -> (r: (Vec<Intent>, u64))
    ensures
        r.0@ == resolve_cards_spec(phase, player, turn, chips@, cards@).1,
        r.1 == capped(SALE_PRICE * resolve_cards_spec(phase, player, turn, chips@, cards@).2),
{
    let mut taken: Vec<bool> = Vec::new();
    let mut j: usize = 0;
    while j < chips.len()
        invariant
            j <= chips@.len(),
            taken@ =~= Seq::new(j as nat, |i: int| false),
        decreases chips@.len() - j,
    {
        taken.push(false);
        j = j + 1;
    }
    let mut intents: Vec<Intent> = Vec::new();
    let mut credit: u64 = 0;
    let ghost mut sold: nat = 0;
    let mut i: usize = 0;
    while i < cards.len()
        invariant
            i <= cards@.len(),
            (taken@, intents@, sold) == resolve_cards_spec(
                phase,
                player,
                turn,
                chips@,
                cards@.subrange(0, i as int),
            ),
            taken@.len() == chips@.len(),
            credit == capped(SALE_PRICE * sold),
        decreases cards@.len() - i,
    {
        let card = cards[i];
        assert(cards@.subrange(0, i + 1).drop_last() =~= cards@.subrange(0, i as int));
        assert(cards@.subrange(0, i + 1).last() == card);
        if card.player == player {
            match phase {
                TurnPhase::ApplyProductionCards => {
                    match card.card_type.produced_chip() {
                        Some(ty) => {
                            intents.push(
                                Intent::DropChip(
                                    DropChip { chip_type: ty, area: PRODUCTION_AREA, player },
                                ),
                            );
                            intents.push(
                                Intent::PlaceCardOffTable { card: card.id, deck_marker: PLAYING_DECK },
                            );
                        },
                        None => {},
                    }
                },
                TurnPhase::ApplyTransportationCards => {
                    match card.card_type.transport_capacity() {
                        Some(cap) => {
                            let ghost base = intents@;
                            let picks = take_chips(chips, &mut taken, player, turn, false, cap);
                            let mut k: usize = 0;
                            while k < picks.len()
                                invariant
                                    k <= picks@.len(),
                                    forall|m: int|
                                        0 <= m < picks@.len() ==> #[trigger] picks@[m]
                                            < chips@.len(),
                                    intents@ =~= base + move_intents(
                                        chips@,
                                        picks@.subrange(0, k as int),
                                        player,
                                    ),
                                decreases picks@.len() - k,
                            {
                                intents.push(
                                    Intent::MoveChip(
                                        MoveChip {
                                            entity: chips[picks[k]].id,
                                            area: SALES_AREA,
                                            player,
                                        },
                                    ),
                                );
                                k = k + 1;
                            }
                            assert(picks@.subrange(0, k as int) =~= picks@);
                            intents.push(
                                Intent::PlaceCardOffTable { card: card.id, deck_marker: PLAYING_DECK },
                            );
                        },
                        None => {},
                    }
                },
                TurnPhase::ApplySalesCards => {
                    match card.card_type.sales_capacity() {
                        Some(cap) => {
                            let ghost base = intents@;
                            let picks = take_chips(chips, &mut taken, player, turn, true, cap);
                            let mut k: usize = 0;
                            while k < picks.len()
                                invariant
                                    k <= picks@.len(),
                                    forall|m: int|
                                        0 <= m < picks@.len() ==> #[trigger] picks@[m]
                                            < chips@.len(),
                                    intents@ =~= base + discard_intents(
                                        chips@,
                                        picks@.subrange(0, k as int),
                                    ),
                                decreases picks@.len() - k,
                            {
                                intents.push(
                                    Intent::DiscardChip(DiscardChip { entity: chips[picks[k]].id }),
                                );
                                k = k + 1;
                            }
                            assert(picks@.subrange(0, k as int) =~= picks@);
                            intents.push(
                                Intent::PlaceCardOffTable { card: card.id, deck_marker: PLAYING_DECK },
                            );
                            let earned: u64 = (picks.len() as u64) * (SALE_PRICE as u64);
                            credit = if credit + earned < CREDIT_CEILING {
                                credit + earned
                            } else {
                                CREDIT_CEILING
                            };
                            proof {
                                sold = sold + picks@.len();
                            }
                        },
                        None => {},
                    }
                },
                _ => {},
            }
        }
        i = i + 1;
    }
    assert(cards@.subrange(0, i as int) =~= cards@);
    (intents, credit)
}

} // verus!
