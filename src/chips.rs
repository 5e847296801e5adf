//! Applying intents to the chips on the table, switching players and
//! playing cards from the hand.
use vstd::prelude::*;
use crate::state::GameState;
use crate::table::{CardOnTable, ChipOnTable, DiscardChip, DropChip, Intent, MoveChip, SwitchPlayer};

verus! {

/// Number of table slots that each player can fill with cards from the hand.
pub const TABLE_SLOTS: usize = 5;

/// Index of the first chip of `chips` with id `id`, or -1.
pub open spec fn find_chip(chips: Seq<ChipOnTable>, id: u64) -> int
    decreases chips.len(),
{
    if chips.len() == 0 {
        -1
    } else {
        let r = find_chip(chips.drop_last(), id);
        if r >= 0 {
            r
        } else if chips.last().id == id {
            chips.len() - 1
        } else {
            -1
        }
    }
}

proof fn lemma_find_chip(chips: Seq<ChipOnTable>, id: u64)
    ensures
        -1 <= find_chip(chips, id) < chips.len(),
        find_chip(chips, id) >= 0 ==> chips[find_chip(chips, id)].id == id,
        find_chip(chips, id) < 0 ==> forall|k: int| 0 <= k < chips.len() ==> #[trigger] chips[k].id != id,
        forall|k: int| 0 <= k < find_chip(chips, id) ==> #[trigger] chips[k].id != id,
    decreases chips.len(),
{
    if chips.len() > 0 {
        lemma_find_chip(chips.drop_last(), id);
        assert forall|k: int| 0 <= k < chips.len() - 1 implies #[trigger] chips[k] == chips.drop_last()[k] by {}
    }
}

fn find_chip_index(chips: &Vec<ChipOnTable>, id: u64) -> (r: Option<usize>)
    ensures
        match r {
            Some(i) => i as int == find_chip(chips@, id),
            None => find_chip(chips@, id) < 0,
        },
        -1 <= find_chip(chips@, id) < chips@.len(),
{
    proof {
        lemma_find_chip(chips@, id);
    }
    let mut i: usize = 0;
    while i < chips.len()
        invariant
            i <= chips@.len(),
            forall|k: int| 0 <= k < i ==> #[trigger] chips@[k].id != id,
            -1 <= find_chip(chips@, id) < chips@.len(),
            find_chip(chips@, id) >= 0 ==> chips@[find_chip(chips@, id)].id == id,
            find_chip(chips@, id) < 0 ==> forall|k: int| 0 <= k < chips@.len() ==> #[trigger] chips@[k].id != id,
            forall|k: int| 0 <= k < find_chip(chips@, id) ==> #[trigger] chips@[k].id != id,
        decreases chips@.len() - i,
    {
        if chips[i].id == id {
            return Some(i);
        }
        i = i + 1;
    }
    None
}

/// Puts the chip that `event` asks for on the table, under id `id` and at
/// `sort_key`, as having entered its area at `turn` and never the sales
/// area.
pub fn handle_drop_chip(
    chips: &mut Vec<ChipOnTable>,
    event: &DropChip,
    id: u64,
    turn: usize,
    sort_key: i64,
)
    ensures
        final(chips)@ == old(chips)@.push(
            ChipOnTable {
                id,
                chip_type: event.chip_type,
                area: event.area,
                player: event.player,
                turn_activation_1: turn,
                turn_activation_2: 0,
                sort_key,
            },
        ),
{
    chips.push(
        ChipOnTable {
            id,
            chip_type: event.chip_type,
            area: event.area,
            player: event.player,
            turn_activation_1: turn,
            turn_activation_2: 0,
            sort_key,
        },
    );
}

/// Records that the chip of `event` entered the sales area at `turn`. An id
/// that is no longer on the table is ignored.
pub fn handle_move_chip(chips: &mut Vec<ChipOnTable>, event: &MoveChip, turn: usize)
    ensures
        find_chip(old(chips)@, event.entity) < 0 ==> final(chips)@ == old(chips)@,
        find_chip(old(chips)@, event.entity) >= 0 ==> final(chips)@ == old(chips)@.update(
            find_chip(old(chips)@, event.entity),
            ChipOnTable {
                turn_activation_2: turn,
                ..old(chips)@[find_chip(old(chips)@, event.entity)]
            },
        ),
{
    match find_chip_index(chips, event.entity) {
        None => {},
        Some(i) => {
            let c = chips[i];
            chips.set(i, ChipOnTable { turn_activation_2: turn, ..c });
        },
    }
}

/// Reassigns the chip of `event` to the area and player that it names. An
/// id that is no longer on the table is ignored.
pub fn handle_move_chip_to_sales(chips: &mut Vec<ChipOnTable>, event: &MoveChip)
    ensures
        find_chip(old(chips)@, event.entity) < 0 ==> final(chips)@ == old(chips)@,
        find_chip(old(chips)@, event.entity) >= 0 ==> final(chips)@ == old(chips)@.update(
            find_chip(old(chips)@, event.entity),
            ChipOnTable {
                area: event.area,
                player: event.player,
                ..old(chips)@[find_chip(old(chips)@, event.entity)]
            },
        ),
{
    match find_chip_index(chips, event.entity) {
        None => {},
        Some(i) => {
            let c = chips[i];
            chips.set(i, ChipOnTable { area: event.area, player: event.player, ..c });
        },
    }
}

/// Takes the chip of `event` off the table. An id that is no longer on the
/// table is ignored.
pub fn discard_chip(chips: &mut Vec<ChipOnTable>, event: &DiscardChip)
    ensures
        find_chip(old(chips)@, event.entity) < 0 ==> final(chips)@ == old(chips)@,
        find_chip(old(chips)@, event.entity) >= 0 ==> final(chips)@ == old(chips)@.remove(
            find_chip(old(chips)@, event.entity),
        ),
{
    match find_chip_index(chips, event.entity) {
        None => {},
        Some(i) => {
            chips.remove(i);
        },
    }
}

/// Makes the player that `event` names the active player.
pub fn handle_switch_player(state: &mut GameState, event: &SwitchPlayer)
    requires
        old(state).wf(),
        old(state).valid_player(event.player as int),
    ensures
        final(state).wf(),
        final(state).player == event.player,
        final(state).players() == old(state).players(),
        final(state).turn_number == old(state).turn_number,
        final(state).phase == old(state).phase,
        final(state).bank@ == old(state).bank@,
        final(state).effects@ == old(state).effects@,
{
    state.switch_player(event.player);
}

/// Largest slot that `player` has filled on the table, 0 if none, among
/// the first `n` cards.
pub open spec fn last_slot(cards: Seq<CardOnTable>, player: usize, n: int) -> int
    decreases n,
{
    if n <= 0 {
        0
    } else {
        let m = last_slot(cards, player, n - 1);
        if cards[n - 1].player == player && cards[n - 1].marker > m {
            cards[n - 1].marker as int
        } else {
            m
        }
    }
}

/// Plays a card of `price` from the hand of `hand_player` for the active
/// player: refused (`None`, nothing changed) when the price exceeds the
/// active player's balance; otherwise the price is paid and the card goes
/// to the slot after the last one that `hand_player` has filled, unless that
/// is past `TABLE_SLOTS` (`None`, the price stays paid).
pub fn handle_card_press(
    state: &mut GameState,
    card: u64,
    price: u16,
    hand_player: usize,
    cards_on_table: &Vec<CardOnTable>,
) -> (r: Option<Intent>)
    requires
        old(state).wf(),
    ensures
        final(state).wf(),
        final(state).players() == old(state).players(),
        final(state).turn_number == old(state).turn_number,
        final(state).phase == old(state).phase,
        final(state).player == old(state).player,
        final(state).effects@ == old(state).effects@,
        price > old(state).balance_of(old(state).player as int) ==> r is None
            && final(state).bank@ == old(state).bank@,
        price <= old(state).balance_of(old(state).player as int) ==> {
            let slot = last_slot(cards_on_table@, hand_player, cards_on_table@.len() as int) + 1;
            &&& final(state).bank@ == crate::state::debited(
                old(state).bank@,
                old(state).player as int,
                price as int,
            )
            &&& r == if slot > TABLE_SLOTS {
                None
            } else {
                Some(Intent::PlaceCardOnTable { card, marker: slot as usize, player: hand_player })
            }
        },
{
    let player = state.player;
    if price > state.get_balance(player) {
        return None;
    }
    let paid = state.draw_bank(player, price);
    assert(paid is Ok);
    let mut last: usize = 0;
    let mut i: usize = 0;
    while i < cards_on_table.len()
        invariant
            i <= cards_on_table@.len(),
            last as int == last_slot(cards_on_table@, hand_player, i as int),
        decreases cards_on_table@.len() - i,
    {
        let c = cards_on_table[i];
        if c.player == hand_player && c.marker > last {
            last = c.marker;
        }
        i = i + 1;
    }
    if last >= TABLE_SLOTS {
        return None;
    }
    Some(Intent::PlaceCardOnTable { card, marker: last + 1, player: hand_player })
}

} // verus!
