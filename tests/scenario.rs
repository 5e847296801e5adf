use narco_board::cards::{CardType, ChipType};
use narco_board::chips::{handle_card_press, handle_drop_chip};
use narco_board::driver::{handle_next_phase, PhaseTimer};
use narco_board::engine::apply_card_effects;
use narco_board::phase::TurnPhase;
use narco_board::state::GameState;
use narco_board::table::{AdvancePhase, CardOnTable, DropChip, Intent, MoveChip, TableSnapshot};

#[test]
fn two_players_first_production_turn() {
    let mut s = GameState::new(2);
    let mut timer = PhaseTimer::new(300);
    let mut table = TableSnapshot {
        cards_on_table: vec![],
        cards_in_deck: vec![],
        chips_on_table: vec![],
        event_cards_on_table: vec![],
    };
    // Prepare -> PlaceCardsOnTable
    handle_next_phase(&mut s, &mut timer, 300, 1);
    assert_eq!(s.phase, TurnPhase::PlaceCardsOnTable);
    // player 1 plays a cannabis card
    let placed = handle_card_press(&mut s, 41, 0, 1, &table.cards_on_table);
    assert_eq!(placed, Some(Intent::PlaceCardOnTable { card: 41, marker: 1, player: 1 }));
    table.cards_on_table.push(CardOnTable { id: 41, card_type: CardType::Cannabis, player: 1, marker: 1 });
    handle_next_phase(&mut s, &mut timer, 300, 1);
    assert_eq!(s.phase, TurnPhase::DrawEventCard);
    assert_eq!(apply_card_effects(&mut s, &table), Ok(vec![Intent::AdvancePhase(AdvancePhase)]));
    handle_next_phase(&mut s, &mut timer, 300, 1);
    assert_eq!(s.phase, TurnPhase::ApplyEventCard);
    assert_eq!(apply_card_effects(&mut s, &table), Ok(vec![Intent::AdvancePhase(AdvancePhase)]));
    assert_eq!(s.phase, TurnPhase::ApplyProductionCards);

    let intents = apply_card_effects(&mut s, &table).unwrap();
    let drops: Vec<&Intent> = intents.iter().filter(|i| matches!(i, Intent::DropChip(_))).collect();
    assert_eq!(drops.len(), 1);
    let drop = DropChip { chip_type: ChipType::Cannabis, area: 1, player: 1 };
    assert_eq!(*drops[0], Intent::DropChip(drop));
    assert_eq!(s.bank, vec![0, 0]);
    handle_drop_chip(&mut table.chips_on_table, &drop, 500, s.turn_number, 0);
    table.cards_on_table.clear();

    handle_next_phase(&mut s, &mut timer, 300, 1);
    assert_eq!(s.phase, TurnPhase::ApplyTransportationCards);
    let intents = apply_card_effects(&mut s, &table).unwrap();
    assert!(!intents.iter().any(|i| matches!(i, Intent::MoveChip(_))));
    // even a truck finds nothing to move: the chip was dropped this turn
    table.cards_on_table.push(CardOnTable { id: 42, card_type: CardType::Truck, player: 1, marker: 2 });
    let intents = apply_card_effects(&mut s, &table).unwrap();
    assert!(!intents.iter().any(|i| matches!(i, Intent::MoveChip(_))));
    assert_eq!(s.bank, vec![0, 0]);

    // a turn later the same chip can be moved
    s.turn_number = 2;
    let intents = apply_card_effects(&mut s, &table).unwrap();
    assert_eq!(intents[0], Intent::MoveChip(MoveChip { entity: 500, area: 2, player: 1 }));
}
