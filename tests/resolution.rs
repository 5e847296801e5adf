use narco_board::cards::{CardType, ChipType};
use narco_board::engine::apply_card_effects;
use narco_board::phase::TurnPhase;
use narco_board::picks::{interleave_picks, pick_order, take_chips};
use narco_board::resolver::resolve_cards;
use narco_board::state::{BankError, GameState};
use narco_board::table::{
    ActiveEventCard, AdvancePhase, CardInDeck, CardOnTable, ChipOnTable, DiscardChip, DropChip,
    Intent, MoveChip, TableSnapshot,
};

fn chip(id: u64, chip_type: ChipType, area: usize, player: usize, t1: usize, t2: usize, key: i64) -> ChipOnTable {
    ChipOnTable {
        id,
        chip_type,
        area,
        player,
        turn_activation_1: t1,
        turn_activation_2: t2,
        sort_key: key,
    }
}

fn card(id: u64, card_type: CardType, player: usize, marker: usize) -> CardOnTable {
    CardOnTable { id, card_type, player, marker }
}

fn snapshot(cards: Vec<CardOnTable>, chips: Vec<ChipOnTable>) -> TableSnapshot {
    TableSnapshot {
        cards_on_table: cards,
        cards_in_deck: vec![],
        chips_on_table: chips,
        event_cards_on_table: vec![],
    }
}

fn state_at(phase: TurnPhase, turn: usize) -> GameState {
    let mut s = GameState::new(2);
    s.phase = phase;
    s.turn_number = turn;
    s
}

#[test]
fn transport_truck_three_cannabis_one_cocaine() {
    // three cannabis and one cocaine chip, all eligible; a truck moves two
    let chips = vec![
        chip(10, ChipType::Cannabis, 1, 1, 1, 0, 30),
        chip(11, ChipType::Cannabis, 1, 1, 1, 0, 10),
        chip(12, ChipType::Cocaine, 1, 1, 1, 0, 50),
        chip(13, ChipType::Cannabis, 1, 1, 1, 0, 20),
    ];
    let mut s = state_at(TurnPhase::ApplyTransportationCards, 2);
    let t = snapshot(vec![card(1, CardType::Truck, 1, 1)], chips);
    let r = apply_card_effects(&mut s, &t).unwrap();
    assert_eq!(
        r,
        vec![
            Intent::MoveChip(MoveChip { entity: 11, area: 2, player: 1 }),
            Intent::MoveChip(MoveChip { entity: 12, area: 2, player: 1 }),
            Intent::PlaceCardOffTable { card: 1, deck_marker: 1 },
            Intent::AdvancePhase(AdvancePhase),
        ]
    );
    assert_eq!(s.bank, vec![0, 0]);
}

#[test]
fn transport_count_is_min_of_chips_and_capacity() {
    for m in 0..4u64 {
        for n in 0..4u64 {
            for (card_type, cap) in [(CardType::Truck, 2u64), (CardType::Train, 5u64)] {
                let mut chips = vec![];
                for i in 0..m {
                    chips.push(chip(100 + i, ChipType::Cannabis, 1, 1, 1, 0, i as i64));
                }
                for i in 0..n {
                    chips.push(chip(200 + i, ChipType::Cocaine, 1, 1, 1, 0, i as i64));
                }
                let (intents, credit) = resolve_cards(
                    TurnPhase::ApplyTransportationCards,
                    1,
                    2,
                    &chips,
                    &vec![card(1, card_type, 1, 1)],
                );
                let moved: Vec<u64> = intents
                    .iter()
                    .filter_map(|i| match i {
                        Intent::MoveChip(mc) => Some(mc.entity),
                        _ => None,
                    })
                    .collect();
                assert_eq!(moved.len() as u64, std::cmp::min(m + n, cap));
                assert_eq!(credit, 0);
                // interleaved: cannabis first, then cocaine, while both last
                let common = std::cmp::min(m, n) as usize;
                for (k, id) in moved.iter().enumerate() {
                    if k < 2 * common {
                        let expected = if k % 2 == 0 { 100 + (k / 2) as u64 } else { 200 + (k / 2) as u64 };
                        assert_eq!(*id, expected);
                    }
                }
            }
        }
    }
}

#[test]
fn transport_skips_chips_dropped_this_turn() {
    let chips = vec![
        chip(1, ChipType::Cannabis, 1, 1, 3, 0, 0),
        chip(2, ChipType::Cocaine, 1, 2, 1, 0, 0),
        chip(3, ChipType::Cocaine, 2, 1, 1, 2, 0),
        chip(4, ChipType::Cocaine, 1, 1, 2, 0, 0),
    ];
    let (intents, _) = resolve_cards(
        TurnPhase::ApplyTransportationCards,
        1,
        3,
        &chips,
        &vec![card(7, CardType::Train, 1, 1)],
    );
    assert_eq!(
        intents,
        vec![
            Intent::MoveChip(MoveChip { entity: 4, area: 2, player: 1 }),
            Intent::PlaceCardOffTable { card: 7, deck_marker: 1 },
        ]
    );
}

#[test]
fn two_transport_cards_do_not_move_a_chip_twice() {
    let chips = vec![
        chip(1, ChipType::Cannabis, 1, 1, 1, 0, 0),
        chip(2, ChipType::Cannabis, 1, 1, 1, 0, 1),
        chip(3, ChipType::Cannabis, 1, 1, 1, 0, 2),
    ];
    let (intents, _) = resolve_cards(
        TurnPhase::ApplyTransportationCards,
        1,
        2,
        &chips,
        &vec![card(8, CardType::Truck, 1, 1), card(9, CardType::Truck, 1, 2)],
    );
    assert_eq!(
        intents,
        vec![
            Intent::MoveChip(MoveChip { entity: 1, area: 2, player: 1 }),
            Intent::MoveChip(MoveChip { entity: 2, area: 2, player: 1 }),
            Intent::PlaceCardOffTable { card: 8, deck_marker: 1 },
            Intent::MoveChip(MoveChip { entity: 3, area: 2, player: 1 }),
            Intent::PlaceCardOffTable { card: 9, deck_marker: 1 },
        ]
    );
}

#[test]
fn export_sells_five_chips_for_five_hundred() {
    let mut chips = vec![];
    for i in 0..4u64 {
        chips.push(chip(i, ChipType::Cannabis, 2, 1, 1, 2, i as i64));
        chips.push(chip(10 + i, ChipType::Cocaine, 2, 1, 1, 2, i as i64));
    }
    let mut s = state_at(TurnPhase::ApplySalesCards, 3);
    s.increase_bank(1, 40).unwrap();
    let t = snapshot(vec![card(5, CardType::Export, 1, 1)], chips);
    let r = apply_card_effects(&mut s, &t).unwrap();
    // descending sort key: highest first
    assert_eq!(
        r,
        vec![
            Intent::DiscardChip(DiscardChip { entity: 3 }),
            Intent::DiscardChip(DiscardChip { entity: 13 }),
            Intent::DiscardChip(DiscardChip { entity: 2 }),
            Intent::DiscardChip(DiscardChip { entity: 12 }),
            Intent::DiscardChip(DiscardChip { entity: 1 }),
            Intent::PlaceCardOffTable { card: 5, deck_marker: 1 },
            Intent::AdvancePhase(AdvancePhase),
        ]
    );
    assert_eq!(s.get_balance(1), 540);
    assert_eq!(s.get_balance(2), 0);
}

#[test]
fn local_market_sells_one_chip() {
    let chips = vec![
        chip(1, ChipType::Cocaine, 2, 1, 1, 2, 5),
        chip(2, ChipType::Cocaine, 2, 1, 1, 2, 9),
    ];
    let mut s = state_at(TurnPhase::ApplySalesCards, 3);
    let t = snapshot(vec![card(5, CardType::LocalMarket, 1, 1)], chips);
    let r = apply_card_effects(&mut s, &t).unwrap();
    assert_eq!(r[0], Intent::DiscardChip(DiscardChip { entity: 2 }));
    assert_eq!(r.len(), 3);
    assert_eq!(s.get_balance(1), 100);
}

#[test]
fn sales_skip_chips_that_entered_sales_this_turn_or_never() {
    let chips = vec![
        chip(1, ChipType::Cocaine, 2, 1, 1, 3, 0),
        chip(2, ChipType::Cocaine, 2, 1, 1, 0, 0),
        chip(3, ChipType::Cannabis, 1, 1, 1, 0, 0),
    ];
    let mut s = state_at(TurnPhase::ApplySalesCards, 3);
    let t = snapshot(vec![card(5, CardType::Export, 1, 1)], chips);
    let r = apply_card_effects(&mut s, &t).unwrap();
    assert_eq!(
        r,
        vec![
            Intent::PlaceCardOffTable { card: 5, deck_marker: 1 },
            Intent::AdvancePhase(AdvancePhase)
        ]
    );
    assert_eq!(s.get_balance(1), 0);
}

#[test]
fn sale_that_would_overflow_the_bank_is_refused() {
    let chips = vec![chip(1, ChipType::Cocaine, 2, 1, 1, 2, 0)];
    let mut s = state_at(TurnPhase::ApplySalesCards, 3);
    s.increase_bank(1, 65500).unwrap();
    let t = snapshot(vec![card(5, CardType::Export, 1, 1)], chips);
    assert_eq!(apply_card_effects(&mut s, &t), Err(BankError::Overflow));
    assert_eq!(s.get_balance(1), 65500);
    assert_eq!(s.phase, TurnPhase::ApplySalesCards);
}

#[test]
fn production_cards_drop_chips_in_order() {
    let mut s = state_at(TurnPhase::ApplyProductionCards, 1);
    let t = snapshot(
        vec![
            card(1, CardType::Cannabis, 1, 1),
            card(2, CardType::Truck, 1, 2),
            card(3, CardType::Cocaine, 2, 1),
            card(4, CardType::Cocaine, 1, 3),
        ],
        vec![],
    );
    let r = apply_card_effects(&mut s, &t).unwrap();
    assert_eq!(
        r,
        vec![
            Intent::DropChip(DropChip { chip_type: ChipType::Cannabis, area: 1, player: 1 }),
            Intent::PlaceCardOffTable { card: 1, deck_marker: 1 },
            Intent::DropChip(DropChip { chip_type: ChipType::Cocaine, area: 1, player: 1 }),
            Intent::PlaceCardOffTable { card: 4, deck_marker: 1 },
            Intent::AdvancePhase(AdvancePhase),
        ]
    );
}

#[test]
fn waiting_phases_resolve_nothing() {
    for phase in [TurnPhase::Prepare, TurnPhase::PlaceCardsOnTable] {
        let mut s = state_at(phase, 1);
        let t = snapshot(vec![card(1, CardType::Cannabis, 1, 1)], vec![]);
        assert_eq!(apply_card_effects(&mut s, &t), Ok(vec![]));
        assert_eq!(s.phase, phase);
    }
}

#[test]
fn draw_event_card_takes_the_top_card() {
    let mut s = state_at(TurnPhase::DrawEventCard, 1);
    let t = TableSnapshot {
        cards_on_table: vec![],
        cards_in_deck: vec![
            CardInDeck { id: 1, card_type: CardType::Drought, deck_marker: 2, sort_key: 3 },
            CardInDeck { id: 2, card_type: CardType::Truck, deck_marker: 1, sort_key: 9 },
            CardInDeck { id: 3, card_type: CardType::BigDeal, deck_marker: 2, sort_key: 7 },
            CardInDeck { id: 4, card_type: CardType::Drought, deck_marker: 2, sort_key: 7 },
        ],
        chips_on_table: vec![],
        event_cards_on_table: vec![ActiveEventCard { id: 9, card_type: CardType::Drought, player: 2 }],
    };
    let r = apply_card_effects(&mut s, &t).unwrap();
    assert_eq!(
        r,
        vec![
            Intent::DrawEventCard { card: 3, player: 1 },
            Intent::PlaceCardOnTable { card: 3, marker: 6, player: 1 },
            Intent::AdvancePhase(AdvancePhase),
        ]
    );
    s.player = 2;
    let r = apply_card_effects(&mut s, &t).unwrap();
    assert_eq!(r, vec![Intent::AdvancePhase(AdvancePhase)]);
}

#[test]
fn applying_a_drought_registers_an_effect_and_advances() {
    let mut s = state_at(TurnPhase::ApplyEventCard, 2);
    let t = TableSnapshot {
        cards_on_table: vec![],
        cards_in_deck: vec![],
        chips_on_table: vec![],
        event_cards_on_table: vec![
            ActiveEventCard { id: 9, card_type: CardType::Drought, player: 1 },
            ActiveEventCard { id: 8, card_type: CardType::BigDeal, player: 1 },
            ActiveEventCard { id: 7, card_type: CardType::Drought, player: 2 },
        ],
    };
    let r = apply_card_effects(&mut s, &t).unwrap();
    assert_eq!(r, vec![Intent::AdvancePhase(AdvancePhase)]);
    assert_eq!(s.phase, TurnPhase::ApplyProductionCards);
    let effects = s.get_effects(1);
    assert_eq!(effects.len(), 1);
    assert_eq!(effects[0].turn_number, 2);
    assert_eq!(effects[0].duration, 3);
    assert!(s.get_effects(2).is_empty());
}

#[test]
fn end_of_rotation_returns_event_cards() {
    let t = TableSnapshot {
        cards_on_table: vec![],
        cards_in_deck: vec![],
        chips_on_table: vec![],
        event_cards_on_table: vec![
            ActiveEventCard { id: 9, card_type: CardType::Drought, player: 1 },
            ActiveEventCard { id: 7, card_type: CardType::BigDeal, player: 2 },
        ],
    };
    let mut s = state_at(TurnPhase::End, 1);
    assert_eq!(apply_card_effects(&mut s, &t), Ok(vec![Intent::AdvancePhase(AdvancePhase)]));
    s.player = 2;
    assert_eq!(
        apply_card_effects(&mut s, &t),
        Ok(vec![
            Intent::PlaceCardOffTable { card: 9, deck_marker: 2 },
            Intent::PlaceCardOffTable { card: 7, deck_marker: 2 },
            Intent::AdvancePhase(AdvancePhase),
        ])
    );
}

#[test]
fn pick_order_is_stable_on_equal_keys() {
    let chips = vec![
        chip(1, ChipType::Cannabis, 1, 1, 1, 0, 5),
        chip(2, ChipType::Cannabis, 1, 1, 1, 0, 2),
        chip(3, ChipType::Cannabis, 1, 1, 1, 0, 5),
        chip(4, ChipType::Cocaine, 1, 1, 1, 0, 0),
        chip(5, ChipType::Cannabis, 1, 1, 1, 0, 2),
    ];
    let taken = vec![false; 5];
    assert_eq!(pick_order(&chips, &taken, 1, 2, ChipType::Cannabis, false), vec![1, 4, 0, 2]);
    let sales: Vec<ChipOnTable> = chips
        .iter()
        .map(|c| ChipOnTable { area: 2, turn_activation_2: 1, ..*c })
        .collect();
    assert_eq!(pick_order(&sales, &taken, 1, 2, ChipType::Cannabis, true), vec![0, 2, 1, 4]);
}

#[test]
fn interleave_takes_turns_then_drains() {
    assert_eq!(interleave_picks(&vec![1, 2, 3], &vec![7]), vec![1, 7, 2, 3]);
    assert_eq!(interleave_picks(&vec![1], &vec![7, 8, 9]), vec![1, 7, 8, 9]);
    assert_eq!(interleave_picks(&vec![], &vec![7, 8]), vec![7, 8]);
    assert_eq!(interleave_picks(&vec![1, 2], &vec![7, 8]), vec![1, 7, 2, 8]);
}

#[test]
fn take_chips_marks_what_it_takes() {
    let chips = vec![
        chip(1, ChipType::Cannabis, 1, 1, 1, 0, 0),
        chip(2, ChipType::Cocaine, 1, 1, 1, 0, 0),
        chip(3, ChipType::Cocaine, 1, 1, 1, 0, 1),
    ];
    let mut taken = vec![false, false, false];
    assert_eq!(take_chips(&chips, &mut taken, 1, 2, false, 25), vec![0, 1]);
    assert_eq!(taken, vec![true, true, false]);
    assert_eq!(take_chips(&chips, &mut taken, 1, 2, false, 50), vec![2]);
    assert_eq!(taken, vec![true, true, true]);
    assert_eq!(take_chips(&chips, &mut taken, 1, 2, false, 50), Vec::<usize>::new());
}
