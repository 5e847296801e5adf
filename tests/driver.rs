use narco_board::cards::ChipType;
use narco_board::driver::{handle_next_phase, PhaseSignal, PhaseTimer, PHASE_DWELL_MS};
use narco_board::phase::TurnPhase;
use narco_board::state::GameState;
use narco_board::table::SwitchPlayer;

#[test]
fn requests_within_the_dwell_make_one_transition() {
    let mut s = GameState::new(2);
    let mut timer = PhaseTimer::new(PHASE_DWELL_MS);
    // the dwell has not passed yet
    assert!(handle_next_phase(&mut s, &mut timer, 0, 1).is_empty());
    assert_eq!(s.phase, TurnPhase::Prepare);
    // two requests in one frame: one transition
    handle_next_phase(&mut s, &mut timer, 300, 2);
    assert_eq!(s.phase, TurnPhase::PlaceCardsOnTable);
    // another request inside the dwell window is dropped
    handle_next_phase(&mut s, &mut timer, 100, 1);
    assert_eq!(s.phase, TurnPhase::PlaceCardsOnTable);
    // once the window has passed the next request goes through
    let signals = handle_next_phase(&mut s, &mut timer, 250, 1);
    assert_eq!(s.phase, TurnPhase::DrawEventCard);
    assert_eq!(signals, vec![PhaseSignal::AlignCardsInHand { player: 1 }]);
    assert_eq!(timer.elapsed, 0);
}

#[test]
fn frames_without_requests_only_tick() {
    let mut s = GameState::new(2);
    let mut timer = PhaseTimer::new(300);
    handle_next_phase(&mut s, &mut timer, 120, 0);
    assert_eq!(timer.elapsed, 120);
    handle_next_phase(&mut s, &mut timer, 500, 0);
    assert_eq!(timer.elapsed, 300);
    assert!(timer.finished());
    assert_eq!(s.phase, TurnPhase::Prepare);
}

#[test]
fn leaving_end_tidies_chips_and_switches_player() {
    let mut s = GameState::new(2);
    s.phase = TurnPhase::End;
    let mut timer = PhaseTimer::new(300);
    let signals = handle_next_phase(&mut s, &mut timer, 300, 1);
    assert_eq!(s.player, 2);
    assert_eq!(s.phase, TurnPhase::Prepare);
    assert_eq!(signals.len(), 9);
    assert_eq!(
        signals[0],
        PhaseSignal::AlignChipsOnTable { area: 1, player: 1, chip_type: ChipType::Cocaine }
    );
    assert_eq!(
        signals[3],
        PhaseSignal::AlignChipsOnTable { area: 2, player: 1, chip_type: ChipType::Cannabis }
    );
    assert_eq!(
        signals[5],
        PhaseSignal::AlignChipsOnTable { area: 1, player: 2, chip_type: ChipType::Cannabis }
    );
    assert_eq!(signals[8], PhaseSignal::SwitchPlayer(SwitchPlayer { player: 2 }));
}

#[test]
fn timer_tick_and_reset() {
    let mut t = PhaseTimer::new(300);
    assert!(!t.finished());
    t.tick(299);
    assert!(!t.finished());
    t.tick(5);
    assert!(t.finished());
    assert_eq!(t.elapsed, 300);
    t.reset();
    assert_eq!(t.elapsed, 0);
    assert_eq!(t.duration, 300);
}
