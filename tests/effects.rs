use narco_board::phase::TurnPhase;
use narco_board::state::{effect_is_live, Effect, EffectType, GameState};

fn advance_to_turn(s: &mut GameState, turn: usize) {
    while s.turn_number < turn || s.phase != TurnPhase::Prepare || s.player != 1 {
        s.advance();
    }
}

#[test]
fn effect_lasts_its_duration() {
    for start in 1..4usize {
        for duration in 1..4usize {
            let mut s = GameState::new(2);
            advance_to_turn(&mut s, start);
            s.add_effect(EffectType::Drought, duration);
            for t in start..start + duration {
                advance_to_turn(&mut s, t);
                assert_eq!(s.get_effects(1).len(), 1, "turn {t}");
            }
            advance_to_turn(&mut s, start + duration);
            assert!(s.get_effects(1).is_empty());
        }
    }
}

#[test]
fn effects_are_listed_per_player() {
    let mut s = GameState::new(2);
    s.add_effect(EffectType::Drought, 3);
    s.player = 2;
    s.add_effect(EffectType::Attack, 2);
    let mine = s.get_effects(2);
    assert_eq!(mine.len(), 1);
    assert_eq!(mine[0].effect_type, EffectType::Attack);
    assert_eq!(mine[0].player, 2);
    assert_eq!(mine[0].turn_number, 1);
    assert_eq!(mine[0].duration, 2);
    assert_eq!(s.get_effects(1)[0].effect_type, EffectType::Drought);
}

#[test]
fn sweep_drops_only_expired_effects() {
    let mut s = GameState::new(1);
    let e = |turn_number, duration| Effect {
        effect_type: EffectType::Drought,
        player: 1,
        turn_number,
        duration,
    };
    s.effects = vec![e(1, 1), e(2, 3), e(4, 1), e(1, 5)];
    s.turn_number = 4;
    s.remove_expired_effects();
    assert_eq!(s.effects, vec![e(2, 3), e(4, 1), e(1, 5)]);
    s.remove_expired_effects();
    assert_eq!(s.effects.len(), 3);
}

#[test]
fn live_check_at_the_edges() {
    let e = Effect { effect_type: EffectType::Drought, player: 1, turn_number: 5, duration: 3 };
    assert!(effect_is_live(&e, 5));
    assert!(effect_is_live(&e, 7));
    assert!(!effect_is_live(&e, 8));
    let long = Effect { effect_type: EffectType::Attack, player: 1, turn_number: 2, duration: usize::MAX };
    assert!(effect_is_live(&long, usize::MAX));
}
