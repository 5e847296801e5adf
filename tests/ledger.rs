use narco_board::state::{BankError, GameState};

#[test]
fn credit_then_debit_round_trip() {
    let mut s = GameState::new(2);
    s.increase_bank(2, 250).unwrap();
    let before = s.get_balance(2);
    assert_eq!(s.increase_bank(2, 1234), Ok(()));
    assert_eq!(s.get_balance(2), 1484);
    assert_eq!(s.draw_bank(2, 1234), Ok(()));
    assert_eq!(s.get_balance(2), before);
    assert_eq!(s.get_balance(1), 0);
}

#[test]
fn debit_beyond_balance_is_refused() {
    let mut s = GameState::new(2);
    s.increase_bank(1, 100).unwrap();
    assert_eq!(s.draw_bank(1, 101), Err(BankError::InsufficientFunds));
    assert_eq!(s.get_balance(1), 100);
    assert_eq!(s.draw_bank(1, 100), Ok(()));
    assert_eq!(s.get_balance(1), 0);
    assert_eq!(s.draw_bank(1, 1), Err(BankError::InsufficientFunds));
}

#[test]
fn credit_past_the_maximum_is_refused() {
    let mut s = GameState::new(1);
    assert_eq!(s.increase_bank(1, 65535), Ok(()));
    assert_eq!(s.increase_bank(1, 1), Err(BankError::Overflow));
    assert_eq!(s.get_balance(1), 65535);
}
