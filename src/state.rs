//! The session record: turn and phase state machine, bank ledger and timed effects.
use vstd::prelude::*;
use crate::phase::{TurnPhase, next_phase};

verus! {

/// Kinds of timed status effect.
#[derive(Clone, Copy, Debug, PartialEq, Eq, Structural)]
pub enum EffectType {
    Drought,
    Attack,
}

/// A timed status effect on one player, applied at `turn_number` for
/// `duration` turns.
#[derive(Clone, Copy, Debug, PartialEq, Eq, Structural)]
pub struct Effect {
    pub effect_type: EffectType,
    pub player: usize,
    pub turn_number: usize,
    pub duration: usize,
}

/// Why a bank operation was refused.
#[derive(Clone, Copy, Debug, PartialEq, Eq, Structural)]
pub enum BankError {
    /// The debit is larger than the balance.
    InsufficientFunds,
    /// The credit would take the balance past what a balance can hold.
    Overflow,
}

/// Largest balance that a bank can hold.
pub const MAX_BALANCE: u16 = 65535;

/// Whether effect `e` has not yet run out at turn `turn`.
pub open spec fn not_expired(e: Effect, turn: int) -> bool {
    e.turn_number + e.duration > turn
}

/// Whether effect `e` is active for `player` at turn `turn`.
pub open spec fn is_active(e: Effect, player: int, turn: int) -> bool {
    e.player == player && not_expired(e, turn)
}

/// The effects of `s` that have not run out at `turn`, in their order.
pub open spec fn live_effects(s: Seq<Effect>, turn: int) -> Seq<Effect>
    decreases s.len(),
{
    if s.len() == 0 {
        s
    } else {
        let rest = live_effects(s.drop_last(), turn);
        if not_expired(s.last(), turn) {
            rest.push(s.last())
        } else {
            rest
        }
    }
}

/// The effects of `s` owned by `player`, in their order.
pub open spec fn effects_of(s: Seq<Effect>, player: int) -> Seq<Effect>
    decreases s.len(),
{
    if s.len() == 0 {
        s
    } else {
        let rest = effects_of(s.drop_last(), player);
        if s.last().player == player {
            rest.push(s.last())
        } else {
            rest
        }
    }
}

/// Banks after `amount` is credited to `player` (1-based).
pub open spec fn credited(bank: Seq<u16>, player: int, amount: int) -> Seq<u16> {
    bank.update(player - 1, (bank[player - 1] + amount) as u16)
}

/// Banks after `amount` is debited from `player` (1-based).
pub open spec fn debited(bank: Seq<u16>, player: int, amount: int) -> Seq<u16> {
    bank.update(player - 1, (bank[player - 1] - amount) as u16)
}

/// Turn number, phase and active player after one advance in a game of
/// `num_players`.
pub open spec fn step(turn: int, phase: TurnPhase, player: int, num_players: int) -> (
    int,
    TurnPhase,
    int,
) {
    if phase == TurnPhase::End {
        if player == num_players {
            (turn + 1, TurnPhase::Prepare, 1)
        } else {
            (turn, TurnPhase::Prepare, player + 1)
        }
    } else {
        (turn, next_phase(phase), player)
    }
}

/// Whether effect `e` is still in force at `turn`, without overflow.
pub fn effect_is_live(e: &Effect, turn: usize) -> (r: bool)
    ensures
        r == not_expired(*e, turn as int),
{
    e.turn_number > turn || e.duration > turn - e.turn_number
}

/// The session record: turn, phase, active player, banks and effects.
#[derive(Debug)]
pub struct GameState {
    pub turn_number: usize,
    pub effects: Vec<Effect>,
    pub phase: TurnPhase,
    pub player: usize,
    pub bank: Vec<u16>,
    pub num_players: usize,
}

impl GameState {
    /// Number of players of the session.
    pub open spec fn players(&self) -> nat {
        self.num_players as nat
    }

    /// The state is well formed: at least one player, one bank per player,
    /// an active player among them and a turn number of at least 1.
    pub open spec fn wf(&self) -> bool {
        &&& self.players() >= 1
        &&& self.bank@.len() == self.players()
        &&& 1 <= self.player <= self.players()
        &&& self.turn_number >= 1
    }

    /// Whether `p` names a player of the session.
    pub open spec fn valid_player(&self, p: int) -> bool {
        1 <= p <= self.players()
    }

    /// Balance of player `p` (1-based).
    pub open spec fn balance_of(&self, p: int) -> int {
        self.bank@[p - 1] as int
    }

    pub fn num_players(&self) -> (r: usize)
        ensures
            r == self.players(),
    {
        self.num_players
    }

    /// A fresh session: turn 1, `Prepare`, player 1, empty banks, no effects.
    pub fn new(num_players: usize) -> (r: GameState)
        requires
            num_players >= 1,
        ensures
            r.wf(),
            r.players() == num_players,
            r.turn_number == 1,
            r.phase == TurnPhase::Prepare,
            r.player == 1,
            forall|i: int| 0 <= i < r.bank@.len() ==> r.bank@[i] == 0,
            r.effects@.len() == 0,
    {
        GameState {
            turn_number: 1,
            phase: TurnPhase::Prepare,
            player: 1,
            bank: zero_banks(num_players),
            num_players,
            effects: Vec::new(),
        }
    }

    /// Back to the state of a fresh session with the same players.
    pub fn reset(&mut self)
        requires
            old(self).players() >= 1,
        ensures
            final(self).wf(),
            final(self).players() == old(self).players(),
            final(self).turn_number == 1,
            final(self).phase == TurnPhase::Prepare,
            final(self).player == 1,
            forall|i: int| 0 <= i < final(self).bank@.len() ==> final(self).bank@[i] == 0,
            final(self).effects@.len() == 0,
    {
        self.turn_number = 1;
        self.phase = TurnPhase::Prepare;
        self.player = 1;
        self.bank = zero_banks(self.num_players);
        self.effects = Vec::new();
    }

    /// Adds `amount` to the balance of `player`; refused when the balance
    /// would exceed `MAX_BALANCE`.
    pub fn increase_bank(&mut self, player: usize, amount: u16) -> (r: Result<(), BankError>)
        requires
            old(self).wf(),
            old(self).valid_player(player as int),
        ensures
            final(self).wf(),
            final(self).players() == old(self).players(),
            final(self).turn_number == old(self).turn_number,
            final(self).phase == old(self).phase,
            final(self).player == old(self).player,
            final(self).effects@ == old(self).effects@,
            r == if old(self).balance_of(player as int) + amount > MAX_BALANCE {
                Err::<(), BankError>(BankError::Overflow)
            } else {
                Ok(())
            },
            r is Ok ==> final(self).bank@ == credited(old(self).bank@, player as int, amount as int),
            r is Err ==> final(self).bank@ == old(self).bank@,
    {
        let cur = self.bank[player - 1];
        if amount > MAX_BALANCE - cur {
            return Err(BankError::Overflow);
        }
        self.bank.set(player - 1, cur + amount);
        Ok(())
    }

    /// Takes `amount` from the balance of `player`; refused when it exceeds
    /// the balance, which never goes below zero.
    pub fn draw_bank(&mut self, player: usize, amount: u16) -> (r: Result<(), BankError>)
        requires
            old(self).wf(),
            old(self).valid_player(player as int),
        ensures
            final(self).wf(),
            final(self).players() == old(self).players(),
            final(self).turn_number == old(self).turn_number,
            final(self).phase == old(self).phase,
            final(self).player == old(self).player,
            final(self).effects@ == old(self).effects@,
            r == if amount > old(self).balance_of(player as int) {
                Err::<(), BankError>(BankError::InsufficientFunds)
            } else {
                Ok(())
            },
            r is Ok ==> final(self).bank@ == debited(old(self).bank@, player as int, amount as int),
            r is Err ==> final(self).bank@ == old(self).bank@,
    {
        let cur = self.bank[player - 1];
        if amount > cur {
            return Err(BankError::InsufficientFunds);
        }
        self.bank.set(player - 1, cur - amount);
        Ok(())
    }

    /// Balance of `player`.
    pub fn get_balance(&self, player: usize) -> (r: u16)
        requires
            self.wf(),
            self.valid_player(player as int),
        ensures
            r == self.balance_of(player as int),
    {
        self.bank[player - 1]
    }

    /// Registers an effect on the active player, applied at the current turn.
    pub fn add_effect(&mut self, effect_type: EffectType, duration: usize)
        ensures
            final(self).effects@ == old(self).effects@.push(
                Effect {
                    effect_type,
                    player: old(self).player,
                    turn_number: old(self).turn_number,
                    duration,
                },
            ),
            final(self).players() == old(self).players(),
            final(self).turn_number == old(self).turn_number,
            final(self).phase == old(self).phase,
            final(self).player == old(self).player,
            final(self).bank@ == old(self).bank@,
    {
        let e = Effect {
            effect_type: effect_type,
            player: self.player,
            turn_number: self.turn_number,
            duration,
        };
        self.effects.push(e);
    }

    /// The effects owned by `player`, in the order in which they were added.
    pub fn get_effects(&self, player: usize) -> (r: Vec<Effect>)
        ensures
            r@ == effects_of(self.effects@, player as int),
    {
        let mut r: Vec<Effect> = Vec::new();
        let mut i: usize = 0;
        while i < self.effects.len()
            invariant
                i <= self.effects@.len(),
                r@ == effects_of(self.effects@.subrange(0, i as int), player as int),
            decreases self.effects@.len() - i,
        {
            let e = self.effects[i];
            assert(self.effects@.subrange(0, i + 1).drop_last() =~= self.effects@.subrange(
                0,
                i as int,
            ));
            if e.player == player {
                r.push(e);
            }
            i = i + 1;
        }
        assert(self.effects@.subrange(0, i as int) =~= self.effects@);
        r
    }

    /// Drops every effect that has run out at the current turn.
    pub fn remove_expired_effects(&mut self)
        ensures
            final(self).effects@ == live_effects(old(self).effects@, old(self).turn_number as int),
            final(self).players() == old(self).players(),
            final(self).turn_number == old(self).turn_number,
            final(self).phase == old(self).phase,
            final(self).player == old(self).player,
            final(self).bank@ == old(self).bank@,
    {
        let turn = self.turn_number;
        let mut kept: Vec<Effect> = Vec::new();
        let mut i: usize = 0;
        while i < self.effects.len()
            invariant
                i <= self.effects@.len(),
                self.effects@ == old(self).effects@,
                turn == old(self).turn_number,
                kept@ == live_effects(self.effects@.subrange(0, i as int), turn as int),
            decreases self.effects@.len() - i,
        {
            let e = self.effects[i];
            assert(self.effects@.subrange(0, i + 1).drop_last() =~= self.effects@.subrange(
                0,
                i as int,
            ));
            if effect_is_live(&e, turn) {
                kept.push(e);
            }
            i = i + 1;
        }
        assert(self.effects@.subrange(0, i as int) =~= self.effects@);
        self.effects = kept;
    }

    /// Moves one phase forward. Leaving `End` hands the turn to the next
    /// player, and after the last player starts a new turn number. Expired
    /// effects are then dropped.
    pub fn advance(&mut self)
        requires
            old(self).wf(),
            old(self).phase == TurnPhase::End && old(self).player == old(self).players()
                ==> old(self).turn_number < usize::MAX,
        ensures
            final(self).wf(),
            final(self).players() == old(self).players(),
            (final(self).turn_number as int, final(self).phase, final(self).player as int) == step(
                old(self).turn_number as int,
                old(self).phase,
                old(self).player as int,
                old(self).players() as int,
            ),
            final(self).effects@ == live_effects(old(self).effects@, final(self).turn_number as int),
            final(self).bank@ == old(self).bank@,
    {
        self.phase = match self.phase {
            TurnPhase::Prepare => TurnPhase::PlaceCardsOnTable,
            TurnPhase::PlaceCardsOnTable => TurnPhase::DrawEventCard,
            TurnPhase::DrawEventCard => TurnPhase::ApplyEventCard,
            TurnPhase::ApplyEventCard => TurnPhase::ApplyProductionCards,
            TurnPhase::ApplyProductionCards => TurnPhase::ApplyTransportationCards,
            TurnPhase::ApplyTransportationCards => TurnPhase::ApplySalesCards,
            TurnPhase::ApplySalesCards => TurnPhase::End,
            TurnPhase::End => {
                if self.player == self.num_players {
                    self.turn_number = self.turn_number + 1;
                    self.player = 1;
                } else {
                    self.player = self.player + 1;
                }
                TurnPhase::Prepare
            },
        };
        self.remove_expired_effects();
    }

    /// Makes `player` the active player.
    pub fn switch_player(&mut self, player: usize)
        requires
            old(self).wf(),
            old(self).valid_player(player as int),
        ensures
            final(self).wf(),
            final(self).player == player,
            final(self).players() == old(self).players(),
            final(self).turn_number == old(self).turn_number,
            final(self).phase == old(self).phase,
            final(self).bank@ == old(self).bank@,
            final(self).effects@ == old(self).effects@,
    {
        self.player = player;
    }
}

/// One zero balance for each of `n` players.
fn zero_banks(n: usize) -> (r: Vec<u16>)
    ensures
        r@.len() == n,
        forall|i: int| 0 <= i < n ==> r@[i] == 0,
{
    let mut r: Vec<u16> = Vec::new();
    let mut i: usize = 0;
    while i < n
        invariant
            i <= n,
            r@.len() == i,
            forall|j: int| 0 <= j < i ==> r@[j] == 0,
        decreases n - i,
    {
        r.push(0);
        i = i + 1;
    }
    r
}

} // verus!
