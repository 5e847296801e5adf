//! Properties that hold across calls: the turn rotation, the effect window,
//! the ledger round trip, chip selection and the dwell between transitions.
use vstd::prelude::*;
use vstd::arithmetic::div_mod::{lemma_fundamental_div_mod, lemma_fundamental_div_mod_converse};
use crate::cards::{CardType, ChipType};
use crate::driver::{PhaseTimer, fires, frame_timer};
use crate::phase::{TurnPhase, next_phase, phase_index};
use crate::picks::{
    CAPACITY_PER_CHIP, chips_taken, eligible, eligible_count, interleave,
    lemma_pick_order_eligible, pick_order_spec,
};
use crate::resolver::{SALE_PRICE, resolve_cards_spec};
use crate::table::{CardOnTable, ChipOnTable};
use crate::state::{
    Effect, MAX_BALANCE, credited, debited, is_active, live_effects, not_expired, step,
};

verus! {

/// The phase at position `i` (taken modulo 8) of the cycle.
pub open spec fn phase_at(i: int) -> TurnPhase {
    let r = i % 8;
    if r == 0 {
        TurnPhase::Prepare
    } else if r == 1 {
        TurnPhase::PlaceCardsOnTable
    } else if r == 2 {
        TurnPhase::DrawEventCard
    } else if r == 3 {
        TurnPhase::ApplyEventCard
    } else if r == 4 {
        TurnPhase::ApplyProductionCards
    } else if r == 5 {
        TurnPhase::ApplyTransportationCards
    } else if r == 6 {
        TurnPhase::ApplySalesCards
    } else {
        TurnPhase::End
    }
}

/// Turn number, phase and active player after `n` advances.
pub open spec fn steps(turn: int, phase: TurnPhase, player: int, num_players: int, n: nat) -> (
    int,
    TurnPhase,
    int,
)
    decreases n,
{
    if n == 0 {
        (turn, phase, player)
    } else {
        let (t, p, a) = steps(turn, phase, player, num_players, (n - 1) as nat);
        step(t, p, a, num_players)
    }
}

/// From the start of a player-1 turn, `n` advances visit the phases in
/// their cyclic order, pass the turn to each player in order 1, 2, ...,
/// `num_players` and back to 1, and raise the turn number by exactly one
/// for every full rotation through all players.
pub proof fn lemma_turn_rotation(turn: int, num_players: int, n: nat)
    requires
        num_players >= 1,
    ensures
        steps(turn, TurnPhase::Prepare, 1, num_players, n) == (
            turn + (n as int / 8) / num_players,
            phase_at(n as int),
            (n as int / 8) % num_players + 1,
        ),
    decreases n,
{
    if n == 0 {
        lemma_fundamental_div_mod_converse(0, num_players, 0, 0);
    } else {
        let m = (n - 1) as nat;
        lemma_turn_rotation(turn, num_players, m);
        let q: int = m as int / 8;
        let r: int = m as int % 8;
        lemma_fundamental_div_mod(m as int, 8);
        if r < 7 {
            lemma_fundamental_div_mod_converse(n as int, 8, q, r + 1);
            assert(phase_at(n as int) == crate::phase::next_phase(phase_at(m as int)));
        } else {
            lemma_fundamental_div_mod_converse(n as int, 8, q + 1, 0);
            lemma_fundamental_div_mod(q, num_players);
            let qd: int = q / num_players;
            let qm: int = q % num_players;
            assert((qd + 1) * num_players == num_players * qd + num_players) by (nonlinear_arith);
            if qm == num_players - 1 {
                lemma_fundamental_div_mod_converse(q + 1, num_players, qd + 1, 0);
            } else {
                lemma_fundamental_div_mod_converse(q + 1, num_players, qd, qm + 1);
            }
        }
    }
}

/// An effect applied at turn `T` for `D` turns is active for its owner at
/// turns `T` to `T + D - 1` and inactive from `T + D` on.
pub proof fn lemma_effect_window(e: Effect, turn: int)
    requires
        e.turn_number >= 1,
        e.duration >= 1,
        turn >= e.turn_number,
    ensures
        is_active(e, e.player as int, turn) <==> turn < e.turn_number + e.duration,
{
}

/// Sweeping at `turn` keeps exactly the effects that have not run out,
/// in their order.
pub proof fn lemma_sweep_keeps_live(s: Seq<Effect>, turn: int, e: Effect)
    ensures
        live_effects(s, turn).contains(e) <==> s.contains(e) && not_expired(e, turn),
    decreases s.len(),
{
    if s.len() > 0 {
        lemma_sweep_keeps_live(s.drop_last(), turn, e);
        let rest = live_effects(s.drop_last(), turn);
        assert(s =~= s.drop_last().push(s.last()));
        if not_expired(s.last(), turn) {
            assert(rest.push(s.last()).contains(e) <==> rest.contains(e) || e == s.last()) by {
                if rest.push(s.last()).contains(e) {
                    let k = choose|k: int| 0 <= k < rest.len() + 1 && rest.push(s.last())[k] == e;
                    if k < rest.len() {
                        assert(rest[k] == e);
                    }
                }
                if rest.contains(e) {
                    let k = choose|k: int| 0 <= k < rest.len() && rest[k] == e;
                    assert(rest.push(s.last())[k] == e);
                }
                if e == s.last() {
                    assert(rest.push(s.last())[rest.len() as int] == e);
                }
            }
        }
        assert(s.contains(e) <==> s.drop_last().contains(e) || e == s.last()) by {
            if s.contains(e) {
                let k = choose|k: int| 0 <= k < s.len() && s[k] == e;
                if k < s.len() - 1 {
                    assert(s.drop_last()[k] == e);
                }
            }
            if s.drop_last().contains(e) {
                let k = choose|k: int| 0 <= k < s.len() - 1 && s.drop_last()[k] == e;
                assert(s[k] == e);
            }
            if e == s.last() {
                assert(s[s.len() - 1] == e);
            }
        }
    }
}

/// A credit followed by a debit of the same amount leaves every balance as
/// it was.
pub proof fn lemma_credit_debit_round_trip(bank: Seq<u16>, player: int, amount: int)
    requires
        1 <= player <= bank.len(),
        0 <= amount,
        bank[player - 1] + amount <= MAX_BALANCE,
    ensures
        debited(credited(bank, player, amount), player, amount) == bank,
{
    assert(debited(credited(bank, player, amount), player, amount) =~= bank);
}

/// Whatever the number of players and the start, the phases that `n`
/// advances pass through follow the cycle from the starting phase.
pub proof fn lemma_phase_cycle(turn: int, phase: TurnPhase, player: int, num_players: int, n: nat)
    ensures
        steps(turn, phase, player, num_players, n).1 == phase_at(phase_index(phase) + n as int),
    decreases n,
{
    if n > 0 {
        lemma_phase_cycle(turn, phase, player, num_players, (n - 1) as nat);
        let i: int = phase_index(phase) + n - 1;
        lemma_fundamental_div_mod(i, 8);
        lemma_fundamental_div_mod(i + 1, 8);
        if i % 8 < 7 {
            lemma_fundamental_div_mod_converse(i + 1, 8, i / 8, i % 8 + 1);
        } else {
            lemma_fundamental_div_mod_converse(i + 1, 8, i / 8 + 1, 0);
        }
        assert(steps(turn, phase, player, num_players, n).1 == next_phase(phase_at(i)));
    }
}

/// A transportation (`sales == false`) or sales card of capacity `capacity`
/// takes `min(m + n, capacity / 10)` chips, where `m` and `n` count the
/// eligible cannabis and cocaine chips; the first `2 * min(m, n)` picks
/// alternate cannabis, cocaine, ..., and the rest are of the more
/// plentiful type.
pub proof fn lemma_card_takes(
    chips: Seq<ChipOnTable>,
    taken: Seq<bool>,
    player: int,
    turn: int,
    sales: bool,
    capacity: nat,
)
    requires
        taken.len() == chips.len(),
        chips.len() <= usize::MAX,
    ensures
        ({
            let len = chips.len() as int;
            let m = eligible_count(chips, taken, player, turn, ChipType::Cannabis, sales, len);
            let n = eligible_count(chips, taken, player, turn, ChipType::Cocaine, sales, len);
            let picks = chips_taken(chips, taken, player, turn, sales, capacity as int);
            let k = capacity / CAPACITY_PER_CHIP as nat;
            let c = if m <= n { m } else { n };
            &&& picks.len() == if m + n <= k { m + n } else { k }
            &&& forall|j: int|
                0 <= j < picks.len() ==> {
                    let i = #[trigger] picks[j] as int;
                    let ty = if j < 2 * c {
                        if j % 2 == 0 { ChipType::Cannabis } else { ChipType::Cocaine }
                    } else if m > n {
                        ChipType::Cannabis
                    } else {
                        ChipType::Cocaine
                    };
                    0 <= i < len && eligible(chips[i], taken[i], player, turn, ty, sales)
                }
        }),
{
    let len = chips.len() as int;
    lemma_pick_order_eligible(chips, taken, player, turn, ChipType::Cannabis, sales, len);
    lemma_pick_order_eligible(chips, taken, player, turn, ChipType::Cocaine, sales, len);
    let a = pick_order_spec(chips, taken, player, turn, ChipType::Cannabis, sales, len);
    let b = pick_order_spec(chips, taken, player, turn, ChipType::Cocaine, sales, len);
    let q = interleave(a, b);
    let picks = chips_taken(chips, taken, player, turn, sales, capacity as int);
    let c = if a.len() <= b.len() { a.len() as int } else { b.len() as int };
    assert forall|j: int| 0 <= j < picks.len() implies {
        let i = #[trigger] picks[j] as int;
        let ty = if j < 2 * c {
            if j % 2 == 0 { ChipType::Cannabis } else { ChipType::Cocaine }
        } else if a.len() > b.len() {
            ChipType::Cannabis
        } else {
            ChipType::Cocaine
        };
        0 <= i < len && eligible(chips[i], taken[i], player, turn, ty, sales)
    } by {
        assert(picks[j] == q[j]);
        if j < 2 * c {
            if j % 2 == 0 {
                assert(q[j] == a[j / 2]);
            } else {
                assert(q[j] == b[j / 2]);
            }
        } else if j < a.len() + c {
            assert(q[j] == a[j - c]);
        } else {
            assert(q[j] == b[j - a.len()]);
        }
    }
}

/// A sale of one export card (capacity 50) of the active player, with at
/// least five eligible chips in their sales area, sells exactly five chips
/// and so earns `5 * SALE_PRICE`.
pub proof fn lemma_export_sale(
    chips: Seq<ChipOnTable>,
    player: usize,
    turn: usize,
    card: CardOnTable,
)
    requires
        chips.len() <= usize::MAX,
        card.card_type == CardType::Export,
        card.player == player,
        ({
            let taken = Seq::new(chips.len(), |i: int| false);
            let len = chips.len() as int;
            eligible_count(chips, taken, player as int, turn as int, ChipType::Cannabis, true, len)
                + eligible_count(
                chips,
                taken,
                player as int,
                turn as int,
                ChipType::Cocaine,
                true,
                len,
            ) >= 5
        }),
    ensures
        resolve_cards_spec(TurnPhase::ApplySalesCards, player, turn, chips, seq![card]).2 == 5,
        SALE_PRICE * resolve_cards_spec(TurnPhase::ApplySalesCards, player, turn, chips, seq![card]).2
            == 500,
{
    let taken = Seq::new(chips.len(), |i: int| false);
    let cards = seq![card];
    assert(cards.drop_last() =~= Seq::<CardOnTable>::empty());
    let base = resolve_cards_spec(TurnPhase::ApplySalesCards, player, turn, chips, cards.drop_last());
    assert(base.0 =~= taken);
    assert(base.2 == 0);
    lemma_card_takes(chips, taken, player as int, turn as int, true, 50);
    let picks = chips_taken(chips, taken, player as int, turn as int, true, 50);
    assert(resolve_cards_spec(TurnPhase::ApplySalesCards, player, turn, chips, cards).2 == base.2
        + picks.len());
}

/// After a transition the dwell timer restarts: a request within the dwell
/// makes no transition, and one once the dwell has passed does.
pub proof fn lemma_debounce(duration: u64, within: u64, after: u64, requests: nat)
    requires
        duration > 0,
        within < duration,
        within + after >= duration,
        requests > 0,
    ensures
        !fires(PhaseTimer::new_spec(duration), within, requests),
        fires(frame_timer(PhaseTimer::new_spec(duration), within), after, requests),
{
}

} // verus!
