//! Requests for the next phase, held back by a minimum dwell between transitions.
use vstd::prelude::*;
use crate::cards::ChipType;
use crate::phase::TurnPhase;
use crate::state::{GameState, live_effects, step};
use crate::table::{PRODUCTION_AREA, SALES_AREA, SwitchPlayer};

verus! {

/// Minimum dwell between two phase transitions, in milliseconds.
pub const PHASE_DWELL_MS: u64 = 300;

/// A one-shot timer in milliseconds: it is finished once `elapsed` has
/// reached `duration`, and stays so until reset.
#[derive(Clone, Copy, Debug, PartialEq, Eq, Structural)]
pub struct PhaseTimer {
    pub duration: u64,
    pub elapsed: u64,
}

/// `t` after `delta` more milliseconds; the elapsed time stops at the
/// duration.
pub open spec fn tick_spec(t: PhaseTimer, delta: u64) -> PhaseTimer {
    PhaseTimer {
        duration: t.duration,
        elapsed: if t.elapsed + delta >= t.duration {
            t.duration
        } else {
            (t.elapsed + delta) as u64
        },
    }
}

pub open spec fn finished_spec(t: PhaseTimer) -> bool {
    t.elapsed >= t.duration
}

/// The timer that a frame of `delta` milliseconds leaves: a finished
/// timer is not ticked further.
pub open spec fn frame_timer(t: PhaseTimer, delta: u64) -> PhaseTimer {
    if finished_spec(t) {
        t
    } else {
        tick_spec(t, delta)
    }
}

/// Whether a frame of `delta` milliseconds with `requests` requests for the
/// next phase makes a transition.
pub open spec fn fires(t: PhaseTimer, delta: u64, requests: nat) -> bool {
    requests > 0 && finished_spec(frame_timer(t, delta))
}

impl PhaseTimer {
    pub open spec fn new_spec(duration: u64) -> PhaseTimer {
        PhaseTimer { duration, elapsed: 0 }
    }

    /// A timer of `duration` milliseconds that has not started.
    pub fn new(duration: u64) -> (r: PhaseTimer)
        ensures
            r == PhaseTimer::new_spec(duration),
    {
        PhaseTimer { duration, elapsed: 0 }
    }

    pub fn tick(&mut self, delta: u64)
        ensures
            *final(self) == tick_spec(*old(self), delta),
    {
        if delta >= self.duration - if self.elapsed <= self.duration {
            self.elapsed
        } else {
            self.duration
        } {
            self.elapsed = self.duration;
        } else {
            self.elapsed = self.elapsed + delta;
        }
    }

    pub fn finished(&self) -> (r: bool)
        ensures
            r == finished_spec(*self),
    {
        self.elapsed >= self.duration
    }

    pub fn reset(&mut self)
        ensures
            *final(self) == (PhaseTimer { duration: old(self).duration, elapsed: 0 }),
    {
        self.elapsed = 0;
    }
}

/// What a phase transition asks of the presentation layer.
#[derive(Clone, Copy, Debug, PartialEq, Eq, Structural)]
pub enum PhaseSignal {
    /// Tidy the hand of `player`.
    AlignCardsInHand { player: usize },
    /// Stack the chips of `chip_type` in area `area` of `player`.
    AlignChipsOnTable { area: usize, player: usize, chip_type: ChipType },
    /// The active player changed.
    SwitchPlayer(SwitchPlayer),
}

/// The four chip stacks of player `p` (1-based), in order.
pub open spec fn align_chip_signal(k: int) -> PhaseSignal {
    let p = (k / 4 + 1) as usize;
    let r = k % 4;
    PhaseSignal::AlignChipsOnTable {
        area: if r < 2 {
            PRODUCTION_AREA
        } else {
            SALES_AREA
        },
        player: p,
        chip_type: if r % 2 == 0 {
            ChipType::Cocaine
        } else {
            ChipType::Cannabis
        },
    }
}

/// Signals raised on leaving `phase` for a game of `num_players` whose
/// active player is `player` and then becomes `next_player`.
pub open spec fn transition_signals(
    phase: TurnPhase,
    player: usize,
    next_player: usize,
    num_players: nat,
) -> Seq<PhaseSignal> {
    let tidy = if phase == TurnPhase::PlaceCardsOnTable {
        seq![PhaseSignal::AlignCardsInHand { player }]
    } else if phase == TurnPhase::End {
        Seq::new(4 * num_players, |k: int| align_chip_signal(k))
    } else {
        Seq::empty()
    };
    if next_player != player {
        tidy.push(PhaseSignal::SwitchPlayer(SwitchPlayer { player: next_player }))
    } else {
        tidy
    }
}

/// Handles one frame of the driver: ticks the dwell timer by `delta`
/// milliseconds, and if `requests` asks for the next phase and the dwell
/// has passed, advances one phase, restarts the timer and returns the
/// signals of the transition. Further requests of the same frame fall in
/// the new dwell window and are dropped.
pub fn handle_next_phase(
    state: &mut GameState,
    timer: &mut PhaseTimer,
    delta: u64,
    requests: usize,
) -> (r: Vec<PhaseSignal>)
    requires
        old(state).wf(),
        old(timer).duration > 0,
        old(state).players() <= usize::MAX / 4,
        old(state).phase == TurnPhase::End && old(state).player == old(state).players()
            ==> old(state).turn_number < usize::MAX,
    ensures
        final(state).wf(),
        final(state).players() == old(state).players(),
        final(state).bank@ == old(state).bank@,
        if fires(*old(timer), delta, requests as nat) {
            &&& (final(state).turn_number as int, final(state).phase, final(state).player as int)
                == step(
                old(state).turn_number as int,
                old(state).phase,
                old(state).player as int,
                old(state).players() as int,
            )
            &&& final(state).effects@ == live_effects(
                old(state).effects@,
                final(state).turn_number as int,
            )
            &&& *final(timer) == PhaseTimer::new_spec(old(timer).duration)
            &&& r@ == transition_signals(
                old(state).phase,
                old(state).player,
                final(state).player,
                old(state).players(),
            )
        } else {
            &&& final(state).turn_number == old(state).turn_number
            &&& final(state).phase == old(state).phase
            &&& final(state).player == old(state).player
            &&& final(state).effects@ == old(state).effects@
            &&& *final(timer) == frame_timer(*old(timer), delta)
            &&& r@.len() == 0
        },
{
    if !timer.finished() {
        timer.tick(delta);
    }
    let mut signals: Vec<PhaseSignal> = Vec::new();
    if requests == 0 || !timer.finished() {
        return signals;
    }
    let phase = state.phase;
    let previous_player = state.player;
    match phase {
        TurnPhase::PlaceCardsOnTable => {
            signals.push(PhaseSignal::AlignCardsInHand { player: previous_player });
        },
        TurnPhase::End => {
            let n = state.num_players();
            let mut p: usize = 0;
            while p < n
                invariant
                    p <= n <= usize::MAX / 4,
                    signals@ =~= Seq::new(4 * p as nat, |k: int| align_chip_signal(k)),
                decreases n - p,
            {
                let pl = p + 1;
                signals.push(
                    PhaseSignal::AlignChipsOnTable {
                        area: PRODUCTION_AREA,
                        player: pl,
                        chip_type: ChipType::Cocaine,
                    },
                );
                signals.push(
                    PhaseSignal::AlignChipsOnTable {
                        area: PRODUCTION_AREA,
                        player: pl,
                        chip_type: ChipType::Cannabis,
                    },
                );
                signals.push(
                    PhaseSignal::AlignChipsOnTable {
                        area: SALES_AREA,
                        player: pl,
                        chip_type: ChipType::Cocaine,
                    },
                );
                signals.push(
                    PhaseSignal::AlignChipsOnTable {
                        area: SALES_AREA,
                        player: pl,
                        chip_type: ChipType::Cannabis,
                    },
                );
                proof {
                    let b = 4 * p as int;
                    vstd::arithmetic::div_mod::lemma_fundamental_div_mod_converse(b, 4, p as int, 0);
                    vstd::arithmetic::div_mod::lemma_fundamental_div_mod_converse(
                        b + 1,
                        4,
                        p as int,
                        1,
                    );
                    vstd::arithmetic::div_mod::lemma_fundamental_div_mod_converse(
                        b + 2,
                        4,
                        p as int,
                        2,
                    );
                    vstd::arithmetic::div_mod::lemma_fundamental_div_mod_converse(
                        b + 3,
                        4,
                        p as int,
                        3,
                    );
                    assert(signals@ =~= Seq::new(4 * (p + 1) as nat, |k: int| align_chip_signal(k)));
                }
                p = p + 1;
            }
        },
        _ => {},
    }
    state.advance();
    let next_player = state.player;
    if previous_player != next_player {
        signals.push(PhaseSignal::SwitchPlayer(SwitchPlayer { player: next_player }));
    }
    timer.reset();
    signals
}

} // verus!
