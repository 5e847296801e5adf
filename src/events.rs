//! Event cards: drawing the top of the event pile, their effects and their return.
use vstd::prelude::*;
use crate::cards::CardType;
use crate::state::{Effect, EffectType};
use crate::table::{ActiveEventCard, CardInDeck, EVENT_DECK, EVENT_SLOT, Intent};

verus! {

/// Number of turns that a drought lasts.
pub const DROUGHT_DURATION: usize = 3;

/// Whether `player` has an event card in force.
pub open spec fn has_event(events: Seq<ActiveEventCard>, player: usize) -> bool {
    exists|k: int| 0 <= k < events.len() && (#[trigger] events[k]).player == player
}

/// Index of the top card of the event pile among the first `n` cards of
/// `deck`: the event card with the largest sort key, the first such one on
/// ties; -1 if there is none.
pub open spec fn top_event_index(deck: Seq<CardInDeck>, n: int) -> int
    decreases n,
{
    if n <= 0 {
        -1
    } else {
        let b = top_event_index(deck, n - 1);
        if deck[n - 1].deck_marker == EVENT_DECK && (b < 0 || deck[n - 1].sort_key
            > deck[b].sort_key) {
            n - 1
        } else {
            b
        }
    }
}

/// Intents of the event draw for `player`: when no event card is in force
/// for them and the event pile is not empty, its top card is marked as in
/// force and laid on the event slot.
pub open spec fn draw_event_intents(
    deck: Seq<CardInDeck>,
    events: Seq<ActiveEventCard>,
    player: usize,
) -> Seq<Intent> {
    let top = top_event_index(deck, deck.len() as int);
    if has_event(events, player) || top < 0 {
        Seq::empty()
    } else {
        seq![
            Intent::DrawEventCard { card: deck[top].id, player },
            Intent::PlaceCardOnTable { card: deck[top].id, marker: EVENT_SLOT, player },
        ]
    }
}

/// Intents that return every event card in force to the event pile.
pub open spec fn retire_event_intents(events: Seq<ActiveEventCard>) -> Seq<Intent> {
    Seq::new(
        events.len(),
        |k: int| Intent::PlaceCardOffTable { card: events[k].id, deck_marker: EVENT_DECK },
    )
}

/// The effects that the event cards in force for `player` register, in
/// order: a drought of `DROUGHT_DURATION` turns for each drought card.
pub open spec fn event_effects(
    events: Seq<ActiveEventCard>,
    player: usize,
    turn: usize,
) -> Seq<Effect>
    decreases events.len(),
{
    if events.len() == 0 {
        Seq::empty()
    } else {
        let rest = event_effects(events.drop_last(), player, turn);
        let e = events.last();
        if e.player == player && e.card_type == CardType::Drought {
            rest.push(
                Effect {
                    effect_type: EffectType::Drought,
                    player,
                    turn_number: turn,
                    duration: DROUGHT_DURATION,
                },
            )
        } else {
            rest
        }
    }
}

proof fn lemma_top_event_bounded(deck: Seq<CardInDeck>, n: int)
    requires
        0 <= n <= deck.len(),
    ensures
        -1 <= top_event_index(deck, n) < n,
        top_event_index(deck, n) >= 0 ==> n > 0,
    decreases n,
{
    if n > 0 {
        lemma_top_event_bounded(deck, n - 1);
    }
}

/// Whether `player` has an event card in force.
pub fn player_has_event(events: &Vec<ActiveEventCard>, player: usize) -> (r: bool)
    ensures
        r == has_event(events@, player),
{
    let mut k: usize = 0;
    while k < events.len()
        invariant
            k <= events@.len(),
            forall|m: int| 0 <= m < k ==> (#[trigger] events@[m]).player != player,
        decreases events@.len() - k,
    {
        if events[k].player == player {
            return true;
        }
        k = k + 1;
    }
    false
}

/// The top card of the event pile, if the pile holds any card.
pub fn top_event_card(deck: &Vec<CardInDeck>) -> (r: Option<usize>)
    ensures
        match r {
            Some(i) => i as int == top_event_index(deck@, deck@.len() as int),
            None => top_event_index(deck@, deck@.len() as int) < 0,
        },
{
    let mut best: Option<usize> = None;
    let mut n: usize = 0;
    while n < deck.len()
        invariant
            n <= deck@.len(),
            match best {
                Some(i) => i as int == top_event_index(deck@, n as int),
                None => top_event_index(deck@, n as int) < 0,
            },
        decreases deck@.len() - n,
    {
        proof {
            lemma_top_event_bounded(deck@, n as int);
        }
        if deck[n].deck_marker == EVENT_DECK {
            match best {
                None => {
                    best = Some(n);
                },
                Some(b) => {
                    if deck[n].sort_key > deck[b].sort_key {
                        best = Some(n);
                    }
                },
            }
        }
        n = n + 1;
    }
    best
}

/// Intents of the event draw for `player`.
pub fn draw_event_card(
    deck: &Vec<CardInDeck>,
    events: &Vec<ActiveEventCard>,
    player: usize,
) -> (r: Vec<Intent>)
    ensures
        r@ == draw_event_intents(deck@, events@, player),
{
    let mut r: Vec<Intent> = Vec::new();
    if player_has_event(events, player) {
        return r;
    }
    match top_event_card(deck) {
        None => {},
        Some(top) => {
            proof {
                lemma_top_event_bounded(deck@, deck@.len() as int);
            }
            let card = deck[top].id;
            r.push(Intent::DrawEventCard { card, player });
            r.push(Intent::PlaceCardOnTable { card, marker: EVENT_SLOT, player });
            assert(r@ =~= draw_event_intents(deck@, events@, player));
        },
    }
    r
}

/// Intents that return every event card in force to the event pile.
pub fn retire_event_cards(events: &Vec<ActiveEventCard>) -> (r: Vec<Intent>)
    ensures
        r@ == retire_event_intents(events@),
{
    let mut r: Vec<Intent> = Vec::new();
    let mut k: usize = 0;
    while k < events.len()
        invariant
            k <= events@.len(),
            r@ =~= retire_event_intents(events@.subrange(0, k as int)),
        decreases events@.len() - k,
    {
        r.push(Intent::PlaceCardOffTable { card: events[k].id, deck_marker: EVENT_DECK });
        k = k + 1;
    }
    assert(events@.subrange(0, k as int) =~= events@);
    r
}

} // verus!
