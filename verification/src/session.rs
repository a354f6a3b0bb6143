//! The study session: one pass through a deck, card by card.
//!
//! The session is a state machine. The caller shows the front of the card
//! that the state points at, reads an answer and hands it over; the session
//! scores the answer and says where to go on. Because the input comes from
//! the caller, a session can be driven by a script as well as by a terminal.

use crate::deck::{card_views, Deck};
use crate::matching::{compare_folded, match_flags, MatchReport};
use crate::text::{case_folded, fold_case, same_text};
use vstd::prelude::*;

verus! {

/// Where a session stands.
#[derive(Clone, Copy, Debug, PartialEq, Eq, Structural)]
pub enum SessionState {
    /// The answer to the card at this position is awaited.
    AwaitingCard(usize),
    /// The session has been told to stop and only waits to be closed.
    AwaitingQuit,
    /// The session is over.
    Done,
}

/// What one answer led to: the state to go on from, and the score of the
/// answer if it was scored.
pub struct Turn {
    pub next: SessionState,
    pub report: Option<MatchReport>,
}

/// The state in which a session over `cards` cards starts.
pub open spec fn initial_state(cards: nat) -> SessionState {
    if cards >= 1 {
        SessionState::AwaitingCard(0)
    } else {
        SessionState::Done
    }
}

/// Whether an input asks to end the session: folded, it is the quit token.
pub open spec fn is_quit(input: Seq<char>, quit_token: Seq<char>) -> bool {
    case_folded(input) == quit_token
}

/// Whether an input given in `state` is scored as an answer: a card must be
/// waiting for it, and it must not be the quit token.
pub open spec fn is_scored(state: SessionState, cards: nat, quit: bool) -> bool {
    state matches SessionState::AwaitingCard(i) && i < cards && !quit
}

/// The state after an input given in `state`. An answer moves on to the next
/// card, or ends the session after the last; the quit token ends it at once.
pub open spec fn next_state(state: SessionState, cards: nat, quit: bool) -> SessionState {
    match state {
        SessionState::AwaitingCard(i) => if !quit && i + 1 < cards {
            SessionState::AwaitingCard((i + 1) as usize)
        } else {
            SessionState::Done
        },
        SessionState::AwaitingQuit => SessionState::Done,
        SessionState::Done => SessionState::Done,
    }
}

/// How many inputs a session in `state` can still take before it is over, at
/// most.
pub open spec fn inputs_left(state: SessionState, cards: nat) -> nat {
    match state {
        SessionState::AwaitingCard(i) => if i < cards {
            (cards - i) as nat
        } else {
            1
        },
        SessionState::AwaitingQuit => 1,
        SessionState::Done => 0,
    }
}

/// Cards are visited in their stored order, one per answer, and every session
/// ends: each input leaves fewer inputs to take, and after an answer to card
/// `i` the session waits for card `i + 1` or is over.
pub proof fn lemma_session_progress(state: SessionState, cards: nat, quit: bool)
    requires
        state != SessionState::Done,
        cards <= usize::MAX,
    ensures
        inputs_left(next_state(state, cards, quit), cards) < inputs_left(state, cards),
        state matches SessionState::AwaitingCard(i) ==> next_state(state, cards, quit)
            == SessionState::Done || next_state(state, cards, quit) == SessionState::AwaitingCard(
            (i + 1) as usize,
        ),
        quit ==> next_state(state, cards, quit) == SessionState::Done,
{
}

/// The token that ends a session.
pub fn quit_token() -> (token: &'static str)
    ensures
        token@ == "q"@,
{
    "q"
}

/// The state in which a session over `deck` starts: at the first card, or
/// over at once where the deck has no card.
pub fn start(deck: &Deck) -> (state: SessionState)
    ensures
        state == initial_state(deck@.cards.len()),
{
    if deck.cards.len() >= 1 {
        SessionState::AwaitingCard(0)
    } else {
        SessionState::Done
    }
}

/// The position of the card whose front is to be shown in `state`, if the
/// session waits for an answer to one.
pub fn current_card(deck: &Deck, state: SessionState) -> (position: Option<usize>)
    ensures
        position is Some <==> (state matches SessionState::AwaitingCard(i) && i
            < deck@.cards.len()),
        position matches Some(i) ==> state == SessionState::AwaitingCard(i),
{
    match state {
        SessionState::AwaitingCard(i) => if i < deck.cards.len() {
            Some(i)
        } else {
            None
        },
        _ => None,
    }
}

/// Takes one input in `state`. The quit token ends the session unscored. Any
/// other input is the answer to the card that `state` points at: it is
/// scored against the back of that card, and the session moves on.
pub fn answer(deck: &Deck, state: SessionState, input: &str, quit_token: &str) -> (turn: Turn)
    ensures
        turn.next == next_state(state, deck@.cards.len(), is_quit(input@, quit_token@)),
        turn.report is Some <==> is_scored(
            state,
            deck@.cards.len(),
            is_quit(input@, quit_token@),
        ),
        turn.report matches Some(report) ==> state matches SessionState::AwaitingCard(i)
            && report@ == match_flags(deck@.cards[i as int].back, case_folded(input@)),
{
    match state {
        SessionState::AwaitingCard(i) => {
            let folded = fold_case(input);
            if same_text(folded.as_str(), quit_token) || i >= deck.cards.len() {
                return Turn { next: SessionState::Done, report: None };
            }
            assert(card_views(deck.cards@)[i as int] == deck.cards@[i as int]@);
            let report = compare_folded(deck.cards[i].back.as_str(), folded.as_str());
            let next = if i + 1 < deck.cards.len() {
                SessionState::AwaitingCard(i + 1)
            } else {
                SessionState::Done
            };
            Turn { next, report: Some(report) }
        },
        _ => Turn { next: SessionState::Done, report: None },
    }
}

} // verus!
