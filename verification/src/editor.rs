//! Entering cards: the dialogue that fills a new deck or adds to one.
//!
//! The dialogue asks for a front, then for a back, and starts over. Two
//! inputs are commands wherever they are typed: one saves the deck and ends
//! the dialogue, the other ends it without saving. The caller asks and reads;
//! the draft decides what each input means.

use crate::deck::{card_views, normalized_back, Card, CardView, Deck, DeckSaveMode, DeckView};
use crate::text::{same_text, trimmed};
use vstd::prelude::*;

verus! {

/// What an input asks for.
#[derive(Clone, Copy, Debug, PartialEq, Eq, Structural)]
pub enum Action {
    /// Save the deck and end the dialogue.
    Save,
    /// End the dialogue without saving.
    Exit,
    /// Take the input as text of a card.
    Continue,
}

/// What the dialogue asks for next.
#[derive(Clone, Copy, Debug, PartialEq, Eq, Structural)]
pub enum Prompt {
    /// The front of a card; the number counts the cards of this dialogue
    /// from one.
    Front(usize),
    /// The back of the card whose front was just given.
    Back,
}

/// A deck that is being filled.
#[derive(Debug, PartialEq, Eq)]
pub struct Draft {
    /// The name of the deck.
    pub name: String,
    /// The cards so far: those the deck had, then those entered.
    pub cards: Vec<Card>,
    /// Where the deck is to be stored.
    pub path: String,
    /// Whether saving may replace a stored deck.
    pub mode: DeckSaveMode,
    /// How many cards the deck had when the dialogue began.
    pub initial: usize,
    /// The front that was entered and still waits for its back.
    pub pending_front: Option<String>,
}

/// A draft as plain values.
pub struct DraftView {
    pub name: Seq<char>,
    pub cards: Seq<CardView>,
    pub path: Seq<char>,
    pub mode: DeckSaveMode,
    pub initial: nat,
    pub pending_front: Option<Seq<char>>,
}

/// Where the dialogue stands after an input.
#[derive(Debug, PartialEq, Eq)]
pub enum Progress {
    /// The dialogue goes on with this draft.
    More(Draft),
    /// The deck is to be stored at `path` with `mode`; the dialogue is over.
    Save { deck: Deck, path: String, mode: DeckSaveMode },
    /// The dialogue is over and nothing is stored.
    Exit,
}

/// Where the dialogue stands, as plain values.
pub enum ProgressView {
    More(DraftView),
    Save { deck: DeckView, path: Seq<char>, mode: DeckSaveMode },
    Exit,
}

impl View for Draft {
    type V = DraftView;

    open spec fn view(&self) -> DraftView {
        DraftView {
            name: self.name@,
            cards: card_views(self.cards@),
            path: self.path@,
            mode: self.mode,
            initial: self.initial as nat,
            pending_front: match self.pending_front {
                Some(front) => Some(front@),
                None => None,
            },
        }
    }
}

impl View for Progress {
    type V = ProgressView;

    open spec fn view(&self) -> ProgressView {
        match self {
            Progress::More(draft) => ProgressView::More(draft@),
            Progress::Save { deck, path, mode } => ProgressView::Save {
                deck: deck@,
                path: path@,
                mode: *mode,
            },
            Progress::Exit => ProgressView::Exit,
        }
    }
}

/// What an input asks for: `w` to save, `q` to leave, anything else is text.
/// The input counts as typed: ` w` and `W` are text.
pub open spec fn action_of(input: Seq<char>) -> Action {
    if input == "w"@ {
        Action::Save
    } else if input == "q"@ {
        Action::Exit
    } else {
        Action::Continue
    }
}

/// The card made of a front and a back as they were typed.
pub open spec fn card_of(front: Seq<char>, back: Seq<char>) -> CardView {
    CardView { front: trimmed(front), back: normalized_back(back) }
}

/// The number of the card that is entered next, counted from one within
/// this dialogue.
pub open spec fn card_number(cards: nat, initial: nat) -> nat {
    if cards >= initial {
        (cards - initial + 1) as nat
    } else {
        1
    }
}

impl DraftView {
    /// What the dialogue asks for next.
    pub open spec fn prompt(self) -> Prompt {
        if self.pending_front is Some {
            Prompt::Back
        } else {
            Prompt::Front(
                if card_number(self.cards.len(), self.initial) > usize::MAX {
                    usize::MAX
                } else {
                    card_number(self.cards.len(), self.initial) as usize
                },
            )
        }
    }

    /// Where the dialogue stands after `input`.
    pub open spec fn after(self, input: Seq<char>) -> ProgressView {
        match action_of(input) {
            Action::Save => ProgressView::Save {
                deck: DeckView { name: self.name, cards: self.cards },
                path: self.path,
                mode: self.mode,
            },
            Action::Exit => ProgressView::Exit,
            Action::Continue => match self.pending_front {
                None => ProgressView::More(DraftView { pending_front: Some(input), ..self }),
                Some(front) => ProgressView::More(
                    DraftView {
                        cards: self.cards.push(card_of(front, input)),
                        pending_front: None,
                        ..self
                    },
                ),
            },
        }
    }
}

/// Entering a card takes two inputs and adds exactly that card at the end;
/// the cards before it stay as they are. A command typed in place of the back
/// drops the front that was waiting.
pub proof fn lemma_card_entry(draft: DraftView, front: Seq<char>, back: Seq<char>)
    requires
        draft.pending_front is None,
        action_of(front) == Action::Continue,
    ensures
        ({
            let waiting = DraftView { pending_front: Some(front), ..draft };
            let entered = DraftView {
                cards: draft.cards.push(card_of(front, back)),
                pending_front: None,
                ..draft
            };
            &&& draft.after(front) == ProgressView::More(waiting)
            &&& waiting.prompt() == Prompt::Back
            &&& card_of(front, back).is_normalized()
            &&& action_of(back) == Action::Continue ==> waiting.after(back) == ProgressView::More(
                entered,
            )
            &&& action_of(back) == Action::Save ==> waiting.after(back) == (ProgressView::Save {
                deck: DeckView { name: draft.name, cards: draft.cards },
                path: draft.path,
                mode: draft.mode,
            })
            &&& action_of(back) == Action::Exit ==> waiting.after(back) == ProgressView::Exit
        }),
{
    crate::text::lemma_trimmed_is_trimmed(front);
    crate::text::lemma_trimmed_is_trimmed(crate::text::case_folded(trimmed(back)));
}

/// What an input asks for.
pub fn handle_action(input: &str) -> (action: Action)
    ensures
        action == action_of(input@),
{
    if same_text(input, "w") {
        Action::Save
    } else if same_text(input, "q") {
        Action::Exit
    } else {
        Action::Continue
    }
}

/// Begins the dialogue for the deck `deck_name`, which already has `cards`
/// and is to be stored at `path`.
pub fn new_cards(cards: Vec<Card>, deck_name: String, path: String, mode: DeckSaveMode) -> (draft:
    Draft)
    ensures
        draft@ == (DraftView {
            name: deck_name@,
            cards: card_views(cards@),
            path: path@,
            mode,
            initial: cards@.len(),
            pending_front: None,
        }),
        draft@.prompt() == Prompt::Front(1),
{
    let initial = cards.len();
    Draft { name: deck_name, cards, path, mode, initial, pending_front: None }
}

impl Draft {
    /// What to ask for next.
    pub fn prompt(&self) -> (prompt: Prompt)
        ensures
            prompt == self@.prompt(),
    {
        match self.pending_front {
            Some(_) => Prompt::Back,
            None => {
                let entered: usize = if self.cards.len() >= self.initial {
                    self.cards.len() - self.initial
                } else {
                    0
                };
                Prompt::Front(entered.saturating_add(1))
            },
        }
    }

    /// Takes one input: a command, the front of a card, or the back of the
    /// card whose front is waiting.
    pub fn enter(self, input: &str) -> (progress: Progress)
        ensures
            progress@ == self@.after(input@),
    {
        match handle_action(input) {
            Action::Save => Progress::Save {
                deck: Deck::new(self.name, self.cards),
                path: self.path,
                mode: self.mode,
            },
            Action::Exit => Progress::Exit,
            Action::Continue => {
                let Draft { name, cards, path, mode, initial, pending_front } = self;
                match pending_front {
                    None => Progress::More(
                        Draft {
                            name,
                            cards,
                            path,
                            mode,
                            initial,
                            pending_front: Some(input.to_owned()),
                        },
                    ),
                    Some(front) => {
                        let mut cards = cards;
                        let card = Card::from_input(front.as_str(), input);
                        proof {
                            assert(card_views(cards@.push(card)) =~= card_views(cards@).push(
                                card_of(front@, input@),
                            ));
                        }
                        cards.push(card);
                        Progress::More(
                            Draft { name, cards, path, mode, initial, pending_front: None },
                        )
                    },
                }
            },
        }
    }
}

} // verus!
