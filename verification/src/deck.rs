//! Cards and decks, the errors of the deck store, and the rule that decides
//! whether a save may write.

use crate::text::{case_folded, fold_case, is_trimmed, lemma_trimmed_is_trimmed, trim, trimmed};
use vstd::prelude::*;

verus! {

/// A card as a pair of texts.
pub struct CardView {
    pub front: Seq<char>,
    pub back: Seq<char>,
}

/// A deck as a name and a sequence of cards.
pub struct DeckView {
    pub name: Seq<char>,
    pub cards: Seq<CardView>,
}

/// A flashcard: the prompt shown and the answer expected.
#[derive(Clone, Debug, PartialEq, Eq)]
pub struct Card {
    pub front: String,
    pub back: String,
}

/// A named, ordered collection of cards. The order is the order in which the
/// cards were added, and the order in which they are studied.
#[derive(Clone, Debug, PartialEq, Eq)]
pub struct Deck {
    pub name: String,
    pub cards: Vec<Card>,
}

/// Why an operation on a deck failed.
#[derive(Clone, Copy, Debug, PartialEq, Eq, Structural)]
pub enum DeckError {
    /// No deck stands where one was looked for.
    NotFound,
    /// The file is there, but does not hold a deck.
    Malformed,
    /// A deck is already stored where a new one was to be created.
    Conflict,
    /// The argument names no deck at all.
    InvalidArgument,
}

/// How a save treats a deck that is already stored under the same path.
#[derive(Clone, Copy, Debug, PartialEq, Eq, Structural)]
pub enum DeckSaveMode {
    /// Write only where nothing is stored yet.
    CreateOnly,
    /// Write in any case, replacing what is stored.
    Overwrite,
}

/// The views of a sequence of cards, element by element.
pub open spec fn card_views(cards: Seq<Card>) -> Seq<CardView> {
    Seq::new(cards.len(), |i: int| cards[i]@)
}

/// The answer of a card as it is stored: lowercase, without surrounding
/// whitespace.
pub open spec fn normalized_back(raw: Seq<char>) -> Seq<char> {
    trimmed(case_folded(trimmed(raw)))
}

impl View for Card {
    type V = CardView;

    open spec fn view(&self) -> CardView {
        CardView { front: self.front@, back: self.back@ }
    }
}

impl View for Deck {
    type V = DeckView;

    open spec fn view(&self) -> DeckView {
        DeckView { name: self.name@, cards: card_views(self.cards@) }
    }
}

impl CardView {
    /// Neither side starts or ends with whitespace.
    pub open spec fn is_normalized(self) -> bool {
        is_trimmed(self.front) && is_trimmed(self.back)
    }
}

impl Card {
    /// Makes a card of what was typed: the front without surrounding
    /// whitespace and with its case kept, the back without surrounding
    /// whitespace and in lowercase.
    pub fn from_input(front: &str, back: &str) -> (card: Card)
        ensures
            card@.front == trimmed(front@),
            card@.back == normalized_back(back@),
            card@.is_normalized(),
    {
        let folded = fold_case(trim(back));
        proof {
            lemma_trimmed_is_trimmed(front@);
            lemma_trimmed_is_trimmed(folded@);
        }
        Card { front: trim(front).to_owned(), back: trim(folded.as_str()).to_owned() }
    }

    /// A copy of the card.
    pub fn duplicate(&self) -> (copy: Card)
        ensures
            copy@ == self@,
    {
        Card { front: self.front.clone(), back: self.back.clone() }
    }
}

impl Deck {
    /// A deck with the given name and cards.
    pub fn new(name: String, cards: Vec<Card>) -> (deck: Deck)
        ensures
            deck.name == name,
            deck.cards == cards,
            deck@ == (DeckView { name: name@, cards: card_views(cards@) }),
    {
        Self { name, cards }
    }

    /// A copy of the deck, card by card.
    pub fn duplicate(&self) -> (copy: Deck)
        ensures
            copy@ == self@,
    {
        let mut cards: Vec<Card> = Vec::new();
        let mut i: usize = 0;
        while i < self.cards.len()
            invariant
                i <= self.cards.len(),
                cards.len() == i,
                forall|k: int| 0 <= k < i ==> cards@[k]@ == self.cards@[k]@,
            decreases self.cards.len() - i,
        {
            let card = self.cards[i].duplicate();
            cards.push(card);
            i += 1;
        }
        assert(card_views(cards@) =~= card_views(self.cards@));
        Deck { name: self.name.clone(), cards }
    }
}

/// What a path holds after a save with `mode`, where `before` is what it held
/// before and `document` what was to be written.
pub open spec fn stored_after<T>(before: Option<T>, mode: DeckSaveMode, document: T) -> Option<T> {
    if mode == DeckSaveMode::CreateOnly && before is Some {
        before
    } else {
        Some(document)
    }
}

/// Whether a save with `mode` may write, given whether its path is taken.
pub open spec fn save_allowed(mode: DeckSaveMode, taken: bool) -> bool {
    mode == DeckSaveMode::Overwrite || !taken
}

/// Decides a save before anything is written: a save that only creates is
/// refused with `Conflict` where the path is taken; every other save goes
/// ahead.
pub fn check_save(mode: DeckSaveMode, taken: bool) -> (verdict: Result<(), DeckError>)
    ensures
        verdict is Ok <==> save_allowed(mode, taken),
        verdict is Err ==> verdict == Err::<(), DeckError>(DeckError::Conflict),
{
    match mode {
        DeckSaveMode::Overwrite => Ok(()),
        DeckSaveMode::CreateOnly => if taken {
            Err(DeckError::Conflict)
        } else {
            Ok(())
        },
    }
}

/// A save that only creates never touches a path that is taken: it is
/// refused, and the path holds afterwards what it held before.
pub proof fn lemma_create_only_keeps_existing<T>(existing: T, document: T)
    ensures
        !save_allowed(DeckSaveMode::CreateOnly, true),
        stored_after(Some(existing), DeckSaveMode::CreateOnly, document) == Some(existing),
{
}

/// Where a save is allowed, the path holds afterwards exactly the document
/// that was saved, so loading it again gives that document back; where it is
/// refused, the path is left as it was.
pub proof fn lemma_saved_document_is_stored<T>(before: Option<T>, mode: DeckSaveMode, document: T)
    ensures
        save_allowed(mode, before is Some) ==> stored_after(before, mode, document) == Some(
            document,
        ),
        !save_allowed(mode, before is Some) ==> stored_after(before, mode, document) == before,
        stored_after(before, DeckSaveMode::Overwrite, document) == Some(document),
{
}

} // verus!
