//! The deck resolver: from what a user typed to the path of a deck file.
//!
//! A token that reads as a non-negative integer is an ordinal: a position in
//! the current listing of the vault. Any other token is the name of a deck.
//! The two never collide, at a price: a deck whose name is an integer cannot
//! be reached by its name.
//!
//! The resolver does not touch the disk. It says what it needs to know, the
//! caller finds it out and asks again.

use crate::deck::DeckError;
use crate::numeral::{numeral_value, parse_ordinal, saturated};
use crate::vault::deck_suffix;
use vstd::prelude::*;

verus! {

/// Where the decks are stored: the root directory of the vault.
#[derive(Clone, Debug, PartialEq, Eq)]
pub struct Vault {
    pub root: String,
}

/// What a token stands for.
#[derive(Clone, Debug, PartialEq, Eq)]
pub enum Token {
    /// A position in the listing. A position beyond the largest `usize` is
    /// held as the largest `usize`, which is beyond every listing too.
    Ordinal(usize),
    /// The name of a deck.
    Name(String),
}

/// What a token stands for, as plain values.
pub enum TokenView {
    Ordinal(nat),
    Name(Seq<char>),
}

/// What the resolver asks of its caller, or its answer.
#[derive(Clone, Debug, PartialEq, Eq)]
pub enum Lookup {
    /// The listing of the vault is needed.
    ReadIndex,
    /// It must be known whether a file stands at this path.
    Probe(String),
    /// The token resolves to this path, and a file stands there.
    Found(String),
    /// The token resolves to no deck.
    NotFound,
}

/// The resolver's question or answer, as plain values.
pub enum LookupView {
    ReadIndex,
    Probe(Seq<char>),
    Found(Seq<char>),
    NotFound,
}

impl View for Lookup {
    type V = LookupView;

    open spec fn view(&self) -> LookupView {
        match self {
            Lookup::ReadIndex => LookupView::ReadIndex,
            Lookup::Probe(path) => LookupView::Probe(path@),
            Lookup::Found(path) => LookupView::Found(path@),
            Lookup::NotFound => LookupView::NotFound,
        }
    }
}

impl View for Token {
    type V = TokenView;

    open spec fn view(&self) -> TokenView {
        match self {
            Token::Ordinal(n) => TokenView::Ordinal(*n as nat),
            Token::Name(name) => TokenView::Name(name@),
        }
    }
}

/// The name of the vault directory below the user's home directory.
pub open spec fn vault_directory() -> Seq<char> {
    "/.rcard_vault"@
}

/// The path of the file that stores the deck `name` in the vault at `root`.
pub open spec fn deck_path_of(root: Seq<char>, name: Seq<char>) -> Seq<char> {
    root + "/"@ + name + deck_suffix()
}

/// What a token stands for: an ordinal where it is a numeral, else a name.
pub open spec fn token_of(token: Seq<char>) -> TokenView {
    match numeral_value(token) {
        Some(n) => TokenView::Ordinal(n),
        None => TokenView::Name(token),
    }
}

/// The path that a token points at, before the disk is asked: for an ordinal
/// the path of the deck at that position of the listing, if there is one; for
/// a name the path of the deck of that name, whatever the listing holds.
pub open spec fn candidate_path(root: Seq<char>, token: Seq<char>, listing: Seq<Seq<char>>)
    -> Option<Seq<char>> {
    match token_of(token) {
        TokenView::Ordinal(n) => if n < listing.len() {
            Some(deck_path_of(root, listing[n as int]))
        } else {
            None
        },
        TokenView::Name(name) => Some(deck_path_of(root, name)),
    }
}

/// The path that a token resolves to, given the listing and the set of paths
/// at which a file stands: the candidate path, if a file stands there.
pub open spec fn resolved(
    root: Seq<char>,
    token: Seq<char>,
    listing: Seq<Seq<char>>,
    present: Set<Seq<char>>,
) -> Result<Seq<char>, DeckError> {
    match candidate_path(root, token, listing) {
        Some(path) => if present.contains(path) {
            Ok(path)
        } else {
            Err(DeckError::NotFound)
        },
        None => Err(DeckError::NotFound),
    }
}

/// The next step of a resolution, given what is known so far: the listing if
/// it has been read, and whether a file stands at the candidate path if that
/// has been probed.
pub open spec fn next_lookup(
    root: Seq<char>,
    token: Seq<char>,
    index: Option<Seq<Seq<char>>>,
    present: Option<bool>,
) -> LookupView {
    if token_of(token) is Ordinal && index is None {
        LookupView::ReadIndex
    } else {
        let listing = match index {
            Some(listing) => listing,
            None => Seq::empty(),
        };
        match candidate_path(root, token, listing) {
            None => LookupView::NotFound,
            Some(path) => match present {
                None => LookupView::Probe(path),
                Some(true) => LookupView::Found(path),
                Some(false) => LookupView::NotFound,
            },
        }
    }
}

/// The last step of a resolution that ended with `result`.
pub open spec fn outcome_of(result: Result<Seq<char>, DeckError>) -> LookupView {
    match result {
        Ok(path) => LookupView::Found(path),
        Err(_) => LookupView::NotFound,
    }
}

// ---------------------------------------------------------------------------
// What holds of every resolution
// ---------------------------------------------------------------------------

/// Ordinals within the listing point at the deck listed at their position,
/// and resolve to it where its file stands; an ordinal that is the listing's
/// length or larger resolves to nothing, whatever is on disk.
pub proof fn lemma_ordinal_resolution(
    root: Seq<char>,
    token: Seq<char>,
    listing: Seq<Seq<char>>,
    present: Set<Seq<char>>,
)
    requires
        numeral_value(token) is Some,
    ensures
        numeral_value(token).unwrap() < listing.len() ==> candidate_path(root, token, listing)
            == Some(deck_path_of(root, listing[numeral_value(token).unwrap() as int])),
        numeral_value(token).unwrap() < listing.len() && present.contains(
            deck_path_of(root, listing[numeral_value(token).unwrap() as int]),
        ) ==> resolved(root, token, listing, present) == Ok::<Seq<char>, DeckError>(
            deck_path_of(root, listing[numeral_value(token).unwrap() as int]),
        ),
        numeral_value(token).unwrap() >= listing.len() ==> resolved(root, token, listing, present)
            == Err::<Seq<char>, DeckError>(DeckError::NotFound),
{
}

/// A name is resolved without the listing: with the same files on disk, two
/// different listings give the same result. Only whether a file stands at the
/// deck's own path counts, so what happens to other decks changes nothing.
pub proof fn lemma_name_resolution_ignores_listing(
    root: Seq<char>,
    token: Seq<char>,
    listing: Seq<Seq<char>>,
    present: Set<Seq<char>>,
    other_listing: Seq<Seq<char>>,
    other_present: Set<Seq<char>>,
)
    requires
        numeral_value(token) is None,
        present.contains(deck_path_of(root, token)) == other_present.contains(
            deck_path_of(root, token),
        ),
    ensures
        candidate_path(root, token, listing) == Some(deck_path_of(root, token)),
        resolved(root, token, listing, present) == resolved(
            root,
            token,
            other_listing,
            other_present,
        ),
        next_lookup(root, token, None, None) == LookupView::Probe(deck_path_of(root, token)),
{
}

/// A resolution that is given the listing and the answer of the disk ends
/// with the path that the token resolves to.
pub proof fn lemma_lookup_ends_resolved(
    root: Seq<char>,
    token: Seq<char>,
    listing: Seq<Seq<char>>,
    present: Set<Seq<char>>,
)
    ensures
        candidate_path(root, token, listing) matches Some(path) ==> next_lookup(
            root,
            token,
            Some(listing),
            Some(present.contains(path)),
        ) == outcome_of(resolved(root, token, listing, present)),
        candidate_path(root, token, listing) is None ==> next_lookup(
            root,
            token,
            Some(listing),
            None,
        ) == outcome_of(resolved(root, token, listing, present)),
{
}

// ---------------------------------------------------------------------------
// The resolver
// ---------------------------------------------------------------------------

impl Vault {
    /// The vault at `root`.
    pub fn new(root: String) -> (vault: Vault)
        ensures
            vault.root == root,
    {
        Vault { root }
    }

    /// The vault of the user whose home directory is `home`.
    pub fn in_home(home: &str) -> (vault: Vault)
        ensures
            vault.root@ == home@ + vault_directory(),
    {
        let mut root = home.to_owned();
        root.append("/.rcard_vault");
        Vault { root }
    }

    /// The path of the file that stores the deck `name`.
    pub fn deck_path(&self, name: &str) -> (path: String)
        ensures
            path@ == deck_path_of(self.root@, name@),
    {
        let mut path = self.root.clone();
        path.append("/");
        path.append(name);
        path.append(".rcard");
        path
    }
}

/// Tells an ordinal from a name.
pub fn classify(token: &str) -> (kind: Token)
    ensures
        match kind {
            Token::Ordinal(n) => token_of(token@) matches TokenView::Ordinal(value) && n
                == saturated(value),
            Token::Name(name) => token_of(token@) == TokenView::Name(token@) && name@ == token@,
        },
{
    match parse_ordinal(token) {
        Some(n) => Token::Ordinal(n),
        None => Token::Name(token.to_owned()),
    }
}

/// The path of the deck at position `id` of the listing `decks`, or
/// `NotFound` where the listing has no such position.
pub fn deck_path_from_id(vault: &Vault, id: usize, decks: &Vec<String>) -> (path: Result<
    String,
    DeckError,
>)
    ensures
        path is Ok <==> id < decks.len(),
        path matches Ok(p) ==> p@ == deck_path_of(vault.root@, decks@[id as int]@),
        path matches Err(e) ==> e == DeckError::NotFound,
{
    if id < decks.len() {
        Ok(vault.deck_path(decks[id].as_str()))
    } else {
        Err(DeckError::NotFound)
    }
}

/// The path of the deck called `name`. The listing is not asked.
pub fn deck_path_from_name(vault: &Vault, name: &str) -> (path: String)
    ensures
        path@ == deck_path_of(vault.root@, name@),
{
    vault.deck_path(name)
}

/// The listing as plain values, where it has been read.
pub open spec fn index_view(index: Option<&Vec<String>>) -> Option<Seq<Seq<char>>> {
    match index {
        Some(decks) => Some(crate::text::views(decks@)),
        None => None,
    }
}

/// One step of resolving `guess` to the path of a deck file.
///
/// `index` is the listing of the vault, if the caller has read it; `present`
/// says whether a file stands at the path that the last step asked about, if
/// the caller has looked. The result says what to find out next, or how the
/// resolution ended: with the path of a file that stands on disk, or with
/// `NotFound`. An ordinal needs the listing, then the disk; a name needs the
/// disk only.
pub fn get_deckpath(
    vault: &Vault,
    guess: &str,
    index: Option<&Vec<String>>,
    present: Option<bool>,
) -> (step: Lookup)
    ensures
        step@ == next_lookup(vault.root@, guess@, index_view(index), present),
{
    let candidate = match classify(guess) {
        Token::Ordinal(id) => match index {
            None => {
                return Lookup::ReadIndex;
            },
            Some(decks) => {
                assert(numeral_value(guess@).unwrap() < decks.len() <==> id < decks.len());
                assert(id < decks.len() ==> crate::text::views(decks@)[id as int]
                    == decks@[id as int]@);
                deck_path_from_id(vault, id, decks)
            },
        },
        Token::Name(name) => Ok(deck_path_from_name(vault, name.as_str())),
    };
    match candidate {
        Err(_) => Lookup::NotFound,
        Ok(path) => match present {
            None => Lookup::Probe(path),
            Some(true) => Lookup::Found(path),
            Some(false) => Lookup::NotFound,
        },
    }
}

} // verus!
