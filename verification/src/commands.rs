//! The commands of the console: reading a command line, and what each
//! command computes between the caller's dealings with disk and terminal.

use crate::deck::{card_views, Deck, DeckError, DeckSaveMode};
use crate::editor::{new_cards, Draft, DraftView};
use crate::numeral::{numeral_value, parse_ordinal};
use crate::print::{
    card_records, card_table_frame, card_table_width, command_records, deck_records,
    deck_table_frame, modern_table, print_cards, print_commands, print_decks, rounded_table,
};
use crate::resolver::{deck_path_of, Vault};
use crate::text::{is_split_of, join_from, join_with, same_text, split, trim, trimmed, views};
use crate::vault::{entry_views, get_decks, listing, VaultEntry};
use vstd::prelude::*;

verus! {

/// A command of the console.
#[derive(Clone, Copy, Debug, PartialEq, Eq, Structural)]
pub enum Command {
    Clear,
    List,
    Quit,
    Select,
    Remove,
    New,
    Add,
    Check,
    Help,
    /// The line names no command.
    Invalid,
}

/// A command line, read: the command, and the words of the line. The first
/// word is the one that named the command.
#[derive(Debug, PartialEq, Eq)]
pub struct Invocation {
    pub command: Command,
    pub args: Vec<String>,
}

/// The command that a word names.
pub open spec fn command_of(word: Seq<char>) -> Command {
    if word == "clear"@ {
        Command::Clear
    } else if word == "list"@ || word == "ls"@ {
        Command::List
    } else if word == "quit"@ || word == "exit"@ || word == "q"@ {
        Command::Quit
    } else if word == "s"@ || word == "sel"@ {
        Command::Select
    } else if word == "rm"@ {
        Command::Remove
    } else if word == "n"@ || word == "new"@ {
        Command::New
    } else if word == "a"@ || word == "add"@ {
        Command::Add
    } else if word == "c"@ || word == "check"@ {
        Command::Check
    } else if word == "?"@ || word == "help"@ {
        Command::Help
    } else {
        Command::Invalid
    }
}

/// What a command is given to work on: the words after the first, put
/// together again with one space between them.
pub open spec fn argument_of(args: Seq<Seq<char>>) -> Seq<char> {
    if args.len() >= 1 {
        join_with(args.subrange(1, args.len() as int), " "@)
    } else {
        Seq::empty()
    }
}

/// The token that `select` works on: the one word after the command. A line
/// with no such word, or with more than one, names no deck.
pub open spec fn selection_of(args: Seq<Seq<char>>) -> Result<Seq<char>, DeckError> {
    if args.len() == 2 {
        Ok(args[1])
    } else {
        Err(DeckError::InvalidArgument)
    }
}

/// What is said of a failure on the deck that `token` stands for.
pub open spec fn failure_text(error: DeckError, token: Seq<char>) -> Seq<char> {
    match error {
        DeckError::NotFound => token + " does not exist"@,
        DeckError::Malformed => token + " is not a valid rcard: json formatting error"@,
        DeckError::Conflict => token + " already exists"@,
        DeckError::InvalidArgument => "Invalid deck name"@,
    }
}

/// The command that `word` names.
pub fn command_named(word: &str) -> (command: Command)
    ensures
        command == command_of(word@),
{
    if same_text(word, "clear") {
        Command::Clear
    } else if same_text(word, "list") || same_text(word, "ls") {
        Command::List
    } else if same_text(word, "quit") || same_text(word, "exit") || same_text(word, "q") {
        Command::Quit
    } else if same_text(word, "s") || same_text(word, "sel") {
        Command::Select
    } else if same_text(word, "rm") {
        Command::Remove
    } else if same_text(word, "n") || same_text(word, "new") {
        Command::New
    } else if same_text(word, "a") || same_text(word, "add") {
        Command::Add
    } else if same_text(word, "c") || same_text(word, "check") {
        Command::Check
    } else if same_text(word, "?") || same_text(word, "help") {
        Command::Help
    } else {
        Command::Invalid
    }
}

/// Reads a command line: the line without surrounding whitespace is split at
/// each space, and the first word names the command.
pub fn parse_command(line: &str) -> (invocation: Invocation)
    ensures
        is_split_of(views(invocation.args@), trimmed(line@), ' '),
        invocation.command == command_of(views(invocation.args@)[0]),
{
    let args = split(trim(line), ' ');
    let command = command_named(args[0].as_str());
    Invocation { command, args }
}

/// What a command is given to work on.
pub fn argument(args: &Vec<String>) -> (text: String)
    ensures
        text@ == argument_of(views(args@)),
{
    if args.len() >= 1 {
        join_from(args, 1, " ")
    } else {
        String::new()
    }
}

/// What is said of a failure on the deck that `token` stands for.
pub fn failure_message(error: DeckError, token: &str) -> (text: String)
    ensures
        text@ == failure_text(error, token@),
{
    match error {
        DeckError::NotFound => {
            let mut text = token.to_owned();
            text.append(" does not exist");
            text
        },
        DeckError::Malformed => {
            let mut text = token.to_owned();
            text.append(" is not a valid rcard: json formatting error");
            text
        },
        DeckError::Conflict => {
            let mut text = token.to_owned();
            text.append(" already exists");
            text
        },
        DeckError::InvalidArgument => "Invalid deck name".to_owned(),
    }
}

/// `list`: the table of the decks in the vault, most recently used first, or
/// `None` where the vault holds no deck.
pub fn list(entries: &Vec<VaultEntry>) -> (table: Option<String>)
    ensures
        table is None <==> listing(entry_views(entries@)).len() == 0,
        table matches Some(text) ==> text@ == rounded_table(
            deck_records(listing(entry_views(entries@))),
            deck_table_frame().0,
            deck_table_frame().1,
        ),
{
    let decks = get_decks(entries);
    assert(views(decks@).len() == decks.len());
    print_decks(&decks)
}

/// `select`: the token of the deck to study. The command takes exactly one
/// word; the session is then run on the deck that the token resolves to.
pub fn select(args: &Vec<String>) -> (token: Result<String, DeckError>)
    ensures
        token is Ok <==> selection_of(views(args@)) is Ok,
        token matches Ok(t) ==> selection_of(views(args@)) == Ok::<Seq<char>, DeckError>(t@),
        token matches Err(e) ==> e == DeckError::InvalidArgument,
{
    if args.len() != 2 {
        return Err(DeckError::InvalidArgument);
    }
    Ok(args[1].clone())
}

/// `rm`: the token of the deck to delete.
pub fn remove(args: &Vec<String>) -> (token: String)
    ensures
        token@ == argument_of(views(args@)),
{
    argument(args)
}

/// Whether a name is reserved: a numeral always stands for an ordinal, so a
/// deck of that name could never be reached by its name.
pub open spec fn is_reserved_name(name: Seq<char>) -> bool {
    numeral_value(name) is Some
}

/// `new`: the draft of a deck that does not exist yet. The deck is named by
/// the words after the command, it has no card, and it is stored in the
/// vault under its name without replacing what may be stored there. A
/// reserved name is refused with `InvalidArgument`.
pub fn new(args: &Vec<String>, vault: &Vault) -> (draft: Result<Draft, DeckError>)
    ensures
        draft is Ok <==> !is_reserved_name(argument_of(views(args@))),
        draft matches Ok(d) ==> d@ == (DraftView {
            name: argument_of(views(args@)),
            cards: Seq::empty(),
            path: deck_path_of(vault.root@, argument_of(views(args@))),
            mode: DeckSaveMode::CreateOnly,
            initial: 0,
            pending_front: None,
        }),
        draft matches Err(e) ==> e == DeckError::InvalidArgument,
{
    let deck_name = argument(args);
    if parse_ordinal(deck_name.as_str()).is_some() {
        return Err(DeckError::InvalidArgument);
    }
    let path = vault.deck_path(deck_name.as_str());
    let cards = Vec::new();
    assert(card_views(cards@) =~= Seq::empty());
    Ok(new_cards(cards, deck_name, path, DeckSaveMode::CreateOnly))
}

/// `add`: the draft that adds cards to a stored deck. It begins with the
/// deck's name and cards, and it is stored at the path that the deck was
/// loaded from, replacing what is stored there.
pub fn add(deck: Deck, path: String) -> (draft: Draft)
    ensures
        draft@ == (DraftView {
            name: deck@.name,
            cards: deck@.cards,
            path: path@,
            mode: DeckSaveMode::Overwrite,
            initial: deck@.cards.len(),
            pending_front: None,
        }),
{
    new_cards(deck.cards, deck.name, path, DeckSaveMode::Overwrite)
}

/// `check`: the table of the cards of a deck.
pub fn check(deck: &Deck) -> (table: String)
    ensures
        table@ == modern_table(
            card_records(deck@.cards),
            card_table_frame().0,
            card_table_frame().1,
            card_table_width(),
        ),
{
    print_cards(deck)
}

/// `help`: the table of commands.
pub fn help() -> (table: String)
    ensures
        table@ == modern_table(
            command_records(),
            card_table_frame().0,
            card_table_frame().1,
            card_table_width(),
        ),
{
    print_commands()
}

} // verus!
