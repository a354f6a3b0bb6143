//! What is shown to the user: the tables of decks, cards and commands, and
//! the lines that report an error or a hint. The library composes the text;
//! putting it on a terminal is the caller's part.

use crate::deck::{card_views, CardView, Deck};
use crate::numeral::{decimal_digits, decimal_string};
use crate::text::views;
use vstd::prelude::*;

verus! {

/// The kind of a line shown to the user.
#[derive(Clone, Copy, Debug, PartialEq, Eq, Structural)]
pub enum Flags {
    Error,
    Info,
}

/// Space on the four sides of something, in character cells.
#[derive(Clone, Copy, Debug, PartialEq, Eq, Structural)]
pub struct Sides {
    pub left: usize,
    pub right: usize,
    pub top: usize,
    pub bottom: usize,
}

impl View for Sides {
    type V = (nat, nat, nat, nat);

    open spec fn view(&self) -> (nat, nat, nat, nat) {
        (self.left as nat, self.right as nat, self.top as nat, self.bottom as nat)
    }
}

/// The records of a table as plain values: rows of cells of text.
pub open spec fn record_views(records: Seq<Vec<String>>) -> Seq<Seq<Seq<char>>> {
    Seq::new(records.len(), |i: int| views(records[i]@))
}

/// The text of the table that `tabled` draws of `records` in its rounded
/// style, the first row centred, with the given padding in each cell and the
/// given margin around the table.
pub uninterp spec fn rounded_table(
    records: Seq<Seq<Seq<char>>>,
    padding: (nat, nat, nat, nat),
    margin: (nat, nat, nat, nat),
) -> Seq<char>;

/// The text of the table that `tabled` draws of `records` in its modern
/// rounded style, the first row centred, with the given padding and margin,
/// the text of each cell wrapped at `width` columns.
pub uninterp spec fn modern_table(
    records: Seq<Seq<Seq<char>>>,
    padding: (nat, nat, nat, nat),
    margin: (nat, nat, nat, nat),
    width: nat,
) -> Seq<char>;

/// Draws a table with `tabled`: `Builder::from` and `Builder::build` make
/// the table of the records, `Table::with` sets `Style::rounded`, the padding
/// and the margin, `Table::modify` centres the first row, and the table's
/// `to_string` gives the text. Trusted: the text depends on the arguments
/// alone.
#[verifier::external_body]
fn draw_rounded(records: &Vec<Vec<String>>, padding: Sides, margin: Sides) -> (text: String)
    ensures
        text@ == rounded_table(record_views(records@), padding@, margin@),
{
    let mut table = tabled::builder::Builder::from(records.clone()).build();
    table.with(tabled::settings::Style::rounded());
    table.with(
        tabled::settings::Padding::new(padding.left, padding.right, padding.top, padding.bottom),
    );
    table.modify(tabled::settings::object::FirstRow, tabled::settings::Alignment::center());
    table.with(tabled::settings::Margin::new(margin.left, margin.right, margin.top, margin.bottom));
    table.to_string()
}

/// Draws a table with `tabled` as `draw_rounded` does, but in
/// `Style::modern_rounded`, and with `Width::wrap` applied to every cell
/// through `Modify::new(Segment::all())`. Trusted: the text depends on the
/// arguments alone.
#[verifier::external_body]
fn draw_modern(records: &Vec<Vec<String>>, padding: Sides, margin: Sides, width: usize) -> (text:
    String)
    ensures
        text@ == modern_table(record_views(records@), padding@, margin@, width as nat),
{
    let mut table = tabled::builder::Builder::from(records.clone()).build();
    table.with(tabled::settings::Style::modern_rounded());
    table.with(
        tabled::settings::Padding::new(padding.left, padding.right, padding.top, padding.bottom),
    );
    table.modify(tabled::settings::object::FirstRow, tabled::settings::Alignment::center());
    table.with(tabled::settings::Margin::new(margin.left, margin.right, margin.top, margin.bottom));
    table.with(
        tabled::settings::Modify::new(tabled::settings::object::Segment::all()).with(
            tabled::settings::Width::wrap(width),
        ),
    );
    table.to_string()
}

/// One row of a table.
fn row_of_two(first: String, second: String) -> (row: Vec<String>)
    ensures
        views(row@) == seq![first@, second@],
{
    let mut row: Vec<String> = Vec::new();
    row.push(first);
    row.push(second);
    assert(views(row@) =~= seq![first@, second@]);
    row
}

/// The padding of the cells and the margin of the table of decks.
pub open spec fn deck_table_frame() -> ((nat, nat, nat, nat), (nat, nat, nat, nat)) {
    ((2, 2, 0, 0), (2, 0, 1, 1))
}

/// The padding and the margin of the tables of cards and of commands.
pub open spec fn card_table_frame() -> ((nat, nat, nat, nat), (nat, nat, nat, nat)) {
    ((1, 1, 0, 0), (2, 0, 1, 1))
}

/// The width at which the text of a cell is wrapped in the tables of cards
/// and of commands.
pub open spec fn card_table_width() -> nat {
    30
}

/// The records of the table of decks: a heading, then one row per deck with
/// its ordinal and its name.
pub open spec fn deck_records(decks: Seq<Seq<char>>) -> Seq<Seq<Seq<char>>> {
    seq![seq!["ID"@, "Decks"@]] + Seq::new(
        decks.len(),
        |i: int| seq![decimal_digits(i as nat), decks[i]],
    )
}

/// The records of the table of cards: a heading, then one row per card with
/// its front and its back.
pub open spec fn card_records(cards: Seq<CardView>) -> Seq<Seq<Seq<char>>> {
    seq![seq!["Front"@, "Back"@]] + Seq::new(
        cards.len(),
        |i: int| seq![cards[i].front, cards[i].back],
    )
}

/// The commands that the table of commands lists, in its order.
pub open spec fn command_words() -> Seq<Seq<char>> {
    seq!["ls"@, "sel"@, "check"@, "add"@, "new"@, "rm"@, "quit"@]
}

/// The records of the table of commands: a heading, then one row per command.
pub open spec fn command_records() -> Seq<Seq<Seq<char>>> {
    seq![seq!["Commands"@]] + Seq::new(command_words().len(), |i: int| seq![command_words()[i]])
}

/// The records of the table of decks.
pub fn deck_rows(decks: &Vec<String>) -> (records: Vec<Vec<String>>)
    ensures
        record_views(records@) == deck_records(views(decks@)),
{
    let mut records: Vec<Vec<String>> = Vec::new();
    records.push(row_of_two("ID".to_owned(), "Decks".to_owned()));
    let mut i: usize = 0;
    while i < decks.len()
        invariant
            i <= decks.len(),
            records.len() == i + 1,
            record_views(records@) == deck_records(views(decks@)).take(i + 1),
        decreases decks.len() - i,
    {
        let row = row_of_two(decimal_string(i), decks[i].clone());
        proof {
            assert(record_views(records@.push(row)) =~= deck_records(views(decks@)).take(i + 2));
        }
        records.push(row);
        i += 1;
    }
    assert(deck_records(views(decks@)).take(decks.len() + 1) =~= deck_records(views(decks@)));
    records
}

/// The records of the table of the cards of a deck.
pub fn card_rows(deck: &Deck) -> (records: Vec<Vec<String>>)
    ensures
        record_views(records@) == card_records(deck@.cards),
{
    let mut records: Vec<Vec<String>> = Vec::new();
    records.push(row_of_two("Front".to_owned(), "Back".to_owned()));
    let mut i: usize = 0;
    while i < deck.cards.len()
        invariant
            i <= deck.cards.len(),
            records.len() == i + 1,
            record_views(records@) == card_records(deck@.cards).take(i + 1),
        decreases deck.cards.len() - i,
    {
        let row = row_of_two(deck.cards[i].front.clone(), deck.cards[i].back.clone());
        proof {
            assert(card_views(deck.cards@)[i as int] == deck.cards@[i as int]@);
            assert(record_views(records@.push(row)) =~= card_records(deck@.cards).take(i + 2));
        }
        records.push(row);
        i += 1;
    }
    assert(card_records(deck@.cards).take(deck.cards.len() + 1) =~= card_records(deck@.cards));
    records
}

/// The records of the table of commands.
pub fn command_rows() -> (records: Vec<Vec<String>>)
    ensures
        record_views(records@) == command_records(),
{
    let words = ["Commands", "ls", "sel", "check", "add", "new", "rm", "quit"];
    let mut records: Vec<Vec<String>> = Vec::new();
    let mut i: usize = 0;
    while i < 8
        invariant
            i <= 8,
            records.len() == i,
            words@ == seq!["Commands", "ls", "sel", "check", "add", "new", "rm", "quit"],
            forall|k: int| 0 <= k < i ==> views(#[trigger] records@[k]@) == seq![words@[k]@],
        decreases 8 - i,
    {
        let mut row: Vec<String> = Vec::new();
        row.push(words[i].to_owned());
        assert(views(row@) =~= seq![words@[i as int]@]);
        records.push(row);
        i += 1;
    }
    assert(record_views(records@) =~= command_records());
    records
}

/// The table of decks as text, or `None` where there is no deck to show.
pub fn print_decks(decks: &Vec<String>) -> (table: Option<String>)
    ensures
        table is None <==> decks.len() == 0,
        table matches Some(text) ==> text@ == rounded_table(
            deck_records(views(decks@)),
            deck_table_frame().0,
            deck_table_frame().1,
        ),
{
    if decks.len() == 0 {
        return None;
    }
    let records = deck_rows(decks);
    let padding = Sides { left: 2, right: 2, top: 0, bottom: 0 };
    let margin = Sides { left: 2, right: 0, top: 1, bottom: 1 };
    Some(draw_rounded(&records, padding, margin))
}

/// The table of the cards of a deck as text.
pub fn print_cards(deck: &Deck) -> (table: String)
    ensures
        table@ == modern_table(
            card_records(deck@.cards),
            card_table_frame().0,
            card_table_frame().1,
            card_table_width(),
        ),
{
    let records = card_rows(deck);
    let padding = Sides { left: 1, right: 1, top: 0, bottom: 0 };
    let margin = Sides { left: 2, right: 0, top: 1, bottom: 1 };
    draw_modern(&records, padding, margin, 30)
}

/// The table of commands as text.
pub fn print_commands() -> (table: String)
    ensures
        table@ == modern_table(
            command_records(),
            card_table_frame().0,
            card_table_frame().1,
            card_table_width(),
        ),
{
    let records = command_rows();
    let padding = Sides { left: 1, right: 1, top: 0, bottom: 0 };
    let margin = Sides { left: 2, right: 0, top: 1, bottom: 1 };
    draw_modern(&records, padding, margin, 30)
}

impl Flags {
    /// The mark that opens a line of this kind. The caller may colour it.
    pub fn marker(self) -> (mark: &'static str)
        ensures
            mark@ == flag_marker(self),
    {
        match self {
            Flags::Error => "[#] ",
            Flags::Info => "[#]",
        }
    }
}

/// The mark that opens a line of the given kind.
pub open spec fn flag_marker(flag: Flags) -> Seq<char> {
    match flag {
        Flags::Error => "[#] "@,
        Flags::Info => "[#]"@,
    }
}

/// What follows the mark in a line of the given kind.
pub open spec fn flag_line(flag: Flags, text: Seq<char>) -> Seq<char> {
    match flag {
        Flags::Error => "Error: "@ + text,
        Flags::Info => text,
    }
}

/// The line that reports `text` as an error or as a hint, without the mark
/// that opens it.
pub fn print_flag(flag: Flags, text: &str) -> (line: String)
    ensures
        line@ == flag_line(flag, text@),
{
    match flag {
        Flags::Error => {
            let mut line = "Error: ".to_owned();
            line.append(text);
            line
        },
        Flags::Info => text.to_owned(),
    }
}

} // verus!
