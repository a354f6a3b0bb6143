use rcards::commands::{
    add, argument, check, command_named, failure_message, help, list, new, parse_command, remove,
    select, Command,
};
use rcards::deck::{Card, Deck, DeckError, DeckSaveMode};
use rcards::editor::Prompt;
use rcards::print::{card_rows, command_rows, deck_rows, print_decks, print_flag, Flags};
use rcards::resolver::Vault;
use rcards::vault::VaultEntry;

fn strings(words: &[&str]) -> Vec<String> {
    words.iter().map(|w| w.to_string()).collect()
}

fn colors() -> Deck {
    Deck::new(
        "colors".to_string(),
        vec![Card { front: "Red".to_string(), back: "rouge".to_string() }],
    )
}

#[test]
fn every_command_word_is_known() {
    let table = [
        ("clear", Command::Clear),
        ("list", Command::List),
        ("ls", Command::List),
        ("quit", Command::Quit),
        ("exit", Command::Quit),
        ("q", Command::Quit),
        ("s", Command::Select),
        ("sel", Command::Select),
        ("rm", Command::Remove),
        ("n", Command::New),
        ("new", Command::New),
        ("a", Command::Add),
        ("add", Command::Add),
        ("c", Command::Check),
        ("check", Command::Check),
        ("?", Command::Help),
        ("help", Command::Help),
    ];
    for (word, command) in table {
        assert_eq!(command_named(word), command, "{word}");
    }
    for word in ["", "LS", "select", "remove", "lst", "h"] {
        assert_eq!(command_named(word), Command::Invalid, "{word:?}");
    }
}

#[test]
fn command_line_is_trimmed_and_split_at_spaces() {
    let invocation = parse_command("  sel colors \n");
    assert_eq!(invocation.command, Command::Select);
    assert_eq!(invocation.args, strings(&["sel", "colors"]));

    let invocation = parse_command("new my  deck");
    assert_eq!(invocation.command, Command::New);
    assert_eq!(invocation.args, strings(&["new", "my", "", "deck"]));

    let invocation = parse_command("");
    assert_eq!(invocation.command, Command::Invalid);
    assert_eq!(invocation.args, strings(&[""]));

    let invocation = parse_command("frobnicate 1");
    assert_eq!(invocation.command, Command::Invalid);
}

#[test]
fn argument_is_what_follows_the_command_word() {
    assert_eq!(argument(&strings(&["new", "my", "deck"])), "my deck");
    assert_eq!(argument(&strings(&["rm", "2"])), "2");
    assert_eq!(argument(&strings(&["rm"])), "");
    assert_eq!(argument(&Vec::new()), "");
    assert_eq!(argument(&parse_command("new my  deck").args), "my  deck");
    assert_eq!(remove(&strings(&["rm", "old", "deck"])), "old deck");
}

#[test]
fn select_takes_exactly_one_word() {
    assert_eq!(select(&strings(&["sel", "colors"])), Ok("colors".to_string()));
    assert_eq!(select(&strings(&["s", "0"])), Ok("0".to_string()));
    assert_eq!(select(&strings(&["sel"])), Err(DeckError::InvalidArgument));
    assert_eq!(select(&strings(&["sel", "my", "deck"])), Err(DeckError::InvalidArgument));
    assert_eq!(select(&Vec::new()), Err(DeckError::InvalidArgument));
}

#[test]
fn new_begins_an_empty_deck_in_the_vault() {
    let vault = Vault::new("/v".to_string());
    let draft = new(&strings(&["new", "my", "deck"]), &vault).unwrap();
    assert_eq!(draft.name, "my deck");
    assert_eq!(draft.path, "/v/my deck.rcard");
    assert_eq!(draft.mode, DeckSaveMode::CreateOnly);
    assert!(draft.cards.is_empty());
    assert_eq!(draft.pending_front, None);
    assert_eq!(draft.prompt(), Prompt::Front(1));
}

#[test]
fn new_refuses_a_name_that_reads_as_an_ordinal() {
    let vault = Vault::new("/v".to_string());
    for name in ["7", "0", "+3", "007", "99999999999999999999999999"] {
        assert_eq!(new(&strings(&["new", name]), &vault), Err(DeckError::InvalidArgument), "{name}");
    }
    for name in ["7 wonders", "-1", "seven", ""] {
        let args: Vec<String> = parse_command(&format!("new {name}")).args;
        assert!(new(&args, &vault).is_ok(), "{name:?}");
    }
    assert!(new(&strings(&["new"]), &vault).is_ok());
}

#[test]
fn add_goes_on_from_the_stored_deck() {
    let draft = add(colors(), "/v/colors.rcard".to_string());
    assert_eq!(draft.name, "colors");
    assert_eq!(draft.path, "/v/colors.rcard");
    assert_eq!(draft.mode, DeckSaveMode::Overwrite);
    assert_eq!(draft.cards, colors().cards);
    assert_eq!(draft.initial, 1);
    assert_eq!(draft.prompt(), Prompt::Front(1));
}

#[test]
fn every_failure_has_its_message() {
    assert_eq!(failure_message(DeckError::NotFound, "colors"), "colors does not exist");
    assert_eq!(
        failure_message(DeckError::Malformed, "colors"),
        "colors is not a valid rcard: json formatting error"
    );
    assert_eq!(failure_message(DeckError::Conflict, "colors"), "colors already exists");
    assert_eq!(failure_message(DeckError::InvalidArgument, "colors"), "Invalid deck name");
}

#[test]
fn flags_mark_and_word_their_lines() {
    assert_eq!(Flags::Error.marker(), "[#] ");
    assert_eq!(Flags::Info.marker(), "[#]");
    assert_eq!(print_flag(Flags::Error, "colors does not exist"), "Error: colors does not exist");
    assert_eq!(print_flag(Flags::Info, "Help: "), "Help: ");
}

#[test]
fn records_of_the_tables() {
    assert_eq!(
        deck_rows(&strings(&["colors", "verbs"])),
        vec![strings(&["ID", "Decks"]), strings(&["0", "colors"]), strings(&["1", "verbs"])]
    );
    assert_eq!(deck_rows(&Vec::new()), vec![strings(&["ID", "Decks"])]);
    let many: Vec<String> = (0..12).map(|i| format!("d{i}")).collect();
    assert_eq!(deck_rows(&many)[11], strings(&["10", "d10"]));
    assert_eq!(
        card_rows(&colors()),
        vec![strings(&["Front", "Back"]), strings(&["Red", "rouge"])]
    );
    let words: Vec<Vec<String>> =
        ["Commands", "ls", "sel", "check", "add", "new", "rm", "quit"].iter().map(|w| strings(&[w])).collect();
    assert_eq!(command_rows(), words);
}

#[test]
fn empty_vault_has_no_table() {
    assert_eq!(list(&Vec::new()), None);
    assert_eq!(print_decks(&Vec::new()), None);
    let entries = vec![VaultEntry { file_name: "notes.txt".to_string(), last_accessed: Some(1) }];
    assert_eq!(list(&entries), None);
}

#[test]
fn list_draws_the_decks_most_recent_first() {
    let entries = vec![
        VaultEntry { file_name: "verbs.rcard".to_string(), last_accessed: Some(1) },
        VaultEntry { file_name: "colors.rcard".to_string(), last_accessed: Some(2) },
    ];
    let expected = [
        "                     ",
        "  ╭──────┬──────────╮",
        "  │  ID  │  Decks   │",
        "  ├──────┼──────────┤",
        "  │  0   │  colors  │",
        "  │  1   │  verbs   │",
        "  ╰──────┴──────────╯",
        "                     ",
    ]
    .join("\n");
    assert_eq!(list(&entries), Some(expected.clone()));
    assert_eq!(print_decks(&strings(&["colors", "verbs"])), Some(expected));
}

#[test]
fn check_draws_the_cards() {
    let expected = [
        "                   ",
        "  ╭───────┬───────╮",
        "  │ Front │ Back  │",
        "  ├───────┼───────┤",
        "  │ Red   │ rouge │",
        "  ╰───────┴───────╯",
        "                   ",
    ]
    .join("\n");
    assert_eq!(check(&colors()), expected);
}

#[test]
fn check_wraps_long_text_at_thirty_columns() {
    let deck = Deck::new(
        "long".to_string(),
        vec![Card { front: "x".repeat(45), back: "y".to_string() }],
    );
    let table = check(&deck);
    let widest = table.lines().map(|line| line.chars().count()).max().unwrap();
    assert_eq!(widest, 2 + 1 + 32 + 1 + 6 + 1);
    assert!(table.contains(&"x".repeat(30)));
    assert!(!table.contains(&"x".repeat(31)));
    assert!(table.contains(&format!("│ {}{} │", "x".repeat(15), " ".repeat(15))));
}

#[test]
fn help_draws_the_commands() {
    let expected = [
        "              ",
        "  ╭──────────╮",
        "  │ Commands │",
        "  ├──────────┤",
        "  │ ls       │",
        "  ├──────────┤",
        "  │ sel      │",
        "  ├──────────┤",
        "  │ check    │",
        "  ├──────────┤",
        "  │ add      │",
        "  ├──────────┤",
        "  │ new      │",
        "  ├──────────┤",
        "  │ rm       │",
        "  ├──────────┤",
        "  │ quit     │",
        "  ╰──────────╯",
        "              ",
    ]
    .join("\n");
    assert_eq!(help(), expected);
}
