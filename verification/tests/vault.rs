use rcards::deck::DeckError;
use rcards::resolver::{
    classify, deck_path_from_id, deck_path_from_name, get_deckpath, Lookup, Token, Vault,
};
use rcards::vault::{deck_extension, deck_name, get_decks, text_comes_first, VaultEntry};

fn entry(file_name: &str, last_accessed: Option<u128>) -> VaultEntry {
    VaultEntry { file_name: file_name.to_string(), last_accessed }
}

fn names(words: &[&str]) -> Vec<String> {
    words.iter().map(|w| w.to_string()).collect()
}

/// Drives a resolution to its end against a listing and a set of paths that exist.
fn resolve(vault: &Vault, guess: &str, decks: &Vec<String>, on_disk: &[&str]) -> Result<String, DeckError> {
    let mut index: Option<&Vec<String>> = None;
    let mut present: Option<bool> = None;
    for _ in 0..3 {
        match get_deckpath(vault, guess, index, present) {
            Lookup::ReadIndex => index = Some(decks),
            Lookup::Probe(path) => present = Some(on_disk.contains(&path.as_str())),
            Lookup::Found(path) => return Ok(path),
            Lookup::NotFound => return Err(DeckError::NotFound),
        }
    }
    panic!("a resolution takes at most three steps");
}

#[test]
fn empty_vault_lists_nothing() {
    assert_eq!(get_decks(&Vec::new()), Vec::<String>::new());
}

#[test]
fn listing_is_most_recent_first() {
    let entries = vec![
        entry("old.rcard", Some(10)),
        entry("new.rcard", Some(30)),
        entry("mid.rcard", Some(20)),
    ];
    assert_eq!(get_decks(&entries), names(&["new", "mid", "old"]));
}

#[test]
fn listing_keeps_only_deck_files_and_strips_the_extension() {
    let entries = vec![
        entry("notes.txt", Some(50)),
        entry("colors.rcard", Some(40)),
        entry(".rcard", Some(30)),
        entry("rcard", Some(20)),
        entry("a.rcard.bak", Some(10)),
        entry("b.RCARD", Some(5)),
        entry("c.rcard.rcard", Some(1)),
    ];
    assert_eq!(get_decks(&entries), names(&["colors", "", "c.rcard"]));
}

#[test]
fn equal_times_fall_back_to_the_name() {
    let entries = vec![
        entry("b.rcard", Some(7)),
        entry("c.rcard", Some(7)),
        entry("a.rcard", Some(7)),
        entry("first.rcard", Some(8)),
    ];
    assert_eq!(get_decks(&entries), names(&["first", "a", "b", "c"]));
}

#[test]
fn unknown_times_come_last_in_name_order() {
    let entries = vec![
        entry("z.rcard", None),
        entry("known.rcard", Some(0)),
        entry("a.rcard", None),
    ];
    assert_eq!(get_decks(&entries), names(&["known", "a", "z"]));
}

#[test]
fn listing_does_not_depend_on_the_order_of_the_entries() {
    let a = vec![entry("x.rcard", Some(1)), entry("y.rcard", Some(2)), entry("w.rcard", Some(2))];
    let b = vec![entry("w.rcard", Some(2)), entry("x.rcard", Some(1)), entry("y.rcard", Some(2))];
    assert_eq!(get_decks(&a), get_decks(&b));
    assert_eq!(get_decks(&a), names(&["w", "y", "x"]));
}

#[test]
fn two_files_with_one_name_are_both_listed() {
    let entries = vec![entry("same.rcard", Some(1)), entry("same.rcard", Some(2))];
    assert_eq!(get_decks(&entries), names(&["same", "same"]));
}

#[test]
fn deck_name_strips_the_extension() {
    assert_eq!(deck_extension(), ".rcard");
    assert_eq!(deck_name("colors.rcard"), Some("colors".to_string()));
    assert_eq!(deck_name("été.rcard"), Some("été".to_string()));
    assert_eq!(deck_name(".rcard"), Some(String::new()));
    assert_eq!(deck_name("colors"), None);
    assert_eq!(deck_name("card"), None);
    assert_eq!(deck_name(""), None);
}

#[test]
fn dictionary_order_agrees_with_std() {
    let samples = ["", "a", "ab", "b", "B", "é", "a.b", "aa", "日本"];
    for a in samples {
        for b in samples {
            assert_eq!(text_comes_first(a, b), a <= b, "{a:?} {b:?}");
        }
    }
}

#[test]
fn vault_paths() {
    let vault = Vault::in_home("/home/ann");
    assert_eq!(vault.root, "/home/ann/.rcard_vault");
    assert_eq!(vault.deck_path("colors"), "/home/ann/.rcard_vault/colors.rcard");
    assert_eq!(Vault::new("/tmp/v".to_string()).deck_path("a b"), "/tmp/v/a b.rcard");
    assert_eq!(deck_path_from_name(&vault, "x"), "/home/ann/.rcard_vault/x.rcard");
}

#[test]
fn tokens_are_ordinals_or_names() {
    assert_eq!(classify("0"), Token::Ordinal(0));
    assert_eq!(classify("12"), Token::Ordinal(12));
    assert_eq!(classify("+3"), Token::Ordinal(3));
    assert_eq!(classify("colors"), Token::Name("colors".to_string()));
    assert_eq!(classify("-1"), Token::Name("-1".to_string()));
    assert_eq!(classify("2nd"), Token::Name("2nd".to_string()));
    assert_eq!(classify(""), Token::Name(String::new()));
    assert_eq!(classify("99999999999999999999999999"), Token::Ordinal(usize::MAX));
}

#[test]
fn path_from_id_needs_a_listed_position() {
    let vault = Vault::new("/v".to_string());
    let decks = names(&["a", "b"]);
    assert_eq!(deck_path_from_id(&vault, 0, &decks), Ok("/v/a.rcard".to_string()));
    assert_eq!(deck_path_from_id(&vault, 1, &decks), Ok("/v/b.rcard".to_string()));
    assert_eq!(deck_path_from_id(&vault, 2, &decks), Err(DeckError::NotFound));
    assert_eq!(deck_path_from_id(&vault, usize::MAX, &decks), Err(DeckError::NotFound));
    assert_eq!(deck_path_from_id(&vault, 0, &Vec::new()), Err(DeckError::NotFound));
}

#[test]
fn token_2_with_two_decks_is_not_found() {
    let vault = Vault::new("/v".to_string());
    let decks = names(&["a", "b"]);
    let on_disk = ["/v/a.rcard", "/v/b.rcard", "/v/2.rcard"];
    assert_eq!(resolve(&vault, "2", &decks, &on_disk), Err(DeckError::NotFound));
}

#[test]
fn every_listed_ordinal_resolves_and_larger_ones_do_not() {
    let vault = Vault::new("/v".to_string());
    let decks = names(&["a", "b", "c"]);
    let on_disk = ["/v/a.rcard", "/v/b.rcard", "/v/c.rcard"];
    for (i, name) in ["a", "b", "c"].iter().enumerate() {
        assert_eq!(resolve(&vault, &i.to_string(), &decks, &on_disk), Ok(format!("/v/{name}.rcard")));
    }
    for token in ["3", "4", "1000", "18446744073709551615", "99999999999999999999999999"] {
        assert_eq!(resolve(&vault, token, &decks, &on_disk), Err(DeckError::NotFound), "{token}");
    }
}

#[test]
fn ordinal_asks_for_the_index_then_for_the_disk() {
    let vault = Vault::new("/v".to_string());
    let decks = names(&["a", "b"]);
    assert_eq!(get_deckpath(&vault, "1", None, None), Lookup::ReadIndex);
    assert_eq!(get_deckpath(&vault, "1", Some(&decks), None), Lookup::Probe("/v/b.rcard".to_string()));
    assert_eq!(
        get_deckpath(&vault, "1", Some(&decks), Some(true)),
        Lookup::Found("/v/b.rcard".to_string())
    );
    assert_eq!(get_deckpath(&vault, "1", Some(&decks), Some(false)), Lookup::NotFound);
    assert_eq!(get_deckpath(&vault, "2", Some(&decks), None), Lookup::NotFound);
}

#[test]
fn listed_deck_that_left_the_disk_is_not_found() {
    let vault = Vault::new("/v".to_string());
    let decks = names(&["a", "b"]);
    assert_eq!(resolve(&vault, "0", &decks, &["/v/b.rcard"]), Err(DeckError::NotFound));
}

#[test]
fn name_never_asks_for_the_index() {
    let vault = Vault::new("/v".to_string());
    assert_eq!(get_deckpath(&vault, "colors", None, None), Lookup::Probe("/v/colors.rcard".to_string()));
    assert_eq!(
        get_deckpath(&vault, "colors", None, Some(true)),
        Lookup::Found("/v/colors.rcard".to_string())
    );
    assert_eq!(get_deckpath(&vault, "colors", None, Some(false)), Lookup::NotFound);
}

#[test]
fn name_resolution_is_the_same_whatever_the_listing_holds() {
    let vault = Vault::new("/v".to_string());
    let on_disk = ["/v/colors.rcard"];
    let listings = [names(&[]), names(&["colors"]), names(&["other", "renamed"])];
    for decks in &listings {
        assert_eq!(resolve(&vault, "colors", decks, &on_disk), Ok("/v/colors.rcard".to_string()));
        assert_eq!(resolve(&vault, "absent", decks, &on_disk), Err(DeckError::NotFound));
        assert_eq!(
            get_deckpath(&vault, "colors", Some(decks), None),
            get_deckpath(&vault, "colors", None, None)
        );
    }
}

#[test]
fn deck_named_like_a_number_is_unreachable_by_name() {
    let vault = Vault::new("/v".to_string());
    let decks = names(&["a"]);
    assert_eq!(resolve(&vault, "7", &decks, &["/v/7.rcard", "/v/a.rcard"]), Err(DeckError::NotFound));
    assert_eq!(resolve(&vault, "0", &decks, &["/v/7.rcard", "/v/a.rcard"]), Ok("/v/a.rcard".to_string()));
}
