use rcards::matching::{compare, compare_folded};

fn flags_of(reference: &str, candidate: &str) -> Vec<bool> {
    compare(reference, candidate).flags().clone()
}

#[test]
fn answer_in_other_case_matches_everywhere() {
    let report = compare("rouge", "Rouge");
    assert_eq!(report.flags(), &vec![true, true, true, true, true]);
    assert_eq!(report.accuracy_percent(), 100);
    assert_eq!(report.accuracy(), (5, 5));
    assert!(report.is_exact());
}

#[test]
fn one_wrong_letter_costs_one_position() {
    let report = compare("rouge", "roube");
    assert_eq!(report.flags(), &vec![true, true, true, false, true]);
    assert_eq!(report.matched(), 4);
    assert_eq!(report.total(), 5);
    assert_eq!(report.accuracy_percent(), 80);
    let (num, den) = report.accuracy();
    assert_eq!(num as f64 / den as f64 * 100.0, 80.0);
    assert!(!report.is_exact());
}

#[test]
fn reference_against_itself_scores_100() {
    for reference in ["rouge", "a", "vert clair", "été", "日本語"] {
        let report = compare(reference, reference);
        assert_eq!(report.accuracy_percent(), 100, "{reference}");
        assert!(report.is_exact());
    }
}

#[test]
fn empty_answer_scores_zero() {
    for reference in ["rouge", "a", "日本語"] {
        let report = compare(reference, "");
        assert_eq!(report.accuracy_percent(), 0);
        assert_eq!(report.matched(), 0);
        assert!(report.flags().iter().all(|flag| !flag));
    }
}

#[test]
fn empty_reference_counts_as_fully_matched() {
    let report = compare("", "anything");
    assert_eq!(report.total(), 0);
    assert_eq!(report.flags(), &Vec::<bool>::new());
    assert_eq!(report.accuracy(), (1, 1));
    assert_eq!(report.accuracy_percent(), 100);
    assert_eq!(compare("", "").accuracy_percent(), 100);
}

#[test]
fn flags_have_the_length_of_the_reference() {
    for candidate in ["", "r", "rouge", "rouge et noir", "ROUGE ET NOIR ET BLANC"] {
        assert_eq!(flags_of("rouge", candidate).len(), 5);
    }
    assert_eq!(flags_of("été", "e").len(), 3);
}

#[test]
fn extra_characters_are_ignored() {
    let report = compare("rouge", "rougeole");
    assert_eq!(report.flags(), &vec![true; 5]);
    assert_eq!(report.accuracy_percent(), 100);
}

#[test]
fn short_answer_misses_the_rest() {
    let report = compare("rouge", "ro");
    assert_eq!(report.flags(), &vec![true, true, false, false, false]);
    assert_eq!(report.accuracy_percent(), 40);
}

#[test]
fn transposition_costs_both_positions() {
    let report = compare("rouge", "rogue");
    assert_eq!(report.flags(), &vec![true, true, false, false, true]);
    assert_eq!(report.accuracy_percent(), 60);
}

#[test]
fn accuracy_is_rounded_down() {
    let report = compare("abc", "axx");
    assert_eq!(report.accuracy(), (1, 3));
    assert_eq!(report.accuracy_percent(), 33);
    let report = compare("abc", "abx");
    assert_eq!(report.accuracy_percent(), 66);
}

#[test]
fn positions_are_characters_not_bytes() {
    let report = compare("été", "ete");
    assert_eq!(report.flags(), &vec![false, true, false]);
    let report = compare("été", "ÉTÉ");
    assert_eq!(report.flags(), &vec![true, true, true]);
}

#[test]
fn compare_folded_takes_the_candidate_as_it_is() {
    let report = compare_folded("rouge", "Rouge");
    assert_eq!(report.flags(), &vec![false, true, true, true, true]);
    assert_eq!(report.accuracy_percent(), 80);
}

#[test]
fn folding_would_fail_if_the_answer_came_back_unchanged() {
    assert_eq!(compare("abc", "ABC").matched(), 3);
    assert_eq!(compare_folded("abc", "ABC").matched(), 0);
}

#[test]
fn long_answers_are_scored_beyond_machine_word_width() {
    let reference = "a".repeat(300);
    let mut candidate = "a".repeat(299);
    candidate.push('b');
    let report = compare(&reference, &candidate);
    assert_eq!(report.total(), 300);
    assert_eq!(report.matched(), 299);
    assert!(!report.flags()[299]);
    assert!(report.flags()[200]);
    assert_eq!(report.accuracy_percent(), 99);
}
