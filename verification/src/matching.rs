//! The match engine: a typed answer is held against the stored answer
//! position by position. There is no fuzzy matching: a character counts only
//! where it stands at the same position in both texts, so a transposition
//! costs both positions and extra characters at the end are ignored.

use crate::text::{case_folded, chars_of, fold_case};
use vstd::prelude::*;

verus! {

/// One flag per character of the reference: whether the candidate has the
/// same character at the same position.
pub open spec fn match_flags(reference: Seq<char>, candidate: Seq<char>) -> Seq<bool> {
    Seq::new(reference.len(), |i: int| i < candidate.len() && candidate[i] == reference[i])
}

/// How many of the flags are set.
pub open spec fn count_true(flags: Seq<bool>) -> nat
    decreases flags.len(),
{
    if flags.len() == 0 {
        0
    } else {
        count_true(flags.drop_last()) + if flags.last() {
            1nat
        } else {
            0nat
        }
    }
}

/// The accuracy as a fraction: matched positions over all positions. Nothing
/// can be missed of an empty reference, so its accuracy is one over one.
pub open spec fn accuracy_ratio(matched: nat, total: nat) -> (nat, nat) {
    if total == 0 {
        (1, 1)
    } else {
        (matched, total)
    }
}

/// The accuracy in percent, rounded down to a whole number.
pub open spec fn accuracy_percent(matched: nat, total: nat) -> nat {
    let (num, den) = accuracy_ratio(matched, total);
    (100 * num) / den
}

/// No more flags can be set than there are flags.
pub proof fn lemma_count_true_bound(flags: Seq<bool>)
    ensures
        count_true(flags) <= flags.len(),
    decreases flags.len(),
{
    if flags.len() > 0 {
        lemma_count_true_bound(flags.drop_last());
    }
}

/// All flags are set exactly when their count is their number, and none is
/// set exactly when the count is zero.
pub proof fn lemma_count_true_extremes(flags: Seq<bool>)
    ensures
        count_true(flags) == flags.len() <==> forall|i: int| 0 <= i < flags.len() ==> flags[i],
        count_true(flags) == 0 <==> forall|i: int| 0 <= i < flags.len() ==> !flags[i],
    decreases flags.len(),
{
    if flags.len() > 0 {
        let front = flags.drop_last();
        lemma_count_true_extremes(front);
        lemma_count_true_bound(front);
        assert forall|i: int| 0 <= i < front.len() implies front[i] == flags[i] by {}
        if forall|i: int| 0 <= i < flags.len() ==> flags[i] {
            assert forall|i: int| 0 <= i < front.len() implies front[i] by {
                assert(flags[i]);
            }
        }
        if forall|i: int| 0 <= i < flags.len() ==> !flags[i] {
            assert forall|i: int| 0 <= i < front.len() implies !front[i] by {
                assert(!flags[i]);
            }
        }
        if count_true(flags) == flags.len() {
            assert(flags.last());
            assert forall|i: int| 0 <= i < flags.len() implies flags[i] by {
                if i < front.len() {
                    assert(front[i]);
                }
            }
        }
        if count_true(flags) == 0 {
            assert(!flags.last());
            assert forall|i: int| 0 <= i < flags.len() implies !flags[i] by {
                if i < front.len() {
                    assert(!front[i]);
                }
            }
        }
    }
}

/// The accuracy is a percentage: it lies between 0 and 100, whatever the two
/// texts are.
pub proof fn lemma_accuracy_in_range(reference: Seq<char>, candidate: Seq<char>)
    ensures
        match_flags(reference, candidate).len() == reference.len(),
        count_true(match_flags(reference, candidate)) <= reference.len(),
        0 <= accuracy_percent(
            count_true(match_flags(reference, candidate)),
            reference.len(),
        ) <= 100,
{
    let flags = match_flags(reference, candidate);
    lemma_count_true_bound(flags);
    lemma_percent_bound(count_true(flags), reference.len());
}

/// A fraction of a whole is at most 100 percent, and all of it is 100 percent.
pub proof fn lemma_percent_bound(matched: nat, total: nat)
    requires
        matched <= total,
    ensures
        accuracy_percent(matched, total) <= 100,
        matched == total ==> accuracy_percent(matched, total) == 100,
        matched == 0 && total > 0 ==> accuracy_percent(matched, total) == 0,
{
    if total > 0 {
        assert((100 * matched) / total <= 100) by (nonlinear_arith)
            requires
                matched <= total,
                total > 0,
        ;
        assert((100 * total) / total == 100) by (nonlinear_arith)
            requires
                total > 0,
        ;
        assert((100 * 0) / total == 0) by (nonlinear_arith)
            requires
                total > 0,
        ;
    } else {
        assert(accuracy_ratio(matched, total) == (1nat, 1nat));
        assert((100 * 1nat) / 1nat == 100);
    }
}

/// A text held against itself matches at every position: its accuracy is 100.
pub proof fn lemma_same_text_is_exact(reference: Seq<char>)
    ensures
        forall|i: int| 0 <= i < reference.len() ==> match_flags(reference, reference)[i],
        count_true(match_flags(reference, reference)) == reference.len(),
        accuracy_percent(count_true(match_flags(reference, reference)), reference.len()) == 100,
{
    let flags = match_flags(reference, reference);
    lemma_count_true_extremes(flags);
    lemma_percent_bound(count_true(flags), reference.len());
}

/// A stored answer typed back as it is stored scores 100. Stored answers are
/// lowercase, which is what the premise asks: folding leaves the text as it is.
pub proof fn lemma_stored_answer_is_exact(reference: Seq<char>)
    requires
        case_folded(reference) == reference,
    ensures
        accuracy_percent(
            count_true(match_flags(reference, case_folded(reference))),
            reference.len(),
        ) == 100,
{
    lemma_same_text_is_exact(reference);
}

/// An empty answer to a reference that is not empty matches nowhere: its
/// accuracy is 0.
pub proof fn lemma_empty_answer_scores_zero(reference: Seq<char>)
    requires
        reference.len() > 0,
    ensures
        case_folded(Seq::<char>::empty()) == Seq::<char>::empty(),
        forall|i: int|
            0 <= i < reference.len() ==> !match_flags(reference, Seq::<char>::empty())[i],
        count_true(match_flags(reference, case_folded(Seq::<char>::empty()))) == 0,
        accuracy_percent(
            count_true(match_flags(reference, case_folded(Seq::<char>::empty()))),
            reference.len(),
        ) == 0,
{
    let flags = match_flags(reference, Seq::<char>::empty());
    lemma_count_true_extremes(flags);
    lemma_percent_bound(count_true(flags), reference.len());
}

/// The flags have the reference's length, whatever the candidate's length is.
pub proof fn lemma_flags_follow_reference(
    reference: Seq<char>,
    candidate: Seq<char>,
    other: Seq<char>,
)
    ensures
        match_flags(reference, candidate).len() == reference.len(),
        match_flags(reference, other).len() == match_flags(reference, candidate).len(),
{
}

/// Characters of the candidate beyond the reference's length do not count.
pub proof fn lemma_extra_characters_ignored(reference: Seq<char>, candidate: Seq<char>)
    requires
        candidate.len() >= reference.len(),
    ensures
        match_flags(reference, candidate) == match_flags(
            reference,
            candidate.take(reference.len() as int),
        ),
{
    assert(match_flags(reference, candidate) =~= match_flags(
        reference,
        candidate.take(reference.len() as int),
    ));
}

/// The outcome of one comparison: a flag for each position of the reference,
/// and with it the accuracy.
pub struct MatchReport {
    flags: Vec<bool>,
    matched: usize,
}

impl View for MatchReport {
    type V = Seq<bool>;

    closed spec fn view(&self) -> Seq<bool> {
        self.flags@
    }
}

impl MatchReport {
    #[verifier::type_invariant]
    spec fn consistent(&self) -> bool {
        self.matched == count_true(self.flags@)
    }

    /// The flags, one for each character of the reference, in its order.
    pub fn flags(&self) -> (flags: &Vec<bool>)
        ensures
            flags@ == self@,
    {
        &self.flags
    }

    /// The number of positions compared: the reference's length in characters.
    pub fn total(&self) -> (total: usize)
        ensures
            total == self@.len(),
    {
        self.flags.len()
    }

    /// The number of positions at which the two texts agree.
    pub fn matched(&self) -> (matched: usize)
        ensures
            matched == count_true(self@),
            matched <= self@.len(),
    {
        proof {
            use_type_invariant(self);
            lemma_count_true_bound(self.flags@);
        }
        self.matched
    }

    /// Whether the texts agree at every position.
    pub fn is_exact(&self) -> (exact: bool)
        ensures
            exact == (forall|i: int| 0 <= i < self@.len() ==> self@[i]),
            exact == (accuracy_ratio(count_true(self@), self@.len()).0 == accuracy_ratio(
                count_true(self@),
                self@.len(),
            ).1),
    {
        proof {
            use_type_invariant(self);
            lemma_count_true_extremes(self.flags@);
        }
        self.matched == self.flags.len()
    }

    /// The accuracy as a fraction, numerator first. The denominator is never
    /// zero and the numerator never exceeds it.
    pub fn accuracy(&self) -> (ratio: (usize, usize))
        ensures
            (ratio.0 as nat, ratio.1 as nat) == accuracy_ratio(count_true(self@), self@.len()),
            0 <= ratio.0 <= ratio.1,
            ratio.1 > 0,
    {
        proof {
            use_type_invariant(self);
            lemma_count_true_bound(self.flags@);
        }
        if self.flags.len() == 0 {
            (1, 1)
        } else {
            (self.matched, self.flags.len())
        }
    }

    /// The accuracy in percent, rounded down: between 0 and 100.
    pub fn accuracy_percent(&self) -> (percent: u8)
        ensures
            percent == accuracy_percent(count_true(self@), self@.len()),
            0 <= percent <= 100,
    {
        let (num, den) = self.accuracy();
        proof {
            lemma_count_true_bound(self.flags@);
            lemma_percent_bound(count_true(self@), self@.len());
        }
        let scaled: u128 = 100u128 * (num as u128);
        (scaled / (den as u128)) as u8
    }
}

/// Holds `candidate`, taken as it is, against `reference`.
pub fn compare_folded(reference: &str, candidate: &str) -> (report: MatchReport)
    ensures
        report@ == match_flags(reference@, candidate@),
        report@.len() == reference@.len(),
{
    let wanted = chars_of(reference);
    let given = chars_of(candidate);
    let mut flags: Vec<bool> = Vec::new();
    let mut matched: usize = 0;
    let mut i: usize = 0;
    while i < wanted.len()
        invariant
            i <= wanted.len(),
            wanted@ == reference@,
            given@ == candidate@,
            flags@ == match_flags(reference@, candidate@).take(i as int),
            matched == count_true(flags@),
            matched <= i,
        decreases wanted.len() - i,
    {
        let hit = i < given.len() && given[i] == wanted[i];
        proof {
            let all = match_flags(reference@, candidate@);
            assert(all.take(i + 1).drop_last() =~= all.take(i as int));
            assert(flags@.push(hit) =~= all.take(i + 1));
        }
        flags.push(hit);
        if hit {
            matched += 1;
        }
        i += 1;
    }
    assert(flags@ =~= match_flags(reference@, candidate@));
    MatchReport { flags, matched }
}

/// Holds a typed answer against the stored one: the answer is folded to
/// lowercase, then compared position by position.
pub fn compare(reference: &str, candidate: &str) -> (report: MatchReport)
    ensures
        report@ == match_flags(reference@, case_folded(candidate@)),
        report@.len() == reference@.len(),
{
    let folded = fold_case(candidate);
    compare_folded(reference, folded.as_str())
}

} // verus!
