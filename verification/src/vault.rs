//! The vault: the directory that stores one file per deck, and the index of
//! the decks found in it, most recently used first.
//!
//! The library does not touch the disk. A caller reads the directory and
//! hands over one entry per file; the index is computed from those.

use crate::text::{chars_of, views};
use vstd::prelude::*;

verus! {

/// One file of the vault directory as the caller found it: its name, and the
/// time of its last access in nanoseconds since the epoch where the platform
/// tracks it.
#[derive(Clone, Debug, PartialEq, Eq)]
pub struct VaultEntry {
    pub file_name: String,
    pub last_accessed: Option<u128>,
}

/// A directory entry as plain values.
pub struct EntryView {
    pub file_name: Seq<char>,
    pub last_accessed: Option<u128>,
}

/// A deck of the vault: its name and the time of its last access.
pub struct Stamp {
    pub name: Seq<char>,
    pub last_accessed: Option<u128>,
}

impl View for VaultEntry {
    type V = EntryView;

    open spec fn view(&self) -> EntryView {
        EntryView { file_name: self.file_name@, last_accessed: self.last_accessed }
    }
}

/// The views of a sequence of entries, element by element.
pub open spec fn entry_views(entries: Seq<VaultEntry>) -> Seq<EntryView> {
    Seq::new(entries.len(), |i: int| entries[i]@)
}

/// The extension that marks a file of the vault as a deck.
pub open spec fn deck_suffix() -> Seq<char> {
    ".rcard"@
}

/// Whether a file name carries the deck extension.
pub open spec fn is_deck_file(file_name: Seq<char>) -> bool {
    &&& file_name.len() >= deck_suffix().len()
    &&& file_name.subrange(file_name.len() - deck_suffix().len(), file_name.len() as int)
        == deck_suffix()
}

/// The name of the deck that a deck file holds: the file name without the
/// extension.
pub open spec fn deck_name_of(file_name: Seq<char>) -> Seq<char> {
    file_name.subrange(0, file_name.len() - deck_suffix().len())
}

/// The decks among the entries, in the entries' order. Entries without the
/// deck extension are left out; nothing else is, so two files that give the
/// same deck name are both kept.
pub open spec fn stamps_of(entries: Seq<EntryView>) -> Seq<Stamp>
    decreases entries.len(),
{
    if entries.len() == 0 {
        Seq::empty()
    } else {
        let front = stamps_of(entries.drop_last());
        let entry = entries.last();
        if is_deck_file(entry.file_name) {
            front.push(
                Stamp {
                    name: deck_name_of(entry.file_name),
                    last_accessed: entry.last_accessed,
                },
            )
        } else {
            front
        }
    }
}

/// Whether `a` comes no later than `b` in the order of the dictionary, each
/// character counting by its code point.
pub open spec fn text_le(a: Seq<char>, b: Seq<char>) -> bool
    decreases a.len(),
{
    if a.len() == 0 {
        true
    } else if b.len() == 0 {
        false
    } else if a[0] != b[0] {
        a[0] < b[0]
    } else {
        text_le(a.drop_first(), b.drop_first())
    }
}

/// How recent an access time is. A file whose access time is unknown counts
/// as older than every file whose access time is known.
pub open spec fn recency(last_accessed: Option<u128>) -> int {
    match last_accessed {
        Some(t) => t as int,
        None => -1,
    }
}

/// Whether deck `a` is listed no later than deck `b`: the more recently used
/// first, and of two used at the same time the one whose name comes first.
pub open spec fn listed_before(a: Stamp, b: Stamp) -> bool {
    ||| recency(a.last_accessed) > recency(b.last_accessed)
    ||| recency(a.last_accessed) == recency(b.last_accessed) && text_le(a.name, b.name)
}

/// Whether each deck of the sequence is listed no later than those after it.
pub open spec fn is_ordered(stamps: Seq<Stamp>) -> bool {
    forall|i: int, j: int| 0 <= i < j < stamps.len() ==> listed_before(stamps[i], stamps[j])
}

/// An ordered sequence with one more deck put at its place.
pub open spec fn insert_ordered(ordered: Seq<Stamp>, stamp: Stamp) -> Seq<Stamp>
    decreases ordered.len(),
{
    if ordered.len() == 0 || listed_before(ordered.last(), stamp) {
        ordered.push(stamp)
    } else {
        insert_ordered(ordered.drop_last(), stamp).push(ordered.last())
    }
}

/// The decks in listing order.
pub open spec fn ordered(stamps: Seq<Stamp>) -> Seq<Stamp>
    decreases stamps.len(),
{
    if stamps.len() == 0 {
        Seq::empty()
    } else {
        insert_ordered(ordered(stamps.drop_last()), stamps.last())
    }
}

/// The names of a sequence of decks.
pub open spec fn names_of(stamps: Seq<Stamp>) -> Seq<Seq<char>> {
    Seq::new(stamps.len(), |i: int| stamps[i].name)
}

/// The index of the vault: the names of its decks, most recently used first.
/// The position of a name in it is the deck's ordinal.
pub open spec fn listing(entries: Seq<EntryView>) -> Seq<Seq<char>> {
    names_of(ordered(stamps_of(entries)))
}

// ---------------------------------------------------------------------------
// The order is a total order
// ---------------------------------------------------------------------------

/// Of two texts one comes no later than the other.
pub proof fn lemma_text_le_total(a: Seq<char>, b: Seq<char>)
    ensures
        text_le(a, b) || text_le(b, a),
    decreases a.len(),
{
    if a.len() > 0 && b.len() > 0 && a[0] == b[0] {
        lemma_text_le_total(a.drop_first(), b.drop_first());
    }
}

/// The dictionary order is transitive.
pub proof fn lemma_text_le_transitive(a: Seq<char>, b: Seq<char>, c: Seq<char>)
    requires
        text_le(a, b),
        text_le(b, c),
    ensures
        text_le(a, c),
    decreases a.len(),
{
    if a.len() > 0 && b.len() > 0 && c.len() > 0 && a[0] == b[0] && b[0] == c[0] {
        lemma_text_le_transitive(a.drop_first(), b.drop_first(), c.drop_first());
    }
}

/// Two texts that each come no later than the other are the same text.
pub proof fn lemma_text_le_antisymmetric(a: Seq<char>, b: Seq<char>)
    requires
        text_le(a, b),
        text_le(b, a),
    ensures
        a == b,
    decreases a.len(),
{
    if a.len() > 0 && b.len() > 0 {
        lemma_text_le_antisymmetric(a.drop_first(), b.drop_first());
        assert(a =~= seq![a[0]] + a.drop_first());
        assert(b =~= seq![b[0]] + b.drop_first());
    } else {
        assert(a =~= b);
    }
}

/// Of two decks one is listed no later than the other.
pub proof fn lemma_listed_before_total(a: Stamp, b: Stamp)
    ensures
        listed_before(a, b) || listed_before(b, a),
{
    lemma_text_le_total(a.name, b.name);
}

/// The listing order is transitive.
pub proof fn lemma_listed_before_transitive(a: Stamp, b: Stamp, c: Stamp)
    requires
        listed_before(a, b),
        listed_before(b, c),
    ensures
        listed_before(a, c),
{
    if recency(a.last_accessed) == recency(b.last_accessed) && recency(b.last_accessed) == recency(
        c.last_accessed,
    ) {
        lemma_text_le_transitive(a.name, b.name, c.name);
    }
}

// ---------------------------------------------------------------------------
// What the listing holds
// ---------------------------------------------------------------------------

/// Putting a deck at its place keeps the sequence ordered, and adds that deck
/// and nothing else.
pub proof fn lemma_insert_ordered(sorted: Seq<Stamp>, stamp: Stamp)
    requires
        is_ordered(sorted),
    ensures
        is_ordered(insert_ordered(sorted, stamp)),
        insert_ordered(sorted, stamp).len() == sorted.len() + 1,
        insert_ordered(sorted, stamp).to_multiset() == sorted.to_multiset().insert(stamp),
    decreases sorted.len(),
{
    broadcast use vstd::seq_lib::group_to_multiset_ensures;

    let result = insert_ordered(sorted, stamp);
    if sorted.len() == 0 || listed_before(sorted.last(), stamp) {
        assert forall|i: int, j: int| 0 <= i < j < result.len() implies listed_before(
            result[i],
            result[j],
        ) by {
            if j == sorted.len() {
                assert(result[i] == sorted[i]);
                if i < sorted.len() - 1 {
                    assert(listed_before(sorted[i], sorted.last()));
                    lemma_listed_before_transitive(sorted[i], sorted.last(), stamp);
                }
            } else {
                assert(listed_before(sorted[i], sorted[j]));
            }
        }
    } else {
        let front = sorted.drop_last();
        let last = sorted.last();
        assert(is_ordered(front)) by {
            assert forall|i: int, j: int| 0 <= i < j < front.len() implies listed_before(
                front[i],
                front[j],
            ) by {
                assert(listed_before(sorted[i], sorted[j]));
            }
        }
        lemma_insert_ordered(front, stamp);
        let inner = insert_ordered(front, stamp);
        lemma_listed_before_total(last, stamp);
        assert(sorted =~= front.push(last));
        assert forall|k: int| 0 <= k < inner.len() implies listed_before(inner[k], last) by {
            assert(inner.to_multiset().count(inner[k]) > 0);
            if inner[k] != stamp {
                assert(front.to_multiset().count(inner[k]) > 0);
                let at = choose|at: int| 0 <= at < front.len() && front[at] == inner[k];
                assert(listed_before(sorted[at], sorted[sorted.len() - 1]));
            }
        }
        assert forall|i: int, j: int| 0 <= i < j < result.len() implies listed_before(
            result[i],
            result[j],
        ) by {
            if j < inner.len() {
                assert(listed_before(inner[i], inner[j]));
            }
        }
    }
}

/// The listing order puts the decks in order and neither drops nor adds one.
pub proof fn lemma_ordered(stamps: Seq<Stamp>)
    ensures
        is_ordered(ordered(stamps)),
        ordered(stamps).len() == stamps.len(),
        ordered(stamps).to_multiset() == stamps.to_multiset(),
    decreases stamps.len(),
{
    broadcast use vstd::seq_lib::group_to_multiset_ensures;

    if stamps.len() > 0 {
        lemma_ordered(stamps.drop_last());
        lemma_insert_ordered(ordered(stamps.drop_last()), stamps.last());
        assert(stamps =~= stamps.drop_last().push(stamps.last()));
    } else {
        assert(stamps =~= Seq::<Stamp>::empty());
    }
}

/// The index lists each deck file of the directory once, most recently used
/// first, and nothing else: it is as long as there are deck files, ordered,
/// and holds the same decks as the directory. Of an empty directory it is
/// empty.
pub proof fn lemma_listing(entries: Seq<EntryView>)
    ensures
        listing(entries) == names_of(ordered(stamps_of(entries))),
        listing(entries).len() == stamps_of(entries).len(),
        stamps_of(entries).len() <= entries.len(),
        is_ordered(ordered(stamps_of(entries))),
        ordered(stamps_of(entries)).to_multiset() == stamps_of(entries).to_multiset(),
        entries.len() == 0 ==> listing(entries).len() == 0,
{
    lemma_ordered(stamps_of(entries));
    lemma_stamps_bound(entries);
}

/// There are no more decks than entries.
pub proof fn lemma_stamps_bound(entries: Seq<EntryView>)
    ensures
        stamps_of(entries).len() <= entries.len(),
    decreases entries.len(),
{
    if entries.len() > 0 {
        lemma_stamps_bound(entries.drop_last());
    }
}

/// Where the deck is put is the place behind the last deck that is listed no
/// later than it.
proof fn lemma_insert_position(sorted: Seq<Stamp>, stamp: Stamp, at: int)
    requires
        0 <= at <= sorted.len(),
        forall|k: int| at <= k < sorted.len() ==> !listed_before(sorted[k], stamp),
        at > 0 ==> listed_before(sorted[at - 1], stamp),
    ensures
        insert_ordered(sorted, stamp) == sorted.insert(at, stamp),
    decreases sorted.len() - at,
{
    if at == sorted.len() {
        assert(sorted.push(stamp) =~= sorted.insert(at, stamp));
    } else {
        let front = sorted.drop_last();
        assert(!listed_before(sorted[sorted.len() - 1], stamp));
        lemma_insert_position(front, stamp, at);
        assert(front.insert(at, stamp).push(sorted.last()) =~= sorted.insert(at, stamp));
    }
}

// ---------------------------------------------------------------------------
// Computing the listing
// ---------------------------------------------------------------------------

/// A deck of the vault while the index is built.
struct Ranked {
    name: String,
    last_accessed: Option<u128>,
}

impl View for Ranked {
    type V = Stamp;

    closed spec fn view(&self) -> Stamp {
        Stamp { name: self.name@, last_accessed: self.last_accessed }
    }
}

spec fn ranked_views(ranked: Seq<Ranked>) -> Seq<Stamp> {
    Seq::new(ranked.len(), |i: int| ranked[i]@)
}

/// Whether `a` comes no later than `b` in the order of the dictionary.
pub fn text_comes_first(a: &str, b: &str) -> (first: bool)
    ensures
        first == text_le(a@, b@),
{
    let left = chars_of(a);
    let right = chars_of(b);
    let mut i: usize = 0;
    assert(a@.skip(0) =~= a@ && b@.skip(0) =~= b@);
    while i < left.len() && i < right.len()
        invariant
            i <= left.len(),
            i <= right.len(),
            left@ == a@,
            right@ == b@,
            text_le(a@, b@) == text_le(a@.skip(i as int), b@.skip(i as int)),
        decreases left.len() - i,
    {
        proof {
            assert(a@.skip(i as int).drop_first() =~= a@.skip(i + 1));
            assert(b@.skip(i as int).drop_first() =~= b@.skip(i + 1));
            assert(a@.skip(i as int)[0] == left@[i as int]);
            assert(b@.skip(i as int)[0] == right@[i as int]);
        }
        if left[i] != right[i] {
            return left[i] < right[i];
        }
        i += 1;
    }
    i == left.len()
}

/// Whether an access time is at least as recent as another.
fn recency_of(last_accessed: Option<u128>) -> (r: (bool, u128))
    ensures
        r.0 == (last_accessed is Some),
        last_accessed matches Some(t) ==> r.1 == t,
        last_accessed is None ==> r.1 == 0,
{
    match last_accessed {
        Some(t) => (true, t),
        None => (false, 0),
    }
}

fn ranks_before(a: &Ranked, b: &Ranked) -> (before: bool)
    ensures
        before == listed_before(a@, b@),
{
    let (a_known, a_time) = recency_of(a.last_accessed);
    let (b_known, b_time) = recency_of(b.last_accessed);
    if a_known != b_known {
        a_known
    } else if a_time != b_time {
        a_time > b_time
    } else {
        text_comes_first(a.name.as_str(), b.name.as_str())
    }
}

/// The extension that marks a file of the vault as a deck.
pub fn deck_extension() -> (suffix: &'static str)
    ensures
        suffix@ == deck_suffix(),
{
    ".rcard"
}

/// The name of the deck that a file holds, or `None` where the file name does
/// not carry the deck extension.
pub fn deck_name(file_name: &str) -> (name: Option<String>)
    ensures
        name is Some <==> is_deck_file(file_name@),
        name matches Some(n) ==> n@ == deck_name_of(file_name@),
{
    let chars = chars_of(file_name);
    let suffix = chars_of(deck_extension());
    let n: usize = chars.len();
    let m: usize = suffix.len();
    if n < m {
        return None;
    }
    let mut i: usize = 0;
    while i < m
        invariant
            i <= m <= n,
            n == chars.len(),
            m == suffix.len(),
            chars@ == file_name@,
            suffix@ == deck_suffix(),
            forall|k: int| 0 <= k < i ==> chars@[n - m + k] == suffix@[k],
        decreases m - i,
    {
        if chars[n - m + i] != suffix[i] {
            assert(file_name@.subrange(n - m, n as int)[i as int] != deck_suffix()[i as int]);
            return None;
        }
        i += 1;
    }
    assert(file_name@.subrange(n - m, n as int) =~= deck_suffix());
    Some(file_name.substring_char(0, n - m).to_owned())
}

/// The index of the vault: the names of the decks among `entries`, most
/// recently used first. A file without the deck extension is no deck. Of two
/// decks used at the same time, or whose times are unknown, the one whose
/// name comes first in the dictionary is listed first; a deck whose time is
/// unknown comes after all those whose time is known.
pub fn get_decks(entries: &Vec<VaultEntry>) -> (decks: Vec<String>)
    ensures
        views(decks@) == listing(entry_views(entries@)),
        decks.len() <= entries.len(),
{
    let mut ranked: Vec<Ranked> = Vec::new();
    let mut i: usize = 0;
    while i < entries.len()
        invariant
            i <= entries.len(),
            ranked_views(ranked@) == ordered(stamps_of(entry_views(entries@).take(i as int))),
        decreases entries.len() - i,
    {
        proof {
            let seen = entry_views(entries@).take(i as int);
            let next = entry_views(entries@).take(i + 1);
            assert(next.drop_last() =~= seen);
            assert(next.last() == entries@[i as int]@);
        }
        match deck_name(entries[i].file_name.as_str()) {
            Some(name) => {
                let stamp = Ranked { name, last_accessed: entries[i].last_accessed };
                let mut at: usize = ranked.len();
                while at > 0 && !ranks_before(&ranked[at - 1], &stamp)
                    invariant
                        at <= ranked.len(),
                        forall|k: int|
                            at <= k < ranked.len() ==> !listed_before(
                                #[trigger] ranked_views(ranked@)[k],
                                stamp@,
                            ),
                    decreases at,
                {
                    at -= 1;
                }
                proof {
                    let before = ranked_views(ranked@);
                    let done = stamps_of(entry_views(entries@).take(i as int));
                    if at > 0 {
                        assert(before[at - 1] == ranked@[at - 1]@);
                    }
                    lemma_insert_position(before, stamp@, at as int);
                    assert(ranked_views(ranked@.insert(at as int, stamp)) =~= before.insert(
                        at as int,
                        stamp@,
                    ));
                    assert(done.push(stamp@).drop_last() =~= done);
                }
                ranked.insert(at, stamp);
            },
            None => {},
        }
        i += 1;
    }
    assert(entry_views(entries@).take(entries.len() as int) =~= entry_views(entries@));
    proof {
        lemma_listing(entry_views(entries@));
    }
    let mut decks: Vec<String> = Vec::new();
    let mut k: usize = 0;
    while k < ranked.len()
        invariant
            k <= ranked.len(),
            decks.len() == k,
            forall|j: int| 0 <= j < k ==> decks@[j]@ == ranked@[j]@.name,
        decreases ranked.len() - k,
    {
        decks.push(ranked[k].name.clone());
        k += 1;
    }
    assert(views(decks@) =~= names_of(ranked_views(ranked@)));
    decks
}

} // verus!
