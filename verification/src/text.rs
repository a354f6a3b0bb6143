//! Text primitives shared by the rest of the library: the characters of a
//! string, case folding, whitespace trimming, and splitting and joining on a
//! separator. Everything is stated over `Seq<char>`, the view of a string.

use vstd::prelude::*;

verus! {

/// The views of a sequence of strings, element by element.
pub open spec fn views(strings: Seq<String>) -> Seq<Seq<char>> {
    Seq::new(strings.len(), |i: int| strings[i]@)
}

/// The characters of `s`, in order, as a vector that can be indexed in constant time.
pub fn chars_of(s: &str) -> (chars: Vec<char>)
    ensures
        chars@ == s@,
{
    let mut chars: Vec<char> = Vec::new();
    for c in it: s.chars()
        invariant
            chars@ == it.seq().take(it.index()),
            it.seq() == s@,
    {
        chars.push(c);
    }
    chars
}

/// Whether two strings hold the same characters.
pub fn same_text(a: &str, b: &str) -> (same: bool)
    ensures
        same == (a@ == b@),
{
    let left = chars_of(a);
    let right = chars_of(b);
    if left.len() != right.len() {
        return false;
    }
    let mut i: usize = 0;
    while i < left.len()
        invariant
            i <= left.len(),
            left.len() == right.len(),
            left@ == a@,
            right@ == b@,
            forall|k: int| 0 <= k < i ==> left@[k] == right@[k],
        decreases left.len() - i,
    {
        if left[i] != right[i] {
            return false;
        }
        i += 1;
    }
    assert(a@ =~= b@);
    true
}

// ---------------------------------------------------------------------------
// Case folding
// ---------------------------------------------------------------------------

/// The lowercase form of a text under the Unicode case mapping that
/// `str::to_lowercase` applies. The mapping is context sensitive and may
/// change the number of characters, so it is given a name, not a definition.
pub uninterp spec fn lowercase_of(s: Seq<char>) -> Seq<char>;

/// Calls `str::to_lowercase`. Trusted: the result is the Unicode lowercase
/// form of the argument, which depends on the argument alone.
#[verifier::external_body]
pub(crate) fn to_lowercase(s: &str) -> (folded: String)
    ensures
        folded@ == lowercase_of(s@),
{
    s.to_lowercase()
}

/// The case-folded form of a text, in which typed input is compared with
/// stored text: its lowercase form. An empty text needs no folding.
pub open spec fn case_folded(s: Seq<char>) -> Seq<char> {
    if s.len() == 0 {
        s
    } else {
        lowercase_of(s)
    }
}

/// Folds `s` to lowercase.
pub fn fold_case(s: &str) -> (folded: String)
    ensures
        folded@ == case_folded(s@),
{
    if s.unicode_len() == 0 {
        s.to_owned()
    } else {
        to_lowercase(s)
    }
}

// ---------------------------------------------------------------------------
// Whitespace
// ---------------------------------------------------------------------------

/// The characters with the Unicode property `White_Space`.
pub open spec fn is_whitespace(c: char) -> bool {
    let u = c as u32;
    ||| 0x09 <= u <= 0x0D
    ||| u == 0x20
    ||| u == 0x85
    ||| u == 0xA0
    ||| u == 0x1680
    ||| 0x2000 <= u <= 0x200A
    ||| u == 0x2028
    ||| u == 0x2029
    ||| u == 0x202F
    ||| u == 0x205F
    ||| u == 0x3000
}

/// Whether `c` is a whitespace character.
pub fn char_is_whitespace(c: char) -> (r: bool)
    ensures
        r == is_whitespace(c),
{
    let u: u32 = c as u32;
    (0x09 <= u && u <= 0x0D) || u == 0x20 || u == 0x85 || u == 0xA0 || u == 0x1680 || (0x2000 <= u
        && u <= 0x200A) || u == 0x2028 || u == 0x2029 || u == 0x202F || u == 0x205F || u == 0x3000
}

/// `s` without its leading whitespace.
pub open spec fn trim_start_of(s: Seq<char>) -> Seq<char>
    decreases s.len(),
{
    if s.len() > 0 && is_whitespace(s[0]) {
        trim_start_of(s.drop_first())
    } else {
        s
    }
}

/// `s` without its trailing whitespace.
pub open spec fn trim_end_of(s: Seq<char>) -> Seq<char>
    decreases s.len(),
{
    if s.len() > 0 && is_whitespace(s.last()) {
        trim_end_of(s.drop_last())
    } else {
        s
    }
}

/// `s` without leading and trailing whitespace.
pub open spec fn trimmed(s: Seq<char>) -> Seq<char> {
    trim_end_of(trim_start_of(s))
}

/// A text that neither starts nor ends with whitespace.
pub open spec fn is_trimmed(s: Seq<char>) -> bool {
    s.len() > 0 ==> !is_whitespace(s[0]) && !is_whitespace(s.last())
}

/// Leading whitespace ends at the first character that is not whitespace.
pub proof fn lemma_trim_start(s: Seq<char>, from: int)
    requires
        0 <= from <= s.len(),
        forall|i: int| 0 <= i < from ==> is_whitespace(s[i]),
        from < s.len() ==> !is_whitespace(s[from]),
    ensures
        trim_start_of(s) == s.subrange(from, s.len() as int),
    decreases from,
{
    if from == 0 {
        assert(s.subrange(0, s.len() as int) =~= s);
    } else {
        let rest = s.drop_first();
        assert forall|i: int| 0 <= i < from - 1 implies is_whitespace(rest[i]) by {
            assert(rest[i] == s[i + 1]);
        }
        lemma_trim_start(rest, from - 1);
        assert(rest.subrange(from - 1, rest.len() as int) =~= s.subrange(from, s.len() as int));
    }
}

/// Trailing whitespace starts after the last character that is not whitespace.
pub proof fn lemma_trim_end(s: Seq<char>, to: int)
    requires
        0 <= to <= s.len(),
        forall|i: int| to <= i < s.len() ==> is_whitespace(s[i]),
        0 < to ==> !is_whitespace(s[to - 1]),
    ensures
        trim_end_of(s) == s.subrange(0, to),
    decreases s.len() - to,
{
    if to == s.len() {
        assert(s.subrange(0, to) =~= s);
    } else {
        let rest = s.drop_last();
        lemma_trim_end(rest, to);
        assert(rest.subrange(0, to) =~= s.subrange(0, to));
    }
}

/// Trimming leaves a text that neither starts nor ends with whitespace, and
/// trimming such a text changes nothing.
pub proof fn lemma_trimmed_is_trimmed(s: Seq<char>)
    ensures
        is_trimmed(trimmed(s)),
        is_trimmed(s) ==> trimmed(s) == s,
        trimmed(trimmed(s)) == trimmed(s),
{
    lemma_trim_start_shape(s);
    lemma_trim_end_shape(trim_start_of(s));
    let t = trimmed(s);
    if t.len() > 0 {
        assert(t[0] == trim_start_of(s)[0]);
    }
}

/// What `trim_start_of` leaves is a suffix that does not start with whitespace.
pub proof fn lemma_trim_start_shape(s: Seq<char>)
    ensures
        trim_start_of(s).len() <= s.len(),
        trim_start_of(s) == s.subrange(s.len() - trim_start_of(s).len(), s.len() as int),
        trim_start_of(s).len() > 0 ==> !is_whitespace(trim_start_of(s)[0]),
        forall|i: int| 0 <= i < s.len() - trim_start_of(s).len() ==> is_whitespace(s[i]),
    decreases s.len(),
{
    if s.len() > 0 && is_whitespace(s[0]) {
        let rest = s.drop_first();
        lemma_trim_start_shape(rest);
        let kept = trim_start_of(rest);
        assert(rest.subrange(rest.len() - kept.len(), rest.len() as int) =~= s.subrange(
            s.len() - kept.len(),
            s.len() as int,
        ));
        assert forall|i: int| 0 <= i < s.len() - kept.len() implies is_whitespace(s[i]) by {
            if i > 0 {
                assert(s[i] == rest[i - 1]);
            }
        }
    } else {
        assert(s.subrange(0, s.len() as int) =~= s);
    }
}

/// What `trim_end_of` leaves is a prefix that does not end with whitespace.
pub proof fn lemma_trim_end_shape(s: Seq<char>)
    ensures
        trim_end_of(s).len() <= s.len(),
        trim_end_of(s) == s.subrange(0, trim_end_of(s).len() as int),
        trim_end_of(s).len() > 0 ==> !is_whitespace(trim_end_of(s).last()),
        forall|i: int| trim_end_of(s).len() <= i < s.len() ==> is_whitespace(s[i]),
    decreases s.len(),
{
    if s.len() > 0 && is_whitespace(s.last()) {
        let rest = s.drop_last();
        lemma_trim_end_shape(rest);
        let kept = trim_end_of(rest);
        assert(rest.subrange(0, kept.len() as int) =~= s.subrange(0, kept.len() as int));
        assert forall|i: int| kept.len() <= i < s.len() implies is_whitespace(s[i]) by {
            if i < rest.len() {
                assert(s[i] == rest[i]);
            }
        }
    } else {
        assert(s.subrange(0, s.len() as int) =~= s);
    }
}

/// The part of `s` between its leading and its trailing whitespace.
pub fn trim(s: &str) -> (t: &str)
    ensures
        t@ == trimmed(s@),
        is_trimmed(t@),
{
    let chars = chars_of(s);
    let n: usize = chars.len();
    let mut from: usize = 0;
    while from < n && char_is_whitespace(chars[from])
        invariant
            from <= n,
            n == chars.len(),
            forall|i: int| 0 <= i < from ==> is_whitespace(chars@[i]),
        decreases n - from,
    {
        from += 1;
    }
    let mut to: usize = n;
    while to > from && char_is_whitespace(chars[to - 1])
        invariant
            from <= to <= n,
            n == chars.len(),
            forall|i: int| to <= i < n ==> is_whitespace(chars@[i]),
        decreases to,
    {
        to -= 1;
    }
    proof {
        lemma_trim_start(s@, from as int);
        let kept = s@.subrange(from as int, n as int);
        assert forall|i: int| to - from <= i < kept.len() implies is_whitespace(kept[i]) by {
            assert(kept[i] == s@[i + from]);
        }
        if to > from {
            assert(kept[to - from - 1] == s@[to - 1]);
        }
        lemma_trim_end(kept, to - from);
        assert(kept.subrange(0, to - from) =~= s@.subrange(from as int, to as int));
        lemma_trimmed_is_trimmed(s@);
    }
    s.substring_char(from, to)
}

// ---------------------------------------------------------------------------
// Splitting and joining
// ---------------------------------------------------------------------------

/// The pieces put together with `sep` between each two neighbours.
pub open spec fn join_with(pieces: Seq<Seq<char>>, sep: Seq<char>) -> Seq<char>
    decreases pieces.len(),
{
    if pieces.len() == 0 {
        Seq::empty()
    } else if pieces.len() == 1 {
        pieces[0]
    } else {
        join_with(pieces.drop_last(), sep) + sep + pieces.last()
    }
}

/// The pieces put together with `sep` after each of them.
pub open spec fn join_terminated(pieces: Seq<Seq<char>>, sep: Seq<char>) -> Seq<char>
    decreases pieces.len(),
{
    if pieces.len() == 0 {
        Seq::empty()
    } else {
        join_terminated(pieces.drop_last(), sep) + pieces.last() + sep
    }
}

/// Joining with a separator between the pieces is joining all but the last
/// with a separator after each, followed by the last.
pub proof fn lemma_join_push(pieces: Seq<Seq<char>>, sep: Seq<char>, last: Seq<char>)
    ensures
        join_with(pieces.push(last), sep) == join_terminated(pieces, sep) + last,
    decreases pieces.len(),
{
    let all = pieces.push(last);
    assert(all.drop_last() =~= pieces);
    if pieces.len() == 0 {
        assert(join_with(all, sep) =~= join_terminated(pieces, sep) + last);
    } else {
        let front = pieces.drop_last();
        lemma_join_push(front, sep, pieces.last());
        assert(front.push(pieces.last()) =~= pieces);
        assert(join_with(all, sep) =~= join_terminated(pieces, sep) + last);
    }
}

/// The pieces of `s` between the occurrences of `sep`: none of them holds
/// `sep`, and joined with `sep` they give `s` back. There is always at least
/// one piece; of an empty text it is the empty piece.
pub open spec fn is_split_of(pieces: Seq<Seq<char>>, s: Seq<char>, sep: char) -> bool {
    &&& pieces.len() >= 1
    &&& forall|i: int| 0 <= i < pieces.len() ==> !(#[trigger] pieces[i]).contains(sep)
    &&& join_with(pieces, seq![sep]) == s
}

/// Splits `s` at every occurrence of `sep`.
pub fn split(s: &str, sep: char) -> (pieces: Vec<String>)
    ensures
        is_split_of(views(pieces@), s@, sep),
{
    let chars = chars_of(s);
    let n: usize = chars.len();
    let mut pieces: Vec<String> = Vec::new();
    let mut start: usize = 0;
    let mut i: usize = 0;
    while i < n
        invariant
            start <= i <= n,
            n == chars.len(),
            chars@ == s@,
            forall|k: int| start <= k < i ==> chars@[k] != sep,
            forall|p: int| 0 <= p < pieces.len() ==> !(#[trigger] views(pieces@)[p]).contains(sep),
            join_terminated(views(pieces@), seq![sep]) == s@.subrange(0, start as int),
        decreases n - i,
    {
        if chars[i] == sep {
            let piece = s.substring_char(start, i).to_owned();
            proof {
                let before = views(pieces@);
                let after = views(pieces@.push(piece));
                assert(after =~= before.push(piece@));
                assert(after.drop_last() =~= before);
                assert(s@.subrange(0, start as int) + piece@ + seq![sep] =~= s@.subrange(
                    0,
                    i + 1,
                ));
                assert forall|p: int| 0 <= p < after.len() implies !(#[trigger] after[p]).contains(
                    sep,
                ) by {
                    if p < before.len() {
                        assert(after[p] == before[p]);
                    } else {
                        assert(after[p] == piece@);
                        assert forall|k: int| 0 <= k < piece@.len() implies piece@[k] != sep by {
                            assert(piece@[k] == chars@[start + k]);
                        }
                    }
                }
            }
            pieces.push(piece);
            start = i + 1;
        }
        i += 1;
    }
    let piece = s.substring_char(start, n).to_owned();
    proof {
        let before = views(pieces@);
        let after = views(pieces@.push(piece));
        assert(after =~= before.push(piece@));
        lemma_join_push(before, seq![sep], piece@);
        assert(s@.subrange(0, start as int) + piece@ =~= s@);
        assert forall|p: int| 0 <= p < after.len() implies !(#[trigger] after[p]).contains(
            sep,
        ) by {
            if p < before.len() {
                assert(after[p] == before[p]);
            } else {
                assert(after[p] == piece@);
                assert forall|k: int| 0 <= k < piece@.len() implies piece@[k] != sep by {
                    assert(piece@[k] == chars@[start + k]);
                }
            }
        }
    }
    pieces.push(piece);
    pieces
}

/// Joins the strings of `pieces` from index `from` on, with `sep` between them.
pub fn join_from(pieces: &Vec<String>, from: usize, sep: &str) -> (joined: String)
    requires
        from <= pieces.len(),
    ensures
        joined@ == join_with(views(pieces@).subrange(from as int, pieces.len() as int), sep@),
{
    let mut joined = String::new();
    let mut i: usize = from;
    while i < pieces.len()
        invariant
            from <= i <= pieces.len(),
            joined@ == join_with(views(pieces@).subrange(from as int, i as int), sep@),
        decreases pieces.len() - i,
    {
        proof {
            let done = views(pieces@).subrange(from as int, i as int);
            let next = views(pieces@).subrange(from as int, i + 1);
            assert(next.drop_last() =~= done);
            assert(next.last() == pieces@[i as int]@);
        }
        if i > from {
            joined.append(sep);
        }
        joined.append(pieces[i].as_str());
        i += 1;
    }
    joined
}

} // verus!
