//! Unsigned decimal numerals: reading one from a text and writing one out.

use crate::text::chars_of;
use vstd::prelude::*;

verus! {

/// The ten decimal digits.
pub open spec fn is_digit(c: char) -> bool {
    '0' <= c <= '9'
}

/// The number a decimal digit stands for.
pub open spec fn digit_value(c: char) -> nat {
    (c as u32 - '0' as u32) as nat
}

/// The digit that stands for a number below ten.
pub open spec fn digit_char(d: nat) -> char {
    (d + '0' as u32) as char
}

/// Whether every character of `s` is a decimal digit.
pub open spec fn all_digits(s: Seq<char>) -> bool {
    forall|i: int| 0 <= i < s.len() ==> is_digit(#[trigger] s[i])
}

/// The number that a sequence of decimal digits stands for, leading zeros
/// allowed. It is not bounded by any machine width.
pub open spec fn decimal_value(digits: Seq<char>) -> nat
    decreases digits.len(),
{
    if digits.len() == 0 {
        0
    } else {
        10 * decimal_value(digits.drop_last()) + digit_value(digits.last())
    }
}

/// The digits of `s` where `s` is an unsigned decimal numeral: one or more
/// decimal digits, with or without a plus sign in front, and nothing else.
pub open spec fn numeral_digits(s: Seq<char>) -> Option<Seq<char>> {
    let body = if s.len() > 0 && s[0] == '+' {
        s.drop_first()
    } else {
        s
    };
    if body.len() > 0 && all_digits(body) {
        Some(body)
    } else {
        None
    }
}

/// The number that `s` stands for, where it is a numeral.
pub open spec fn numeral_value(s: Seq<char>) -> Option<nat> {
    match numeral_digits(s) {
        Some(digits) => Some(decimal_value(digits)),
        None => None,
    }
}

/// `value`, or the largest `usize` where `value` is beyond it.
pub open spec fn saturated(value: nat) -> usize {
    if value >= usize::MAX {
        usize::MAX
    } else {
        value as usize
    }
}

/// The decimal digits of `n`, most significant first, without leading zeros.
pub open spec fn decimal_digits(n: nat) -> Seq<char>
    decreases n,
{
    if n < 10 {
        seq![digit_char(n)]
    } else {
        decimal_digits(n / 10).push(digit_char(n % 10))
    }
}

/// Writing a number out and reading it back gives the number: what
/// `decimal_digits` writes is a numeral, and it stands for `n`.
pub proof fn lemma_decimal_round_trip(n: nat)
    ensures
        decimal_digits(n).len() >= 1,
        all_digits(decimal_digits(n)),
        decimal_value(decimal_digits(n)) == n,
        numeral_value(decimal_digits(n)) == Some(n),
    decreases n,
{
    let digits = decimal_digits(n);
    if n < 10 {
        assert(digits.drop_last() =~= Seq::<char>::empty());
        assert(digits.last() == digit_char(n));
        assert(decimal_value(digits.drop_last()) == 0);
    } else {
        lemma_decimal_round_trip(n / 10);
        let front = decimal_digits(n / 10);
        assert(digits.drop_last() =~= front);
        assert(digits.last() == digit_char(n % 10));
        assert forall|i: int| 0 <= i < digits.len() implies is_digit(#[trigger] digits[i]) by {
            if i < front.len() {
                assert(digits[i] == front[i]);
            }
        }
    }
    assert(digits[0] != '+');
}

/// Whether `c` is a decimal digit.
pub fn char_is_digit(c: char) -> (r: bool)
    ensures
        r == is_digit(c),
{
    '0' <= c && c <= '9'
}

/// Reads an unsigned decimal numeral. `None` where `token` is no numeral;
/// else its value, or the largest `usize` where the value is beyond it.
pub fn parse_ordinal(token: &str) -> (ordinal: Option<usize>)
    ensures
        ordinal is Some <==> numeral_value(token@) is Some,
        ordinal matches Some(n) ==> n == saturated(numeral_value(token@).unwrap()),
{
    let chars = chars_of(token);
    let n: usize = chars.len();
    let start: usize = if n > 0 && chars[0] == '+' {
        1
    } else {
        0
    };
    if start == n {
        return None;
    }
    let ghost body = token@.subrange(start as int, n as int);
    assert(body =~= if token@.len() > 0 && token@[0] == '+' {
        token@.drop_first()
    } else {
        token@
    });
    let mut value: usize = 0;
    let mut i: usize = start;
    while i < n
        invariant
            start <= i <= n,
            n == chars.len(),
            chars@ == token@,
            body == token@.subrange(start as int, n as int),
            numeral_digits(token@) == if all_digits(body) {
                Some(body)
            } else {
                None
            },
            all_digits(body.take(i - start)),
            value == saturated(decimal_value(body.take(i - start))),
        decreases n - i,
    {
        let c = chars[i];
        if !char_is_digit(c) {
            assert(!is_digit(body[i - start]));
            return None;
        }
        let digit: usize = (c as u32 - '0' as u32) as usize;
        proof {
            let done = body.take(i - start);
            let next = body.take(i - start + 1);
            assert(next.drop_last() =~= done);
            assert(next.last() == c);
            assert forall|k: int| 0 <= k < next.len() implies is_digit(#[trigger] next[k]) by {
                if k < done.len() {
                    assert(next[k] == done[k]);
                }
            }
        }
        value = match value.checked_mul(10) {
            Some(scaled) => match scaled.checked_add(digit) {
                Some(sum) => sum,
                None => usize::MAX,
            },
            None => usize::MAX,
        };
        i += 1;
    }
    assert(body.take(n - start) =~= body);
    Some(value)
}

/// The text of one decimal digit.
fn digit_text(d: usize) -> (text: &'static str)
    requires
        d < 10,
    ensures
        text@ == seq![digit_char(d as nat)],
{
    proof {
        reveal_strlit("0");
        reveal_strlit("1");
        reveal_strlit("2");
        reveal_strlit("3");
        reveal_strlit("4");
        reveal_strlit("5");
        reveal_strlit("6");
        reveal_strlit("7");
        reveal_strlit("8");
        reveal_strlit("9");
    }
    let text = match d {
        0 => "0",
        1 => "1",
        2 => "2",
        3 => "3",
        4 => "4",
        5 => "5",
        6 => "6",
        7 => "7",
        8 => "8",
        _ => "9",
    };
    assert(text@ =~= seq![digit_char(d as nat)]);
    text
}

/// Writes `n` out in decimal.
pub fn decimal_string(n: usize) -> (text: String)
    ensures
        text@ == decimal_digits(n as nat),
    decreases n,
{
    if n < 10 {
        digit_text(n).to_owned()
    } else {
        let mut text = decimal_string(n / 10);
        text.append(digit_text(n % 10));
        assert(text@ =~= decimal_digits(n as nat));
        text
    }
}

} // verus!
