//! The rating field of the review form: free text that is read as a whole
//! number, with a fallback when it is none, and the range that a rating is
//! asked to lie in.

use crate::text::{chars_of, digit_char, digit_str};
use vstd::prelude::*;
use vstd::string::*;

verus! {

/// The rating that stands in for text that is not a number.
pub const NO_RATING: i32 = -1;

/// The lowest rating that raises no warning.
pub const MIN_RATING: i32 = 1;

/// The highest rating that raises no warning.
pub const MAX_RATING: i32 = 5;

/// Whether `c` is one of the ten decimal digits.
pub open spec fn is_digit(c: char) -> bool {
    '0' <= c && c <= '9'
}

/// Whether `s` holds decimal digits and nothing else.
pub open spec fn all_digits(s: Seq<char>) -> bool {
    forall|i: int| 0 <= i < s.len() ==> is_digit(#[trigger] s[i])
}

/// The number that a run of decimal digits writes.
pub open spec fn decimal_value(s: Seq<char>) -> int
    decreases s.len(),
{
    if s.len() == 0 {
        0
    } else {
        decimal_value(s.drop_last()) * 10 + (s.last() as int - 48)
    }
}

/// What is left of `s` behind a leading sign, if it has one.
pub open spec fn unsigned_part(s: Seq<char>) -> Seq<char> {
    if s.len() > 0 && (s[0] == '-' || s[0] == '+') {
        s.skip(1)
    } else {
        s
    }
}

/// The number that `s` writes as a signed 32-bit decimal: an optional `+` or
/// `-`, then one or more digits and nothing else, the value within the range
/// of `i32`. Any other text writes no number.
pub open spec fn parsed_i32(s: Seq<char>) -> Option<int> {
    let digits = unsigned_part(s);
    let magnitude = decimal_value(digits);
    let value = if s.len() > 0 && s[0] == '-' {
        -magnitude
    } else {
        magnitude
    };
    if digits.len() > 0 && all_digits(digits) && i32::MIN <= value <= i32::MAX {
        Some(value)
    } else {
        None
    }
}

/// The rating that the text of the rating field stands for.
pub open spec fn rating_of(text: Seq<char>) -> int {
    match parsed_i32(text) {
        Some(v) => v,
        None => NO_RATING as int,
    }
}

/// Whether `rating` is one that the form asks for: from [`MIN_RATING`] to
/// [`MAX_RATING`].
pub open spec fn rating_in_range(rating: int) -> bool {
    MIN_RATING <= rating <= MAX_RATING
}

/// The decimal digits of `n`, without leading zeros.
pub open spec fn decimal_digits(n: nat) -> Seq<char>
    decreases n,
{
    if n < 10 {
        seq![digit_char(n as int)]
    } else {
        decimal_digits(n / 10).push(digit_char((n % 10) as int))
    }
}

/// How a whole number is written: a `-` if it is negative, then the digits
/// of its magnitude.
pub open spec fn decimal_text(v: int) -> Seq<char> {
    if v < 0 {
        seq!['-'] + decimal_digits((-v) as nat)
    } else {
        decimal_digits(v as nat)
    }
}

/// Reads `text` as a signed 32-bit decimal number. There is a number exactly
/// where the text writes one, and it is that number.
pub fn parse_i32(text: &str) -> (r: Option<i32>)
    ensures
        r is Some <==> parsed_i32(text@) is Some,
        r matches Some(v) ==> parsed_i32(text@) == Some(v as int),
{
    let chars = chars_of(text);
    let n: usize = chars.len();
    if n == 0 {
        return None;
    }
    let negative = chars[0] == '-';
    let start: usize = if chars[0] == '-' || chars[0] == '+' {
        1
    } else {
        0
    };
    let ghost digits = unsigned_part(text@);
    assert(digits =~= chars@.subrange(start as int, n as int));
    let limit: i64 = 2147483648;
    let mut magnitude: i64 = 0;
    let mut i: usize = start;
    while i < n
        invariant
            start <= i <= n,
            n == chars@.len(),
            limit == 2147483648,
            digits == chars@.subrange(start as int, n as int),
            digits == unsigned_part(text@),
            all_digits(chars@.subrange(start as int, i as int)),
            0 <= magnitude <= limit + 1,
            magnitude <= limit ==> magnitude == decimal_value(
                chars@.subrange(start as int, i as int),
            ),
            magnitude > limit ==> decimal_value(chars@.subrange(start as int, i as int)) > limit,
        decreases n - i,
    {
        let c = chars[i];
        let ghost before = chars@.subrange(start as int, i as int);
        let ghost after = chars@.subrange(start as int, i + 1);
        assert(after.drop_last() =~= before);
        assert(after.last() == c);
        if !(c >= '0' && c <= '9') {
            assert(!is_digit(digits[i - start]));
            return None;
        }
        assert(all_digits(after)) by {
            assert forall|k: int| 0 <= k < after.len() implies is_digit(#[trigger] after[k]) by {
                if k < before.len() {
                    assert(after[k] == before[k]);
                }
            }
        }
        let d: i64 = (c as u32 - 48) as i64;
        if magnitude <= limit {
            magnitude = magnitude * 10 + d;
            if magnitude > limit {
                magnitude = limit + 1;
            }
        }
        i += 1;
    }
    if start == n {
        return None;
    }
    if negative {
        if magnitude <= limit {
            Some((-magnitude) as i32)
        } else {
            None
        }
    } else {
        if magnitude < limit {
            Some(magnitude as i32)
        } else {
            None
        }
    }
}

/// The rating that `text` stands for: the number it writes, and
/// [`NO_RATING`] where it writes none.
pub fn parse_rating(text: &str) -> (r: i32)
    ensures
        r == rating_of(text@),
{
    match parse_i32(text) {
        Some(v) => v,
        None => NO_RATING,
    }
}

/// Writes the decimal digits of `n` behind what `out` holds.
fn append_digits(out: &mut String, n: u32)
    ensures
        final(out)@ == old(out)@ + decimal_digits(n as nat),
    decreases n,
{
    if n >= 10 {
        append_digits(out, n / 10);
    }
    let ghost head = out@;
    out.append(digit_str((n % 10) as u8));
    assert(out@ =~= old(out)@ + decimal_digits(n as nat)) by {
        if n >= 10 {
            assert(head == old(out)@ + decimal_digits((n / 10) as nat));
        }
    }
}

/// Writes `rating` as the text that the rating field shows for it.
pub fn rating_text(rating: i32) -> (r: String)
    ensures
        r@ == decimal_text(rating as int),
{
    let mut out = String::new();
    if rating < 0 {
        out.append("-");
        proof {
            reveal_strlit("-");
        }
        assert(out@ =~= seq!['-']);
        append_digits(&mut out, (-(rating as i64)) as u32);
    } else {
        append_digits(&mut out, rating as u32);
        assert(out@ =~= decimal_digits(rating as nat));
    }
    out
}

/// Whether `rating` lies in the range that raises no warning.
pub fn in_range(rating: i32) -> (r: bool)
    ensures
        r == rating_in_range(rating as int),
{
    MIN_RATING <= rating && rating <= MAX_RATING
}

/// The digits of a number are digits, at least one, and write that number.
pub proof fn lemma_decimal_digits(n: nat)
    ensures
        decimal_digits(n).len() > 0,
        all_digits(decimal_digits(n)),
        decimal_value(decimal_digits(n)) == n,
    decreases n,
{
    if n < 10 {
        let s = decimal_digits(n);
        assert(s.drop_last() =~= Seq::<char>::empty());
        assert(decimal_value(s.drop_last()) == 0);
    } else {
        lemma_decimal_digits(n / 10);
        let head = decimal_digits(n / 10);
        let s = decimal_digits(n);
        assert(s.drop_last() =~= head);
        assert forall|i: int| 0 <= i < s.len() implies is_digit(#[trigger] s[i]) by {
            if i < head.len() {
                assert(s[i] == head[i]);
            }
        }
    }
}

/// A number that is written out and read back is the same number: for every
/// `v` in the range of `i32`, the text of `v` writes `v`.
pub proof fn lemma_text_round_trip(v: int)
    requires
        i32::MIN <= v <= i32::MAX,
    ensures
        parsed_i32(decimal_text(v)) == Some(v),
        rating_of(decimal_text(v)) == v,
{
    let text = decimal_text(v);
    if v < 0 {
        let digits = decimal_digits((-v) as nat);
        lemma_decimal_digits((-v) as nat);
        assert(text[0] == '-');
        assert(unsigned_part(text) =~= digits);
    } else {
        lemma_decimal_digits(v as nat);
        assert(is_digit(text[0]));
        assert(unsigned_part(text) =~= text);
    }
}

} // verus!
