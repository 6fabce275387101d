//! Bytes written as text, two base-16 digits to the byte, and read back.

use crate::text::{chars_of, digit_char, digit_str};
use vstd::prelude::*;
use vstd::string::*;

verus! {

/// The two digits of one byte, the high half first.
pub open spec fn hex_pair(b: u8) -> Seq<char> {
    seq![digit_char(b as int / 16), digit_char(b as int % 16)]
}

/// The text of `bytes`: the digits of each byte in turn, in lower case.
pub open spec fn hex_of(bytes: Seq<u8>) -> Seq<char>
    decreases bytes.len(),
{
    if bytes.len() == 0 {
        Seq::empty()
    } else {
        hex_of(bytes.drop_last()) + hex_pair(bytes.last())
    }
}

/// The value of a base-16 digit, in either case.
pub open spec fn hex_value(c: char) -> Option<int> {
    if '0' <= c && c <= '9' {
        Some(c as int - 48)
    } else if 'a' <= c && c <= 'f' {
        Some(c as int - 87)
    } else if 'A' <= c && c <= 'F' {
        Some(c as int - 55)
    } else {
        None
    }
}

/// Text that writes bytes: digits only, and an even number of them.
pub open spec fn is_hex(s: Seq<char>) -> bool {
    &&& s.len() % 2 == 0
    &&& forall|i: int| 0 <= i < s.len() ==> (#[trigger] hex_value(s[i])) is Some
}

/// The byte that the digits `hi` and `lo` write.
pub open spec fn byte_of(hi: char, lo: char) -> u8 {
    (hex_value(hi)->0 * 16 + hex_value(lo)->0) as u8
}

/// The bytes that `s` writes, where it is such text.
pub open spec fn unhex(s: Seq<char>) -> Seq<u8> {
    Seq::new((s.len() / 2) as nat, |i: int| byte_of(s[2 * i], s[2 * i + 1]))
}

/// The bytes that `s` writes, if it writes any.
pub open spec fn hex_decoded(s: Seq<char>) -> Option<Seq<u8>> {
    if is_hex(s) {
        Some(unhex(s))
    } else {
        None
    }
}

/// Writes `bytes` as text.
pub fn to_hex(bytes: &[u8]) -> (r: String)
    ensures
        r@ == hex_of(bytes@),
{
    let mut out = String::new();
    let mut i: usize = 0;
    assert(bytes@.take(0) =~= Seq::<u8>::empty());
    while i < bytes.len()
        invariant
            i <= bytes@.len(),
            out@ == hex_of(bytes@.take(i as int)),
        decreases bytes@.len() - i,
    {
        let b: u8 = bytes[i];
        let ghost before = out@;
        out.append(digit_str(b / 16));
        out.append(digit_str(b % 16));
        proof {
            let next = bytes@.take(i + 1);
            assert(next.drop_last() =~= bytes@.take(i as int));
            assert(next.last() == b);
            assert(out@ =~= before + hex_pair(b));
        }
        i += 1;
    }
    assert(bytes@.take(i as int) =~= bytes@);
    out
}

/// The value of the digit `c`, if it is one.
fn digit_of(c: char) -> (r: Option<u8>)
    ensures
        r is Some <==> hex_value(c) is Some,
        r matches Some(v) ==> hex_value(c) == Some(v as int) && v < 16,
{
    if c >= '0' && c <= '9' {
        Some((c as u32 - 48) as u8)
    } else if c >= 'a' && c <= 'f' {
        Some((c as u32 - 87) as u8)
    } else if c >= 'A' && c <= 'F' {
        Some((c as u32 - 55) as u8)
    } else {
        None
    }
}

/// Reads text as bytes. There are bytes to read exactly where the text is
/// made of base-16 digits, in either case, and has an even length.
pub fn from_hex(text: &str) -> (r: Option<Vec<u8>>)
    ensures
        r is Some <==> is_hex(text@),
        r matches Some(v) ==> v@ == unhex(text@),
{
    let chars = chars_of(text);
    let n: usize = chars.len();
    if n % 2 != 0 {
        return None;
    }
    let mut out: Vec<u8> = Vec::new();
    let mut i: usize = 0;
    while i < n
        invariant
            n == chars@.len(),
            chars@ == text@,
            n % 2 == 0,
            i % 2 == 0,
            i <= n,
            out@.len() == i / 2,
            forall|k: int| 0 <= k < i ==> (#[trigger] hex_value(chars@[k])) is Some,
            forall|k: int|
                0 <= k < out@.len() ==> out@[k] == byte_of(chars@[2 * k], chars@[2 * k + 1]),
        decreases n - i,
    {
        let hi = match digit_of(chars[i]) {
            Some(v) => v,
            None => {
                return None;
            },
        };
        let lo = match digit_of(chars[i + 1]) {
            Some(v) => v,
            None => {
                return None;
            },
        };
        out.push(hi * 16 + lo);
        i += 2;
    }
    assert(out@ =~= unhex(text@));
    Some(out)
}

/// The text of `n` bytes has `2 * n` characters, each of them a digit or a
/// letter from `a` to `f`.
pub proof fn lemma_hex_of_shape(bytes: Seq<u8>)
    ensures
        hex_of(bytes).len() == 2 * bytes.len(),
        forall|i: int|
            0 <= i < hex_of(bytes).len() ==> {
                let c = #[trigger] hex_of(bytes)[i];
                ('0' <= c && c <= '9') || ('a' <= c && c <= 'f')
            },
        forall|i: int|
            0 <= i < bytes.len() ==> #[trigger] hex_of(bytes)[2 * i] == digit_char(
                bytes[i] as int / 16,
            ) && hex_of(bytes)[2 * i + 1] == digit_char(bytes[i] as int % 16),
    decreases bytes.len(),
{
    if bytes.len() > 0 {
        let head = bytes.drop_last();
        lemma_hex_of_shape(head);
        let s = hex_of(bytes);
        assert forall|i: int| 0 <= i < s.len() implies {
            let c = #[trigger] s[i];
            ('0' <= c && c <= '9') || ('a' <= c && c <= 'f')
        } by {
            if i < hex_of(head).len() {
                assert(s[i] == hex_of(head)[i]);
            }
        }
        assert forall|i: int| 0 <= i < bytes.len() implies #[trigger] s[2 * i] == digit_char(
            bytes[i] as int / 16,
        ) && s[2 * i + 1] == digit_char(bytes[i] as int % 16) by {
            if i < head.len() {
                assert(s[2 * i] == hex_of(head)[2 * i]);
                assert(s[2 * i + 1] == hex_of(head)[2 * i + 1]);
                assert(head[i] == bytes[i]);
            }
        }
    }
}

/// Bytes that are written as text and read back are the same bytes.
pub proof fn lemma_hex_round_trip(bytes: Seq<u8>)
    ensures
        hex_decoded(hex_of(bytes)) == Some(bytes),
{
    lemma_hex_of_shape(bytes);
    let s = hex_of(bytes);
    assert(is_hex(s));
    assert forall|i: int| 0 <= i < bytes.len() implies unhex(s)[i] == bytes[i] by {
        assert(s[2 * i] == digit_char(bytes[i] as int / 16));
    }
    assert(unhex(s) =~= bytes);
}

} // verus!
