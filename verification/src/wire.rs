//! The bytes of a review record, and the token that carries them from one
//! page to the next.
//!
//! A record is laid out field by field: the rating as four bytes, then the
//! title, the restaurant's name, the body and the author's name, each as
//! eight bytes that count the bytes of its UTF-8 form, followed by that
//! form. Numbers stand with their lowest byte first; a negative rating is
//! written in two's complement. The token is that layout in base 16.

use crate::hex::{from_hex, hex_decoded, hex_of, lemma_hex_round_trip, to_hex};
use crate::review::{ReviewView, UserReview};
use vstd::prelude::*;
use vstd::slice::{slice_subrange, slice_to_vec};
use vstd::string::*;
use vstd::utf8::{
    decode_utf8, decode_utf8_encode_utf8, encode_utf8, encode_utf8_decode_utf8,
    encode_utf8_valid_utf8, valid_utf8,
};

verus! {

/// The four bytes of a number below 2^32, lowest first.
pub open spec fn le_bytes4(v: nat) -> Seq<u8> {
    seq![
        (v % 256) as u8,
        (v / 0x100 % 256) as u8,
        (v / 0x1_0000 % 256) as u8,
        (v / 0x100_0000 % 256) as u8,
    ]
}

/// The number that the four bytes at `pos` write.
pub open spec fn le_value4(b: Seq<u8>, pos: int) -> nat {
    (b[pos] + b[pos + 1] * 0x100 + b[pos + 2] * 0x1_0000 + b[pos + 3] * 0x100_0000) as nat
}

/// The eight bytes of a number below 2^64, lowest first.
pub open spec fn le_bytes8(v: nat) -> Seq<u8> {
    le_bytes4(v % 0x1_0000_0000) + le_bytes4(v / 0x1_0000_0000)
}

/// The number that the eight bytes at `pos` write.
pub open spec fn le_value8(b: Seq<u8>, pos: int) -> nat {
    le_value4(b, pos) + le_value4(b, pos + 4) * 0x1_0000_0000
}

/// A rating as an unsigned number: itself, or for a negative one its two's
/// complement in 32 bits.
pub open spec fn rating_code(rating: int) -> nat {
    if rating < 0 {
        (rating + 0x1_0000_0000) as nat
    } else {
        rating as nat
    }
}

/// The rating that an unsigned number stands for.
pub open spec fn rating_of_code(code: nat) -> int {
    if code >= 0x8000_0000 {
        code - 0x1_0000_0000
    } else {
        code as int
    }
}

/// The bytes of one text: the length of its UTF-8 form, then that form.
pub open spec fn text_bytes(s: Seq<char>) -> Seq<u8> {
    le_bytes8(encode_utf8(s).len()) + encode_utf8(s)
}

/// The bytes of a record.
pub open spec fn review_bytes(r: ReviewView) -> Seq<u8> {
    le_bytes4(rating_code(r.user_rating)) + text_bytes(r.user_review_title) + text_bytes(
        r.restaurant_name,
    ) + text_bytes(r.user_review) + text_bytes(r.user_name)
}

/// The token of a record.
pub open spec fn token_of(r: ReviewView) -> Seq<char> {
    hex_of(review_bytes(r))
}

/// A record that can be laid out: the rating fits its four bytes and each
/// length its eight. Every record that the program can hold is such a one.
pub open spec fn fits(r: ReviewView) -> bool {
    &&& i32::MIN <= r.user_rating <= i32::MAX
    &&& encode_utf8(r.user_review_title).len() <= u64::MAX
    &&& encode_utf8(r.restaurant_name).len() <= u64::MAX
    &&& encode_utf8(r.user_review).len() <= u64::MAX
    &&& encode_utf8(r.user_name).len() <= u64::MAX
}

/// The text that starts at `pos` in `b`, and the place behind it: there is
/// one where eight bytes of length are followed by at least as many bytes
/// as they say, and those are valid UTF-8.
#[verifier::opaque]
pub open spec fn text_at(b: Seq<u8>, pos: int) -> Option<(Seq<char>, int)> {
    if 0 <= pos && pos + 8 <= b.len() {
        let end = pos + 8 + le_value8(b, pos);
        if end <= b.len() && valid_utf8(b.subrange(pos + 8, end)) {
            Some((decode_utf8(b.subrange(pos + 8, end)), end))
        } else {
            None
        }
    } else {
        None
    }
}

/// The record that `b` lays out, if it lays one out: a rating and four
/// texts, with nothing behind the last.
#[verifier::opaque]
pub open spec fn review_of_bytes(b: Seq<u8>) -> Option<ReviewView> {
    if b.len() < 4 {
        None
    } else if let Some((title, title_end)) = text_at(b, 4) {
        if let Some((restaurant, restaurant_end)) = text_at(b, title_end) {
            if let Some((body, body_end)) = text_at(b, restaurant_end) {
                if let Some((author, author_end)) = text_at(b, body_end) {
                    if author_end == b.len() {
                        Some(
                            ReviewView {
                                user_rating: rating_of_code(le_value4(b, 0)),
                                user_review_title: title,
                                restaurant_name: restaurant,
                                user_review: body,
                                user_name: author,
                            },
                        )
                    } else {
                        None
                    }
                } else {
                    None
                }
            } else {
                None
            }
        } else {
            None
        }
    } else {
        None
    }
}

/// The record that a token carries, if it carries one.
#[verifier::opaque]
pub open spec fn review_of_token(token: Seq<char>) -> Option<ReviewView> {
    match hex_decoded(token) {
        Some(b) => review_of_bytes(b),
        None => None,
    }
}

/// `String::from_utf8`, with the error dropped: there is a string exactly
/// where `bytes` are valid UTF-8, and its UTF-8 form is `bytes`.
#[verifier::external_body]
fn string_from_utf8(bytes: Vec<u8>) -> (r: Option<String>)
    ensures
        r is Some <==> valid_utf8(bytes@),
        r matches Some(s) ==> encode_utf8(s@) == bytes@,
{
    String::from_utf8(bytes).ok()
}

/// Writes the four bytes of `v` behind what `out` holds.
fn push_le4(out: &mut Vec<u8>, v: u32)
    ensures
        final(out)@ == old(out)@ + le_bytes4(v as nat),
{
    out.push((v % 256) as u8);
    out.push((v / 0x100 % 256) as u8);
    out.push((v / 0x1_0000 % 256) as u8);
    out.push((v / 0x100_0000 % 256) as u8);
    assert(out@ =~= old(out)@ + le_bytes4(v as nat));
}

/// Writes the eight bytes of `v` behind what `out` holds.
fn push_le8(out: &mut Vec<u8>, v: u64)
    ensures
        final(out)@ == old(out)@ + le_bytes8(v as nat),
{
    push_le4(out, (v % 0x1_0000_0000) as u32);
    push_le4(out, (v / 0x1_0000_0000) as u32);
    assert(out@ =~= old(out)@ + le_bytes8(v as nat));
}

/// Reads the number that the four bytes at `pos` write.
fn read_le4(bytes: &[u8], pos: usize) -> (r: u32)
    requires
        pos + 4 <= bytes@.len(),
    ensures
        r == le_value4(bytes@, pos as int),
{
    let len: usize = bytes.len();
    assert(pos + 4 <= len);
    let b0: u32 = bytes[pos] as u32;
    let b1: u32 = bytes[pos + 1] as u32;
    let b2: u32 = bytes[pos + 2] as u32;
    let b3: u32 = bytes[pos + 3] as u32;
    b0 + b1 * 0x100 + b2 * 0x1_0000 + b3 * 0x100_0000
}

/// Reads the number that the eight bytes at `pos` write.
fn read_le8(bytes: &[u8], pos: usize) -> (r: u64)
    requires
        pos + 8 <= bytes@.len(),
    ensures
        r == le_value8(bytes@, pos as int),
{
    let len: usize = bytes.len();
    assert(pos + 8 <= len);
    let lo: u64 = read_le4(bytes, pos) as u64;
    let hi: u64 = read_le4(bytes, pos + 4) as u64;
    lo + hi * 0x1_0000_0000
}

/// Writes the bytes of the text `s` behind what `out` holds.
fn push_text(out: &mut Vec<u8>, s: &str)
    ensures
        final(out)@ == old(out)@ + text_bytes(s@),
        encode_utf8(s@).len() <= u64::MAX,
{
    let bytes = s.as_bytes();
    push_le8(out, bytes.len() as u64);
    let ghost head = out@;
    out.extend_from_slice(bytes);
    assert(out@ =~= head + bytes@);
    assert(out@ =~= old(out)@ + text_bytes(s@));
}

/// Reads the text that starts at `pos`, and says where the next field
/// starts.
fn read_text(bytes: &[u8], pos: usize) -> (r: Option<(String, usize)>)
    requires
        pos <= bytes@.len(),
    ensures
        r is Some <==> text_at(bytes@, pos as int) is Some,
        r matches Some((s, next)) ==> text_at(bytes@, pos as int) == Some((s@, next as int))
            && next <= bytes@.len(),
{
    reveal(text_at);
    let len: usize = bytes.len();
    if len - pos < 8 {
        return None;
    }
    let n: u64 = read_le8(bytes, pos);
    if n > (len - pos - 8) as u64 {
        return None;
    }
    let end: usize = pos + 8 + n as usize;
    let body = slice_to_vec(slice_subrange(bytes, pos + 8, end));
    match string_from_utf8(body) {
        Some(s) => {
            proof {
                encode_utf8_decode_utf8(s@);
            }
            Some((s, end))
        },
        None => None,
    }
}

/// Lays out `review` as bytes. What comes back is the layout of the record,
/// and it is read back as that record.
pub fn encode_review(review: &UserReview) -> (r: Vec<u8>)
    ensures
        r@ == review_bytes(review@),
        fits(review@),
        review_of_bytes(r@) == Some(review@),
{
    let mut out: Vec<u8> = Vec::new();
    let code: u32 = if review.user_rating < 0 {
        (review.user_rating as i64 + 0x1_0000_0000) as u32
    } else {
        review.user_rating as u32
    };
    push_le4(&mut out, code);
    push_text(&mut out, review.user_review_title.as_str());
    push_text(&mut out, review.restaurant_name.as_str());
    push_text(&mut out, review.user_review.as_str());
    push_text(&mut out, review.user_name.as_str());
    proof {
        assert(out@ =~= review_bytes(review@));
        lemma_bytes_round_trip(review@);
    }
    out
}

/// Reads bytes as a record. There is a record exactly where the bytes lay
/// one out, and it is that record.
pub fn decode_review(bytes: &[u8]) -> (r: Option<UserReview>)
    ensures
        r is Some <==> review_of_bytes(bytes@) is Some,
        r matches Some(v) ==> review_of_bytes(bytes@) == Some(v@),
{
    reveal(review_of_bytes);
    if bytes.len() < 4 {
        return None;
    }
    let code: u32 = read_le4(bytes, 0);
    let rating: i32 = if code >= 0x8000_0000 {
        (code as i64 - 0x1_0000_0000) as i32
    } else {
        code as i32
    };
    let (title, title_end) = match read_text(bytes, 4) {
        Some(found) => found,
        None => {
            return None;
        },
    };
    let (restaurant, restaurant_end) = match read_text(bytes, title_end) {
        Some(found) => found,
        None => {
            return None;
        },
    };
    let (body, body_end) = match read_text(bytes, restaurant_end) {
        Some(found) => found,
        None => {
            return None;
        },
    };
    let (author, author_end) = match read_text(bytes, body_end) {
        Some(found) => found,
        None => {
            return None;
        },
    };
    if author_end != bytes.len() {
        return None;
    }
    Some(
        UserReview {
            user_rating: rating,
            user_review_title: title,
            restaurant_name: restaurant,
            user_review: body,
            user_name: author,
        },
    )
}

/// The token of `review`: its bytes in base 16. The token is read back as
/// the record it was made of.
pub fn struct_to_hex(review: &UserReview) -> (r: String)
    ensures
        r@ == token_of(review@),
        review_of_token(r@) == Some(review@),
{
    let bytes = encode_review(review);
    proof {
        reveal(review_of_token);
        lemma_hex_round_trip(bytes@);
    }
    to_hex(bytes.as_slice())
}

/// Reads a token as a record. There is a record exactly where the token is
/// base 16 and its bytes lay one out.
pub fn hex_to_struct(token: &str) -> (r: Option<UserReview>)
    ensures
        r is Some <==> review_of_token(token@) is Some,
        r matches Some(v) ==> review_of_token(token@) == Some(v@),
{
    reveal(review_of_token);
    match from_hex(token) {
        Some(bytes) => decode_review(bytes.as_slice()),
        None => None,
    }
}

/// Four bytes that are written from a number below 2^32 write that number.
pub proof fn lemma_le4_round_trip(prefix: Seq<u8>, v: nat, suffix: Seq<u8>)
    requires
        v <= u32::MAX,
    ensures
        le_value4(prefix + le_bytes4(v) + suffix, prefix.len() as int) == v,
{
    let b = prefix + le_bytes4(v) + suffix;
    let p = prefix.len() as int;
    assert(b[p] == le_bytes4(v)[0]);
    assert(b[p + 1] == le_bytes4(v)[1]);
    assert(b[p + 2] == le_bytes4(v)[2]);
    assert(b[p + 3] == le_bytes4(v)[3]);
}

/// Eight bytes that are written from a number below 2^64 write that number.
pub proof fn lemma_le8_round_trip(prefix: Seq<u8>, v: nat, suffix: Seq<u8>)
    requires
        v <= u64::MAX,
    ensures
        le_value8(prefix + le_bytes8(v) + suffix, prefix.len() as int) == v,
{
    let lo = le_bytes4(v % 0x1_0000_0000);
    let hi = le_bytes4(v / 0x1_0000_0000);
    let b = prefix + le_bytes8(v) + suffix;
    assert(b =~= prefix + lo + (hi + suffix));
    lemma_le4_round_trip(prefix, v % 0x1_0000_0000, hi + suffix);
    assert(b =~= (prefix + lo) + hi + suffix);
    lemma_le4_round_trip(prefix + lo, v / 0x1_0000_0000, suffix);
}

/// A text that is laid out between other bytes is found where it starts,
/// and the place behind it is where it ends.
pub proof fn lemma_text_at(prefix: Seq<u8>, s: Seq<char>, suffix: Seq<u8>)
    requires
        encode_utf8(s).len() <= u64::MAX,
    ensures
        text_at(prefix + text_bytes(s) + suffix, prefix.len() as int) == Some(
            (s, (prefix.len() + text_bytes(s).len()) as int),
        ),
        text_bytes(s).len() == 8 + encode_utf8(s).len(),
{
    reveal(text_at);
    let body = encode_utf8(s);
    let b = prefix + text_bytes(s) + suffix;
    let p = prefix.len() as int;
    assert(b =~= prefix + le_bytes8(body.len()) + (body + suffix));
    lemma_le8_round_trip(prefix, body.len(), body + suffix);
    assert(b.subrange(p + 8, p + 8 + body.len()) =~= body);
    encode_utf8_valid_utf8(s);
    encode_utf8_decode_utf8(s);
}

/// A record that is laid out as bytes and read back is the same record.
pub proof fn lemma_bytes_round_trip(r: ReviewView)
    requires
        fits(r),
    ensures
        review_of_bytes(review_bytes(r)) == Some(r),
{
    reveal(review_of_bytes);
    let head = le_bytes4(rating_code(r.user_rating));
    let t1 = text_bytes(r.user_review_title);
    let t2 = text_bytes(r.restaurant_name);
    let t3 = text_bytes(r.user_review);
    let t4 = text_bytes(r.user_name);
    let b = review_bytes(r);
    let none = Seq::<u8>::empty();
    let title_end = 4 + t1.len() as int;
    let restaurant_end = title_end + t2.len();
    let body_end = restaurant_end + t3.len();
    let author_end = body_end + t4.len();
    assert(head.len() == 4);
    assert(b.len() == author_end);
    assert(rating_of_code(le_value4(b, 0)) == r.user_rating) by {
        assert(b =~= none + head + (t1 + t2 + t3 + t4));
        lemma_le4_round_trip(none, rating_code(r.user_rating), t1 + t2 + t3 + t4);
    }
    assert(text_at(b, 4) == Some((r.user_review_title, title_end))) by {
        assert(b =~= head + t1 + (t2 + t3 + t4));
        lemma_text_at(head, r.user_review_title, t2 + t3 + t4);
    }
    assert(text_at(b, title_end) == Some((r.restaurant_name, restaurant_end))) by {
        assert(b =~= (head + t1) + t2 + (t3 + t4));
        lemma_text_at(head + t1, r.restaurant_name, t3 + t4);
    }
    assert(text_at(b, restaurant_end) == Some((r.user_review, body_end))) by {
        assert(b =~= (head + t1 + t2) + t3 + t4);
        lemma_text_at(head + t1 + t2, r.user_review, t4);
    }
    assert(text_at(b, body_end) == Some((r.user_name, author_end))) by {
        assert(b =~= (head + t1 + t2 + t3) + t4 + none);
        lemma_text_at(head + t1 + t2 + t3, r.user_name, none);
    }
}

/// The places of a number in base 256 are the bytes it was made of.
proof fn lemma_base_256(b0: int, b1: int, b2: int, b3: int)
    requires
        0 <= b0 < 256,
        0 <= b1 < 256,
        0 <= b2 < 256,
        0 <= b3 < 256,
    ensures
        ({
            let v = b0 + b1 * 0x100 + b2 * 0x1_0000 + b3 * 0x100_0000;
            &&& 0 <= v <= u32::MAX
            &&& v % 256 == b0
            &&& v / 0x100 % 256 == b1
            &&& v / 0x1_0000 % 256 == b2
            &&& v / 0x100_0000 % 256 == b3
        }),
{
    let v = b0 + b1 * 0x100 + b2 * 0x1_0000 + b3 * 0x100_0000;
    let v1 = b1 + b2 * 0x100 + b3 * 0x1_0000;
    let v2 = b2 + b3 * 0x100;
    assert(v == v1 * 0x100 + b0);
    assert(v / 0x100 == v1);
    assert(v == v2 * 0x1_0000 + (b0 + b1 * 0x100));
    assert(v / 0x1_0000 == v2);
    assert(v == b3 * 0x100_0000 + (b0 + b1 * 0x100 + b2 * 0x1_0000));
    assert(v / 0x100_0000 == b3);
    assert(v1 == v2 * 0x100 + b1);
    assert(v2 == b3 * 0x100 + b2);
}

/// The four bytes of the number that four bytes write are those bytes.
pub proof fn lemma_le4_of_value(b: Seq<u8>, pos: int)
    requires
        0 <= pos,
        pos + 4 <= b.len(),
    ensures
        le_value4(b, pos) <= u32::MAX,
        le_bytes4(le_value4(b, pos)) == b.subrange(pos, pos + 4),
{
    lemma_base_256(b[pos] as int, b[pos + 1] as int, b[pos + 2] as int, b[pos + 3] as int);
    assert(le_bytes4(le_value4(b, pos)) =~= b.subrange(pos, pos + 4));
}

/// The eight bytes of the number that eight bytes write are those bytes.
pub proof fn lemma_le8_of_value(b: Seq<u8>, pos: int)
    requires
        0 <= pos,
        pos + 8 <= b.len(),
    ensures
        le_value8(b, pos) <= u64::MAX,
        le_bytes8(le_value8(b, pos)) == b.subrange(pos, pos + 8),
{
    lemma_le4_of_value(b, pos);
    lemma_le4_of_value(b, pos + 4);
    let v = le_value8(b, pos);
    assert(v % 0x1_0000_0000 == le_value4(b, pos));
    assert(v / 0x1_0000_0000 == le_value4(b, pos + 4));
    assert(b.subrange(pos, pos + 4) + b.subrange(pos + 4, pos + 8) =~= b.subrange(pos, pos + 8));
}

/// A text that is found in bytes is laid out as the bytes it was found in.
pub proof fn lemma_text_found(b: Seq<u8>, pos: int)
    requires
        text_at(b, pos) is Some,
    ensures
        text_at(b, pos) matches Some((s, end)) ==> {
            &&& 0 <= pos <= end <= b.len()
            &&& encode_utf8(s).len() <= u64::MAX
            &&& text_bytes(s) == b.subrange(pos, end)
        },
{
    reveal(text_at);
    let end = pos + 8 + le_value8(b, pos);
    let body = b.subrange(pos + 8, end);
    lemma_le8_of_value(b, pos);
    decode_utf8_encode_utf8(body);
    assert(b.subrange(pos, pos + 8) + body =~= b.subrange(pos, end));
}

/// Bytes that are read as a record are the layout of that record: no two
/// layouts are read as the same record, and nothing is read that was not
/// laid out.
pub proof fn lemma_bytes_are_canonical(b: Seq<u8>)
    requires
        review_of_bytes(b) is Some,
    ensures
        fits(review_of_bytes(b)->0),
        review_bytes(review_of_bytes(b)->0) == b,
{
    reveal(review_of_bytes);
    let r = review_of_bytes(b)->0;
    let (title, title_end) = text_at(b, 4)->0;
    let (restaurant, restaurant_end) = text_at(b, title_end)->0;
    let (body, body_end) = text_at(b, restaurant_end)->0;
    let (author, author_end) = text_at(b, body_end)->0;
    lemma_le4_of_value(b, 0);
    lemma_text_found(b, 4);
    lemma_text_found(b, title_end);
    lemma_text_found(b, restaurant_end);
    lemma_text_found(b, body_end);
    let code = le_value4(b, 0);
    assert(rating_code(rating_of_code(code)) == code);
    let parts = b.subrange(0, 4) + b.subrange(4, title_end) + b.subrange(
        title_end,
        restaurant_end,
    ) + b.subrange(restaurant_end, body_end) + b.subrange(body_end, author_end);
    assert(review_bytes(r) =~= parts);
    assert(parts =~= b);
}

/// A record that is made into a token and read back from it is the same
/// record, equal in every field.
pub proof fn lemma_token_round_trip(r: ReviewView)
    requires
        fits(r),
    ensures
        review_of_token(token_of(r)) == Some(r),
{
    reveal(review_of_token);
    lemma_hex_round_trip(review_bytes(r));
    lemma_bytes_round_trip(r);
}

} // verus!
