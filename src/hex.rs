//! Hexadecimal: the challenge's target is written this way. Both cases of
//! the letters are read; encoding writes uppercase.
use vstd::prelude::*;
use data_encoding::{HEXUPPER, HEXUPPER_PERMISSIVE};

verus! {

/// Longest text handed to the decoder: at four bytes a character its byte
/// length stays within the decoder's own limit of `usize::MAX / 8`.
pub const MAX_HEX_CHARS: usize = usize::MAX / 32;

/// Longest byte sequence handed to the encoder, its own limit.
pub const MAX_ENCODE_BYTES: usize = usize::MAX / 512;

/// The value of a hexadecimal digit, in either case.
pub open spec fn hex_value(c: char) -> Option<u8> {
    if '0' <= c && c <= '9' {
        Some((c as u8 - '0' as u8) as u8)
    } else if 'A' <= c && c <= 'F' {
        Some((c as u8 - 'A' as u8 + 10) as u8)
    } else if 'a' <= c && c <= 'f' {
        Some((c as u8 - 'a' as u8 + 10) as u8)
    } else {
        None
    }
}

/// The character with a lowercase hexadecimal letter made uppercase.
pub open spec fn hex_upper_char(c: char) -> char {
    if 'a' <= c && c <= 'f' {
        ((c as u8) - 32) as char
    } else {
        c
    }
}

/// The text with its lowercase hexadecimal letters made uppercase.
pub open spec fn hex_uppercased(s: Seq<char>) -> Seq<char> {
    s.map_values(|c: char| hex_upper_char(c))
}

/// The uppercase digit for a value below sixteen.
pub open spec fn hex_digit(v: u8) -> char {
    if v < 10 {
        (('0' as u8) + v) as char
    } else {
        (('A' as u8) + v - 10) as char
    }
}

/// An even number of characters, each a hexadecimal digit of either case.
pub open spec fn is_hex(s: Seq<char>) -> bool {
    &&& s.len() % 2 == 0
    &&& forall|i: int| 0 <= i < s.len() ==> (#[trigger] hex_value(s[i])) is Some
}

/// The bytes that a valid hexadecimal text stands for, two digits each, the
/// high half first.
pub open spec fn hex_decode(s: Seq<char>) -> Seq<u8> {
    Seq::new(
        s.len() / 2,
        |i: int| (hex_value(s[2 * i])->0 * 16 + hex_value(s[2 * i + 1])->0) as u8,
    )
}

/// The uppercase hexadecimal text of a byte sequence.
pub open spec fn hex_encode(b: Seq<u8>) -> Seq<char> {
    Seq::new(
        2 * b.len(),
        |i: int|
            if i % 2 == 0 {
                hex_digit(b[i / 2] / 16)
            } else {
                hex_digit(b[i / 2] % 16)
            },
    )
}

#[verifier::external_type_specification]
#[verifier::external_body]
pub struct ExDecodeError(data_encoding::DecodeError);

/// Relies on data_encoding's `HEXUPPER_PERMISSIVE.decode`: it succeeds exactly
/// on an even number of the symbols `0-9A-F`, with `a-f` read as `A-F`, and then
/// gives one byte per two symbols; a non-ASCII character brings bytes outside
/// the symbol table and fails.
#[verifier::external_body]
fn hex_upper_decode(s: &str) -> (r: Result<Vec<u8>, data_encoding::DecodeError>)
    requires
        s@.len() <= MAX_HEX_CHARS,
    ensures
        r is Ok <==> is_hex(s@),
        r matches Ok(b) ==> b@ == hex_decode(s@),
{
    HEXUPPER_PERMISSIVE.decode(s.as_bytes())
}

/// Relies on data_encoding's `HEXUPPER.encode`: two uppercase digits per
/// byte, the high half first. Its length computation asserts the bound.
#[verifier::external_body]
fn hex_upper_encode(b: &[u8]) -> (r: String)
    requires
        b@.len() <= MAX_ENCODE_BYTES,
    ensures
        r@ == hex_encode(b@),
{
    HEXUPPER.encode(b)
}

/// Decodes a hexadecimal text, either case; `None` on an odd length, on any
/// character that is not a hexadecimal digit, and on a text of more than
/// `MAX_HEX_CHARS` characters.
pub fn decode_hex(s: &str) -> (r: Option<Vec<u8>>)
    ensures
        r is Some <==> s@.len() <= MAX_HEX_CHARS && is_hex(s@),
        r matches Some(b) ==> b@ == hex_decode(s@),
{
    if s.unicode_len() > MAX_HEX_CHARS {
        return None;
    }
    match hex_upper_decode(s) {
        Ok(b) => Some(b),
        Err(_) => None,
    }
}

/// The uppercase hexadecimal text of `bytes`.
pub fn encode_hex(bytes: &Vec<u8>) -> (r: String)
    requires
        bytes@.len() <= MAX_ENCODE_BYTES,
    ensures
        r@ == hex_encode(bytes@),
{
    hex_upper_encode(bytes.as_slice())
}

proof fn lemma_digit_value(v: u8)
    requires
        v < 16,
    ensures
        hex_value(hex_digit(v)) == Some(v),
{
}

proof fn lemma_value_digit(c: char)
    requires
        hex_value(c) is Some,
    ensures
        hex_digit(hex_value(c)->0) == hex_upper_char(c),
        hex_value(c)->0 < 16,
{
}

/// Re-encoding the bytes of a valid hexadecimal text gives the text back,
/// uppercased.
pub proof fn law_hex_round_trip(s: Seq<char>)
    requires
        is_hex(s),
    ensures
        hex_encode(hex_decode(s)) == hex_uppercased(s),
{
    let b = hex_decode(s);
    let e = hex_encode(b);
    let u = hex_uppercased(s);
    assert forall|i: int| 0 <= i < s.len() implies e[i] == u[i] by {
        let k = i / 2;
        assert(0 <= 2 * k && 2 * k + 1 < s.len());
        let hi = hex_value(s[2 * k]);
        let lo = hex_value(s[2 * k + 1]);
        lemma_value_digit(s[2 * k]);
        lemma_value_digit(s[2 * k + 1]);
        let v = (hi->0 * 16 + lo->0) as u8;
        assert(v / 16 == hi->0 && v % 16 == lo->0) by (nonlinear_arith)
            requires
                hi->0 < 16,
                lo->0 < 16,
                v == (hi->0 * 16 + lo->0) as u8,
        ;
        if i % 2 == 0 {
            assert(i == 2 * k);
        } else {
            assert(i == 2 * k + 1);
        }
    }
    assert(e =~= u);
}

/// Decoding the text of a byte sequence gives the bytes back.
pub proof fn law_hex_encode_decodes(b: Seq<u8>)
    ensures
        is_hex(hex_encode(b)),
        hex_decode(hex_encode(b)) == b,
{
    let e = hex_encode(b);
    assert forall|i: int| 0 <= i < e.len() implies (#[trigger] hex_value(e[i])) is Some by {
        lemma_digit_value(b[i / 2] / 16);
        lemma_digit_value(b[i / 2] % 16);
    }
    let d = hex_decode(e);
    assert forall|k: int| 0 <= k < b.len() implies d[k] == b[k] by {
        assert((2 * k) / 2 == k && (2 * k + 1) / 2 == k);
        assert((2 * k) % 2 == 0 && (2 * k + 1) % 2 == 1);
        lemma_digit_value(b[k] / 16);
        lemma_digit_value(b[k] % 16);
    }
    assert(d =~= b);
}

/// A text of odd length, or one with a character that is not a hexadecimal
/// digit, is never decoded.
pub proof fn law_hex_rejects(s: Seq<char>, i: int)
    requires
        s.len() % 2 == 1 || (0 <= i < s.len() && hex_value(s[i]) is None),
    ensures
        !is_hex(s),
{
}

} // verus!
