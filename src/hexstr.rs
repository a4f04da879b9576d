//! Hex text of byte strings, through the `hex` crate.

use vstd::prelude::*;
use crate::hexpack::hex_unpack;

verus! {

#[verifier::external_type_specification]
#[verifier::external_body]
pub struct ExFromHexError(hex::FromHexError);

/// Whether `c` is an ASCII hex digit, in either case.
pub open spec fn is_hex_char(c: char) -> bool {
    ('0' <= c <= '9') || ('a' <= c <= 'f') || ('A' <= c <= 'F')
}

/// Value of an ASCII hex digit, in either case.
pub open spec fn hex_char_value(c: char) -> nat {
    if '0' <= c <= '9' {
        (c as nat - '0' as nat) as nat
    } else if 'a' <= c <= 'f' {
        (c as nat - 'a' as nat + 10) as nat
    } else {
        (c as nat - 'A' as nat + 10) as nat
    }
}

/// Whether `s` is hex text that decodes: an even number of hex digits, either case.
pub open spec fn is_hex_text(s: Seq<char>) -> bool {
    s.len() % 2 == 0 && forall|i: int| 0 <= i < s.len() ==> is_hex_char(#[trigger] s[i])
}

/// The bytes spelt by hex text, two digits per byte, high digit first.
pub open spec fn hex_bytes(s: Seq<char>) -> Seq<u8> {
    Seq::new(s.len() / 2, |i: int| (hex_char_value(s[2 * i]) * 16 + hex_char_value(s[2 * i + 1])) as u8)
}

/// Lowercase hex text of `b`.
pub open spec fn hex_text(b: Seq<u8>) -> Seq<char> {
    hex_unpack(b).map_values(|c: u8| c as char)
}

/// Relies on `hex::encode`: two lowercase digits per byte, high digit first.
#[verifier::external_body]
pub(crate) fn hex_encode(b: &[u8]) -> (r: String)
    ensures
        r@ == hex_text(b@),
{
    hex::encode(b)
}

/// Relies on `hex::decode`: it accepts exactly an even number of ASCII hex
/// digits of either case, and returns the bytes they spell.
#[verifier::external_body]
pub(crate) fn hex_decode(s: &str) -> (r: Result<Vec<u8>, hex::FromHexError>)
    ensures
        r is Ok <==> is_hex_text(s@),
        r is Ok ==> r->Ok_0@ == hex_bytes(s@),
{
    hex::decode(s)
}

/// Relies on `hex::FromHexError::InvalidStringLength`, the error for hex text
/// of the wrong length for a fixed-size field.
#[verifier::external_body]
pub(crate) fn invalid_string_length() -> (r: hex::FromHexError) {
    hex::FromHexError::InvalidStringLength
}

/// Decoding the lowercase hex text of some bytes gives back those bytes.
pub proof fn lemma_hex_text_roundtrip(b: Seq<u8>)
    ensures
        is_hex_text(hex_text(b)),
        hex_bytes(hex_text(b)) == b,
{
    let t = hex_text(b);
    assert forall|i: int| 0 <= i < t.len() implies is_hex_char(#[trigger] t[i]) by {
        let j = i / 2;
        assert(b[j] / 16 < 16 && b[j] % 16 < 16);
    }
    assert forall|j: int| 0 <= j < b.len() implies #[trigger] hex_bytes(t)[j] == b[j] by {
        let hi = b[j] / 16;
        let lo = b[j] % 16;
        assert(hi < 16 && lo < 16);
        assert(t[2 * j] == hex_unpack(b)[2 * j] as char);
        assert(t[2 * j + 1] == hex_unpack(b)[2 * j + 1] as char);
        assert((2 * j) % 2 == 0 && (2 * j) / 2 == j);
        assert((2 * j + 1) % 2 == 1 && (2 * j + 1) / 2 == j);
        assert(hex_char_value(t[2 * j]) == hi);
        assert(hex_char_value(t[2 * j + 1]) == lo);
        assert(hi * 16 + lo == b[j]);
    }
    assert(hex_bytes(t) =~= b);
}

} // verus!
