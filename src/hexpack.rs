//! The hex heuristic of the compact codec: lowercase hex text of even length
//! (at least eight characters) is stored as the bytes it spells, half the size.
//! Uppercase digits are never accepted, so the letter case of a value is never lost.

use vstd::prelude::*;

verus! {

/// The shortest text that is worth storing as decoded bytes.
pub const MIN_HEX_LEN: usize = 8;

pub open spec fn is_lower_hex_digit(b: u8) -> bool {
    (48 <= b <= 57) || (97 <= b <= 102)
}

/// Value of a lowercase hex digit.
pub open spec fn nibble(b: u8) -> u8 {
    if b <= 57 {
        (b - 48) as u8
    } else {
        (b - 87) as u8
    }
}

/// Lowercase hex digit for a value below 16.
pub open spec fn hex_digit(n: u8) -> u8 {
    if n < 10 {
        (48 + n) as u8
    } else {
        (87 + n) as u8
    }
}

pub open spec fn is_lower_hex(t: Seq<u8>) -> bool {
    forall|i: int| 0 <= i < t.len() ==> is_lower_hex_digit(#[trigger] t[i])
}

/// Whether the codec stores the text `t` hex-compressed.
pub open spec fn hex_compressible(t: Seq<u8>) -> bool {
    t.len() >= MIN_HEX_LEN && t.len() % 2 == 0 && is_lower_hex(t)
}

/// The bytes spelt by the hex text `t`, two digits per byte.
pub open spec fn hex_pack(t: Seq<u8>) -> Seq<u8> {
    Seq::new(t.len() / 2, |i: int| (nibble(t[2 * i]) * 16 + nibble(t[2 * i + 1])) as u8)
}

/// Lowercase hex text of the bytes `b`, two digits per byte, high digit first.
pub open spec fn hex_unpack(b: Seq<u8>) -> Seq<u8> {
    Seq::new(
        2 * b.len(),
        |i: int| hex_digit(if i % 2 == 0 { b[i / 2] / 16 } else { b[i / 2] % 16 }),
    )
}

/// Re-encoding the bytes spelt by lowercase hex text gives back that text.
pub proof fn lemma_hex_unpack_pack(t: Seq<u8>)
    requires
        is_lower_hex(t),
        t.len() % 2 == 0,
    ensures
        hex_unpack(hex_pack(t)) == t,
{
    let p = hex_pack(t);
    assert forall|i: int| 0 <= i < t.len() implies #[trigger] hex_unpack(p)[i] == t[i] by {
        let j = i / 2;
        assert(0 <= j < p.len());
        let hi = nibble(t[2 * j]);
        let lo = nibble(t[2 * j + 1]);
        assert(is_lower_hex_digit(t[2 * j]));
        assert(is_lower_hex_digit(t[2 * j + 1]));
        assert(hi < 16 && lo < 16);
        assert(p[j] == (hi * 16 + lo) as u8);
        assert((hi * 16 + lo) / 16 == hi && (hi * 16 + lo) % 16 == lo) by (nonlinear_arith)
            requires hi < 16, lo < 16;
        if i % 2 == 0 {
            assert(i == 2 * j);
        } else {
            assert(i == 2 * j + 1);
        }
    }
    assert(hex_unpack(p) =~= t);
}

/// Digit for a value below 16.
fn digit_of(n: u8) -> (r: u8)
    requires
        n < 16,
    ensures
        r == hex_digit(n),
{
    if n < 10 {
        48 + n
    } else {
        87 + n
    }
}

/// Value of a byte read as a lowercase hex digit, or `None` for any other byte.
fn nibble_of(b: u8) -> (r: Option<u8>)
    ensures
        r == (if is_lower_hex_digit(b) {
            Some(nibble(b))
        } else {
            None::<u8>
        }),
{
    if 48 <= b && b <= 57 {
        Some(b - 48)
    } else if 97 <= b && b <= 102 {
        Some(b - 87)
    } else {
        None
    }
}

/// Fast rejection: long enough, even, and the first eight bytes are lowercase hex.
/// A `true` answer still needs the full check of `hex_decode_into`.
pub fn might_be_hex(src: &[u8]) -> (r: bool)
    ensures
        r == (src@.len() >= MIN_HEX_LEN && src@.len() % 2 == 0 && forall|i: int|
            0 <= i < MIN_HEX_LEN ==> is_lower_hex_digit(#[trigger] src@[i])),
        hex_compressible(src@) ==> r,
{
    let len = src.len();
    if len < MIN_HEX_LEN || len % 2 != 0 {
        return false;
    }
    let mut i: usize = 0;
    while i < MIN_HEX_LEN
        invariant
            i <= MIN_HEX_LEN <= src@.len(),
            forall|k: int| 0 <= k < i ==> is_lower_hex_digit(#[trigger] src@[k]),
        decreases MIN_HEX_LEN - i,
    {
        if nibble_of(src[i]).is_none() {
            return false;
        }
        i = i + 1;
    }
    true
}

/// Appends the bytes spelt by `src` to `out` when all of `src` is lowercase hex
/// of even length; otherwise leaves `out` as it was. Returns whether it did.
pub fn hex_decode_into(src: &[u8], out: &mut Vec<u8>) -> (ok: bool)
    requires
        src@.len() % 2 == 0,
    ensures
        ok == is_lower_hex(src@),
        ok ==> final(out)@ == old(out)@ + hex_pack(src@),
        !ok ==> final(out)@ == old(out)@,
{
    let start = out.len();
    let len = src.len();
    let mut i: usize = 0;
    while i < len
        invariant
            len == src@.len(),
            len % 2 == 0,
            i % 2 == 0,
            i <= len,
            start == old(out)@.len(),
            forall|k: int| 0 <= k < i ==> is_lower_hex_digit(#[trigger] src@[k]),
            out@ == old(out)@ + hex_pack(src@.subrange(0, i as int)),
        decreases len - i,
    {
        let hi = nibble_of(src[i]);
        let lo = nibble_of(src[i + 1]);
        match (hi, lo) {
            (Some(h), Some(l)) => {
                let b = h * 16 + l;
                proof {
                    let t = src@.subrange(0, i + 2);
                    assert(hex_pack(t) =~= hex_pack(src@.subrange(0, i as int)).push(b));
                }
                out.push(b);
                i = i + 2;
            },
            _ => {
                out.truncate(start);
                proof {
                    assert(out@ =~= old(out)@);
                    if hi is None {
                        assert(!is_lower_hex_digit(src@[i as int]));
                    } else {
                        assert(!is_lower_hex_digit(src@[i + 1]));
                    }
                }
                return false;
            },
        }
    }
    assert(src@.subrange(0, len as int) =~= src@);
    true
}

/// Appends the lowercase hex text of `src` to `out`.
pub fn hex_encode_into(src: &[u8], out: &mut Vec<u8>)
    ensures
        final(out)@ == old(out)@ + hex_unpack(src@),
{
    let len = src.len();
    let mut i: usize = 0;
    while i < len
        invariant
            len == src@.len(),
            i <= len,
            out@ == old(out)@ + hex_unpack(src@.subrange(0, i as int)),
        decreases len - i,
    {
        let b = src[i];
        let hi = digit_of(b / 16);
        let lo = digit_of(b % 16);
        proof {
            let t = src@.subrange(0, i + 1);
            assert(hex_unpack(t) =~= hex_unpack(src@.subrange(0, i as int)).push(hi).push(lo));
        }
        out.push(hi);
        out.push(lo);
        i = i + 1;
    }
    assert(src@.subrange(0, len as int) =~= src@);
}

} // verus!
