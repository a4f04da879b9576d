//! Variable-length integers and the length/flag header that precedes every
//! variable-length byte run of the compact codec.

use vstd::prelude::*;
use vstd::utf8::*;
use crate::hexpack::{
    is_lower_hex, MIN_HEX_LEN, hex_compressible, hex_decode_into, hex_encode_into, hex_pack, hex_unpack, lemma_hex_unpack_pack,
    might_be_hex,
};

verus! {

/// Errors reported while decoding the compact binary format.
#[derive(Debug, Clone, Copy, PartialEq, Eq, Structural)]
pub enum DannyPackError {
    /// The buffer ends before a fixed block, varint or length-prefixed run completes.
    TooShort,
    /// The tag list is internally inconsistent.
    InvalidTagData,
    /// A varint does not fit in 64 bits (or spans more than ten bytes).
    InvalidVarint,
    /// A literal byte run is not valid UTF-8.
    InvalidUtf8,
}

/// The largest number of bytes a varint of a 64-bit value may span.
pub const MAX_VARINT_LEN: usize = 10;

/// LEB128 encoding of `v`: seven value bits per byte, least significant group
/// first, high bit set on every byte but the last.
pub open spec fn varint_spec(v: nat) -> Seq<u8>
    decreases v,
{
    if v < 128 {
        seq![v as u8]
    } else {
        seq![(v % 128 + 128) as u8] + varint_spec(v / 128)
    }
}

/// Reads a varint from the front of `d`, reading at most `budget` bytes.
/// Yields the (unbounded) value and the number of bytes consumed.
pub open spec fn varint_from(d: Seq<u8>, budget: nat) -> Result<(nat, nat), DannyPackError>
    decreases budget,
{
    if budget == 0 {
        Err(DannyPackError::InvalidVarint)
    } else if d.len() == 0 {
        Err(DannyPackError::TooShort)
    } else if d[0] < 128 {
        Ok((d[0] as nat, 1))
    } else {
        match varint_from(d.drop_first(), (budget - 1) as nat) {
            Ok((v, n)) => Ok(((d[0] - 128) as nat + 128 * v, n + 1)),
            Err(e) => Err(e),
        }
    }
}

/// A varint read result, with values beyond 64 bits rejected.
pub open spec fn bounded(r: Result<(nat, nat), DannyPackError>) -> Result<(u64, nat), DannyPackError> {
    match r {
        Ok((v, n)) => if v <= u64::MAX as nat {
            Ok((v as u64, n))
        } else {
            Err(DannyPackError::InvalidVarint)
        },
        Err(e) => Err(e),
    }
}

/// Decodes the varint at the front of `d`: its value and its length in bytes.
pub open spec fn parse_varint(d: Seq<u8>) -> Result<(u64, nat), DannyPackError> {
    bounded(varint_from(d, MAX_VARINT_LEN as nat))
}

/// Appends the varint encoding of `value` to `buf`; returns the bytes written.
pub fn write_varint(buf: &mut Vec<u8>, value: u64) -> (n: usize)
    ensures
        final(buf)@ == old(buf)@ + varint_spec(value as nat),
        n == varint_spec(value as nat).len(),
        1 <= n <= MAX_VARINT_LEN,
{
    let mut v = value;
    let mut n: usize = 1;
    proof {
        lemma_varint_len_bound(value as nat, MAX_VARINT_LEN as nat);
    }
    while v >= 128
        invariant
            buf@ + varint_spec(v as nat) == old(buf)@ + varint_spec(value as nat),
            n + varint_spec(v as nat).len() == varint_spec(value as nat).len() + 1,
            varint_spec(value as nat).len() <= MAX_VARINT_LEN,
        decreases v,
    {
        let b = (v % 128 + 128) as u8;
        proof {
            assert(varint_spec(v as nat) == seq![b] + varint_spec((v / 128) as nat));
            assert(buf@.push(b) + varint_spec((v / 128) as nat) =~= buf@ + varint_spec(v as nat));
        }
        buf.push(b);
        v = v / 128;
        n = n + 1;
    }
    proof {
        assert(buf@.push(v as u8) =~= buf@ + varint_spec(v as nat));
    }
    buf.push(v as u8);
    n
}

/// Number of bytes the varint encoding of `value` takes.
pub fn varint_size(value: u64) -> (n: usize)
    ensures
        n == varint_spec(value as nat).len(),
        1 <= n <= MAX_VARINT_LEN,
{
    let mut v = value;
    let mut n: usize = 1;
    proof {
        lemma_varint_len_bound(value as nat, MAX_VARINT_LEN as nat);
    }
    while v >= 128
        invariant
            n + varint_spec(v as nat).len() == varint_spec(value as nat).len() + 1,
            varint_spec(value as nat).len() <= MAX_VARINT_LEN,
            varint_spec(v as nat).len() >= 1,
        decreases v,
    {
        v = v / 128;
        n = n + 1;
    }
    n
}

/// Reads the varint at `data[pos..]`, reading at most `budget` bytes.
fn read_varint_budget(data: &[u8], pos: usize, budget: usize) -> (r: Result<(u64, usize), DannyPackError>)
    requires
        pos <= data@.len(),
        budget <= MAX_VARINT_LEN,
    ensures
        match (r, bounded(varint_from(data@.subrange(pos as int, data@.len() as int), budget as nat))) {
            (Ok((v, n)), Ok((sv, sn))) => v == sv && n == sn,
            (Err(e), Err(se)) => e == se,
            _ => false,
        },
        r is Ok ==> 1 <= r->Ok_0.1 <= budget,
    decreases budget,
{
    let ghost d = data@.subrange(pos as int, data@.len() as int);
    if budget == 0 {
        return Err(DannyPackError::InvalidVarint);
    }
    if pos >= data.len() {
        return Err(DannyPackError::TooShort);
    }
    let b = data[pos];
    if b < 128 {
        return Ok((b as u64, 1));
    }
    proof {
        assert(data@.subrange(pos + 1, data@.len() as int) =~= d.drop_first());
    }
    let low = (b - 128) as u64;
    match read_varint_budget(data, pos + 1, budget - 1) {
        Ok((v, n)) => {
            if v > (u64::MAX - low) / 128 {
                proof {
                    assert(low + 128 * v > u64::MAX) by (nonlinear_arith)
                        requires v > (u64::MAX - low) / 128, low < 128;
                }
                Err(DannyPackError::InvalidVarint)
            } else {
                proof {
                    assert(low + 128 * v <= u64::MAX) by (nonlinear_arith)
                        requires v <= (u64::MAX - low) / 128, low < 128;
                }
                Ok((low + 128 * v, n + 1))
            }
        },
        Err(e) => {
            proof {
                // a value that already overflows keeps overflowing once shifted
                match varint_from(d.drop_first(), (budget - 1) as nat) {
                    Ok((sv, sn)) => {
                        assert((d[0] - 128) as nat + 128 * sv > u64::MAX as nat) by (nonlinear_arith)
                            requires sv > u64::MAX as nat;
                    },
                    Err(_) => {},
                }
            }
            Err(e)
        },
    }
}

/// Decodes the varint at `data[pos..]`: its value and its length in bytes.
pub fn read_varint(data: &[u8], pos: usize) -> (r: Result<(u64, usize), DannyPackError>)
    requires
        pos <= data@.len(),
    ensures
        match (r, parse_varint(data@.subrange(pos as int, data@.len() as int))) {
            (Ok((v, n)), Ok((sv, sn))) => v == sv && n == sn,
            (Err(e), Err(se)) => e == se,
            _ => false,
        },
        r is Ok ==> 1 <= r->Ok_0.1 <= MAX_VARINT_LEN,
{
    read_varint_budget(data, pos, MAX_VARINT_LEN)
}

pub open spec fn pow128(k: nat) -> nat
    decreases k,
{
    if k == 0 {
        1
    } else {
        128 * pow128((k - 1) as nat)
    }
}

proof fn lemma_pow128_ten()
    ensures
        pow128(10) > u64::MAX as nat,
{
    reveal_with_fuel(pow128, 11);
}

/// A value below `128^k` takes at most `k` bytes; every 64-bit value takes at most ten.
pub proof fn lemma_varint_len_bound(v: nat, k: nat)
    requires
        k >= 1,
        v < pow128(k) || (k == MAX_VARINT_LEN && v <= u64::MAX),
    ensures
        1 <= varint_spec(v).len() <= k,
    decreases v,
{
    if k == MAX_VARINT_LEN {
        lemma_pow128_ten();
    }
    if v >= 128 {
        assert(k >= 2) by {
            if k == 1 {
                assert(pow128(1) == 128 * pow128(0));
            }
        }
        assert(v < pow128(k));
        assert(v / 128 < pow128((k - 1) as nat)) by (nonlinear_arith)
            requires v < pow128(k), pow128(k) == 128 * pow128((k - 1) as nat);
        lemma_varint_len_bound(v / 128, (k - 1) as nat);
    }
}

/// Decoding the encoding of `v`, followed by anything, gives back `v` and
/// the encoding's length, provided the budget covers that length.
pub proof fn lemma_varint_roundtrip(v: nat, rest: Seq<u8>, budget: nat)
    requires
        varint_spec(v).len() <= budget,
    ensures
        varint_from(varint_spec(v) + rest, budget) == Ok::<(nat, nat), DannyPackError>((v, varint_spec(v).len())),
    decreases v,
{
    let d = varint_spec(v) + rest;
    if v >= 128 {
        assert(d.drop_first() =~= varint_spec(v / 128) + rest);
        lemma_varint_roundtrip(v / 128, rest, (budget - 1) as nat);
        assert(v == v % 128 + 128 * (v / 128));
    }
}

/// A successful read depends only on the bytes it consumed.
pub proof fn lemma_varint_extend(d: Seq<u8>, q: Seq<u8>, budget: nat)
    requires
        varint_from(d, budget) is Ok,
    ensures
        varint_from(d + q, budget) == varint_from(d, budget),
        varint_from(d, budget)->Ok_0.1 <= d.len(),
    decreases budget,
{
    if d[0] >= 128 {
        assert((d + q).drop_first() =~= d.drop_first() + q);
        lemma_varint_extend(d.drop_first(), q, (budget - 1) as nat);
    }
}

/// Bit 7 of a header byte: the run holds hex-compressed text.
pub const HEX_FLAG: u8 = 0x80;

/// Low seven bits of a header byte that announce a following varint length.
pub const LONG_LEN: u8 = 0x7F;

/// Header of a byte run of `len` bytes, flagged when it holds hex-compressed text.
pub open spec fn header_spec(len: nat, hex: bool) -> Seq<u8> {
    let flag: nat = if hex { 128 } else { 0 };
    if len < 127 {
        seq![(flag + len) as u8]
    } else {
        seq![(flag + 127) as u8] + varint_spec(len)
    }
}

/// Decodes the header at the front of `d`: run length, hex flag, header length.
pub open spec fn parse_header(d: Seq<u8>) -> Result<(nat, bool, nat), DannyPackError> {
    if d.len() == 0 {
        Err(DannyPackError::TooShort)
    } else {
        let hex = d[0] >= 128;
        let low = d[0] % 128;
        if low < 127 {
            Ok((low as nat, hex, 1))
        } else {
            match parse_varint(d.drop_first()) {
                Ok((v, n)) => Ok((v as nat, hex, n + 1)),
                Err(e) => Err(e),
            }
        }
    }
}

/// Appends the header of a run of `len` bytes; returns the bytes written.
pub fn write_len_flag(buf: &mut Vec<u8>, len: usize, is_hex: bool) -> (n: usize)
    ensures
        final(buf)@ == old(buf)@ + header_spec(len as nat, is_hex),
        n == header_spec(len as nat, is_hex).len(),
{
    let flag: u8 = if is_hex { HEX_FLAG } else { 0 };
    if len < LONG_LEN as usize {
        let b = flag + len as u8;
        proof {
            assert(buf@.push(b) =~= buf@ + header_spec(len as nat, is_hex));
        }
        buf.push(b);
        1
    } else {
        buf.push(flag + LONG_LEN);
        let k = write_varint(buf, len as u64);
        proof {
            assert(buf@ =~= old(buf)@ + header_spec(len as nat, is_hex));
        }
        1 + k
    }
}

/// Decodes the header at `data[pos..]`: run length, hex flag, header length.
pub fn read_len_flag(data: &[u8], pos: usize) -> (r: Result<(u64, bool, usize), DannyPackError>)
    requires
        pos <= data@.len(),
    ensures
        match (r, parse_header(data@.subrange(pos as int, data@.len() as int))) {
            (Ok((len, hex, n)), Ok((slen, shex, sn))) => len == slen && hex == shex && n == sn,
            (Err(e), Err(se)) => e == se,
            _ => false,
        },
        r is Ok ==> 1 <= r->Ok_0.2 <= 1 + MAX_VARINT_LEN,
{
    let ghost d = data@.subrange(pos as int, data@.len() as int);
    if pos >= data.len() {
        return Err(DannyPackError::TooShort);
    }
    let h = data[pos];
    let is_hex = h >= HEX_FLAG;
    let low = h % 128;
    if low < LONG_LEN {
        Ok((low as u64, is_hex, 1))
    } else {
        proof {
            assert(data@.subrange(pos + 1, data@.len() as int) =~= d.drop_first());
        }
        match read_varint(data, pos + 1) {
            Ok((v, n)) => Ok((v, is_hex, n + 1)),
            Err(e) => Err(e),
        }
    }
}

/// Decoding a header, followed by anything, gives back its length and flag.
pub proof fn lemma_header_roundtrip(len: nat, hex: bool, rest: Seq<u8>)
    requires
        len <= u64::MAX,
    ensures
        parse_header(header_spec(len, hex) + rest) == Ok::<(nat, bool, nat), DannyPackError>(
            (len, hex, header_spec(len, hex).len()),
        ),
{
    let d = header_spec(len, hex) + rest;
    if len >= 127 {
        lemma_varint_len_bound(len, MAX_VARINT_LEN as nat);
        assert(d.drop_first() =~= varint_spec(len) + rest);
        lemma_varint_roundtrip(len, rest, MAX_VARINT_LEN as nat);
    }
}

/// A successful header read depends only on the bytes it consumed.
pub proof fn lemma_header_extend(d: Seq<u8>, q: Seq<u8>)
    requires
        parse_header(d) is Ok,
    ensures
        parse_header(d + q) == parse_header(d),
        parse_header(d)->Ok_0.2 <= d.len(),
{
    if d[0] % 128 >= 127 {
        assert((d + q).drop_first() =~= d.drop_first() + q);
        lemma_varint_extend(d.drop_first(), q, MAX_VARINT_LEN as nat);
    }
}

/// The run that stores the text bytes `t`: hex-compressed when the heuristic
/// accepts `t`, literal otherwise.
pub open spec fn run_spec(t: Seq<u8>) -> Seq<u8> {
    if hex_compressible(t) {
        header_spec(t.len() / 2, true) + hex_pack(t)
    } else {
        header_spec(t.len(), false) + t
    }
}

/// Text bytes that a run's payload stands for.
pub open spec fn run_text(payload: Seq<u8>, hex: bool) -> Seq<u8> {
    if hex {
        hex_unpack(payload)
    } else {
        payload
    }
}

/// Decodes the run at the front of `d`: its text and the bytes it took.
pub open spec fn parse_run(d: Seq<u8>) -> Result<(Seq<char>, nat), DannyPackError> {
    match parse_header(d) {
        Err(e) => Err(e),
        Ok((len, hex, h)) => if h + len > d.len() {
            Err(DannyPackError::TooShort)
        } else {
            let text = run_text(d.subrange(h as int, (h + len) as int), hex);
            if valid_utf8(text) {
                Ok((decode_utf8(text), h + len))
            } else {
                Err(DannyPackError::InvalidUtf8)
            }
        },
    }
}

/// Relies on `String::from_utf8`: it accepts exactly the valid UTF-8 byte
/// sequences, and the string it returns holds the characters they encode.
#[verifier::external_body]
pub(crate) fn string_from_utf8(bytes: Vec<u8>) -> (r: Option<String>)
    ensures
        match r {
            Some(s) => valid_utf8(bytes@) && s@ == decode_utf8(bytes@),
            None => !valid_utf8(bytes@),
        },
{
    String::from_utf8(bytes).ok()
}

/// Appends the run that stores the text bytes `t`.
pub fn write_run(buf: &mut Vec<u8>, t: &[u8])
    ensures
        final(buf)@ == old(buf)@ + run_spec(t@),
{
    let len = t.len();
    if might_be_hex(t) {
        let mut packed: Vec<u8> = Vec::new();
        if hex_decode_into(t, &mut packed) {
            assert(packed@ =~= hex_pack(t@));
            write_len_flag(buf, len / 2, true);
            let ghost mid = buf@;
            buf.extend_from_slice(packed.as_slice());
            assert(buf@ =~= mid + packed@);
            assert(buf@ =~= old(buf)@ + run_spec(t@));
            return;
        }
    }
    write_len_flag(buf, len, false);
    let ghost mid = buf@;
    buf.extend_from_slice(t);
    assert(buf@ =~= mid + t@);
    assert(buf@ =~= old(buf)@ + run_spec(t@));
}

/// Decodes the run at `data[pos..limit]`: its text and the bytes it took.
pub fn read_run(data: &[u8], pos: usize, limit: usize) -> (r: Result<(String, usize), DannyPackError>)
    requires
        pos <= limit <= data@.len(),
    ensures
        match (r, parse_run(data@.subrange(pos as int, limit as int))) {
            (Ok((s, n)), Ok((ss, sn))) => s@ == ss && n == sn,
            (Err(e), Err(se)) => e == se,
            _ => false,
        },
{
    let ghost d = data@.subrange(pos as int, limit as int);
    let window = &data[0..limit];
    assert(window@.subrange(pos as int, window@.len() as int) =~= d);
    let (len, is_hex, h) = match read_len_flag(window, pos) {
        Ok(x) => x,
        Err(e) => return Err(e),
    };
    proof {
        lemma_header_extend(d, Seq::empty());
    }
    let avail = limit - pos - h;
    if len > avail as u64 {
        return Err(DannyPackError::TooShort);
    }
    let len = len as usize;
    let start = pos + h;
    let payload = &data[start..start + len];
    assert(payload@ =~= d.subrange(h as int, (h + len) as int));
    let mut text: Vec<u8> = Vec::new();
    if is_hex {
        hex_encode_into(payload, &mut text);
    } else {
        text.extend_from_slice(payload);
    }
    assert(text@ =~= run_text(payload@, is_hex));
    match string_from_utf8(text) {
        Some(s) => Ok((s, h + len)),
        None => Err(DannyPackError::InvalidUtf8),
    }
}

/// Decoding the run of the UTF-8 encoding of `s`, followed by anything,
/// gives back `s` and the run's length.
pub proof fn lemma_run_roundtrip(s: Seq<char>, rest: Seq<u8>)
    requires
        encode_utf8(s).len() <= u64::MAX,
    ensures
        parse_run(run_spec(encode_utf8(s)) + rest) == Ok::<(Seq<char>, nat), DannyPackError>(
            (s, run_spec(encode_utf8(s)).len()),
        ),
{
    broadcast use encode_utf8_valid_utf8, encode_utf8_decode_utf8;

    let t = encode_utf8(s);
    let d = run_spec(t) + rest;
    if hex_compressible(t) {
        let p = hex_pack(t);
        let hd = header_spec(t.len() / 2, true);
        assert(d =~= hd + (p + rest));
        lemma_header_roundtrip(t.len() / 2, true, p + rest);
        assert(d.subrange(hd.len() as int, (hd.len() + p.len()) as int) =~= p);
        lemma_hex_unpack_pack(t);
    } else {
        let hd = header_spec(t.len(), false);
        assert(d =~= hd + (t + rest));
        lemma_header_roundtrip(t.len(), false, t + rest);
        assert(d.subrange(hd.len() as int, (hd.len() + t.len()) as int) =~= t);
    }
}

/// A successful run read depends only on the bytes it consumed.
pub proof fn lemma_run_extend(d: Seq<u8>, q: Seq<u8>)
    requires
        parse_run(d) is Ok,
    ensures
        parse_run(d + q) == parse_run(d),
        parse_run(d)->Ok_0.1 <= d.len(),
{
    lemma_header_extend(d, q);
    let (len, hex, h) = parse_header(d)->Ok_0;
    assert((d + q).subrange(h as int, (h + len) as int) =~= d.subrange(h as int, (h + len) as int));
}

/// Varint length grows with the value.
pub proof fn lemma_varint_len_monotone(a: nat, b: nat)
    requires
        a <= b,
    ensures
        varint_spec(a).len() <= varint_spec(b).len(),
    decreases b,
{
    if a >= 128 {
        lemma_varint_len_monotone(a / 128, b / 128);
    }
}

/// Header length grows with the run length, whatever the flag.
pub proof fn lemma_header_len_monotone(a: nat, b: nat, hex_a: bool, hex_b: bool)
    requires
        a <= b,
    ensures
        header_spec(a, hex_a).len() <= header_spec(b, hex_b).len(),
{
    if a >= 127 {
        lemma_varint_len_monotone(a, b);
    }
}

/// The literal run of the text bytes `t`: header and bytes as they are.
pub open spec fn literal_run(t: Seq<u8>) -> Seq<u8> {
    header_spec(t.len(), false) + t
}

/// Text shorter than eight bytes, or holding any byte that is not a lowercase
/// hex digit (an uppercase one included), is stored literally, so its case is kept.
pub proof fn lemma_literal_unless_lower_hex(t: Seq<u8>)
    requires
        t.len() < MIN_HEX_LEN || !is_lower_hex(t),
    ensures
        run_spec(t) == literal_run(t),
{
}

/// Hex compression never makes a run longer than the literal run, and makes
/// it shorter whenever it applies.
pub proof fn lemma_hex_run_shorter(t: Seq<u8>)
    ensures
        run_spec(t).len() <= literal_run(t).len(),
        hex_compressible(t) ==> run_spec(t).len() < literal_run(t).len(),
{
    if hex_compressible(t) {
        lemma_header_len_monotone(t.len() / 2, t.len(), true, false);
    }
}

} // verus!
