//! Little-endian integer encodings used by the account layout and the
//! instruction arguments (borsh encodes every integer little-endian).

use vstd::prelude::*;

verus! {

/// The value of two little-endian bytes.
pub open spec fn le_u16(b: Seq<u8>) -> u16 {
    (b[0] + 256 * b[1]) as u16
}

/// The value of four little-endian bytes.
pub open spec fn le_u32(b: Seq<u8>) -> u32 {
    (b[0] + 256 * b[1] + 65536 * b[2] + 16777216 * b[3]) as u32
}

/// The value of eight little-endian bytes.
pub open spec fn le_u64(b: Seq<u8>) -> u64 {
    (le_u32(b.subrange(0, 4)) + 4294967296 * le_u32(b.subrange(4, 8))) as u64
}

/// The two's complement value of eight little-endian bytes.
pub open spec fn le_i64(b: Seq<u8>) -> i64 {
    le_u64(b) as i64
}

/// The little-endian encoding of a `u16`.
pub open spec fn u16_le(x: u16) -> Seq<u8> {
    seq![(x % 256) as u8, (x / 256) as u8]
}

/// The little-endian encoding of a `u32`.
pub open spec fn u32_le(x: u32) -> Seq<u8> {
    seq![(x % 256) as u8, ((x / 256) % 256) as u8, ((x / 65536) % 256) as u8, (x / 16777216) as u8]
}

/// The little-endian encoding of a `u64`.
pub open spec fn u64_le(x: u64) -> Seq<u8> {
    u32_le((x % 4294967296) as u32) + u32_le((x / 4294967296) as u32)
}

/// The little-endian two's complement encoding of an `i64`.
pub open spec fn i64_le(x: i64) -> Seq<u8> {
    u64_le(x as u64)
}

/// Decoding inverts encoding, for `u16`.
pub proof fn lemma_u16_le(x: u16)
    ensures
        u16_le(x).len() == 2,
        le_u16(u16_le(x)) == x,
{
    assert((x % 256) + 256 * (x / 256) == x) by (nonlinear_arith);
}

/// Encoding inverts decoding, for two bytes.
pub proof fn lemma_le_u16(b: Seq<u8>)
    requires
        b.len() == 2,
    ensures
        u16_le(le_u16(b)) == b,
{
    let x = le_u16(b);
    assert(x == b[0] + 256 * b[1]);
    assert(x % 256 == b[0] && x / 256 == b[1]) by (nonlinear_arith)
        requires
            x == b[0] + 256 * b[1],
            0 <= b[0] < 256,
            0 <= b[1] < 256,
    ;
    assert(u16_le(x) =~= b);
}

/// Encoding inverts decoding, for eight bytes.
pub proof fn lemma_le_u64(b: Seq<u8>)
    requires
        b.len() == 8,
    ensures
        u64_le(le_u64(b)) == b,
{
    let lo = le_u32(b.subrange(0, 4));
    let hi = le_u32(b.subrange(4, 8));
    let x = le_u64(b);
    assert(x == lo + 4294967296 * hi);
    assert(x % 4294967296 == lo && x / 4294967296 == hi) by (nonlinear_arith)
        requires
            x == lo + 4294967296 * hi,
            0 <= lo < 4294967296,
    ;
    lemma_le_u32(b.subrange(0, 4));
    lemma_le_u32(b.subrange(4, 8));
    assert(u64_le(x) =~= b);
}

/// Encoding inverts decoding, for eight bytes read as an `i64`.
pub proof fn lemma_le_i64(b: Seq<u8>)
    requires
        b.len() == 8,
    ensures
        i64_le(le_i64(b)) == b,
{
    let x = le_u64(b);
    lemma_le_u64(b);
    assert((x as i64) as u64 == x) by (bit_vector);
}

/// Decoding inverts encoding, for `u32`.
pub proof fn lemma_u32_le(x: u32)
    ensures
        u32_le(x).len() == 4,
        le_u32(u32_le(x)) == x,
{
    let b = u32_le(x);
    assert(b[0] + 256 * b[1] + 65536 * b[2] + 16777216 * b[3] == x) by (nonlinear_arith)
        requires
            b[0] == x % 256,
            b[1] == (x / 256) % 256,
            b[2] == (x / 65536) % 256,
            b[3] == x / 16777216,
            0 <= x < 0x1_0000_0000,
    ;
}

/// Encoding inverts decoding, for four bytes.
pub proof fn lemma_le_u32(b: Seq<u8>)
    requires
        b.len() == 4,
    ensures
        u32_le(le_u32(b)) == b,
{
    let x = le_u32(b);
    assert(x == b[0] + 256 * b[1] + 65536 * b[2] + 16777216 * b[3]);
    assert(x % 256 == b[0] && (x / 256) % 256 == b[1] && (x / 65536) % 256 == b[2] && x / 16777216
        == b[3]) by (nonlinear_arith)
        requires
            x == b[0] + 256 * b[1] + 65536 * b[2] + 16777216 * b[3],
            0 <= b[0] < 256,
            0 <= b[1] < 256,
            0 <= b[2] < 256,
            0 <= b[3] < 256,
    ;
    assert(u32_le(x) =~= b);
}

/// Decoding inverts encoding, for `u64`.
pub proof fn lemma_u64_le(x: u64)
    ensures
        u64_le(x).len() == 8,
        le_u64(u64_le(x)) == x,
{
    let lo = (x % 4294967296) as u32;
    let hi = (x / 4294967296) as u32;
    lemma_u32_le(lo);
    lemma_u32_le(hi);
    let b = u64_le(x);
    assert(b.subrange(0, 4) =~= u32_le(lo));
    assert(b.subrange(4, 8) =~= u32_le(hi));
    assert(lo + 4294967296 * hi == x) by (nonlinear_arith)
        requires
            lo == x % 4294967296,
            hi == x / 4294967296,
    ;
}

/// Decoding inverts encoding, for `i64`.
pub proof fn lemma_i64_le(x: i64)
    ensures
        i64_le(x).len() == 8,
        le_i64(i64_le(x)) == x,
{
    lemma_u64_le(x as u64);
    assert((x as u64) as i64 == x) by (bit_vector);
}

/// Reads two little-endian bytes at `off`.
pub fn get_u16(data: &[u8], off: usize) -> (v: u16)
    requires
        off + 2 <= data@.len(),
    ensures
        v == le_u16(data@.subrange(off as int, off + 2)),
{
    let b0 = data[off] as u16;
    let b1 = data[off + 1] as u16;
    b0 + 256 * b1
}

/// Reads four little-endian bytes at `off`.
pub fn get_u32(data: &[u8], off: usize) -> (v: u32)
    requires
        off + 4 <= data@.len(),
    ensures
        v == le_u32(data@.subrange(off as int, off + 4)),
{
    let b0 = data[off] as u32;
    let b1 = data[off + 1] as u32;
    let b2 = data[off + 2] as u32;
    let b3 = data[off + 3] as u32;
    b0 + 256 * b1 + 65536 * b2 + 16777216 * b3
}

/// Reads eight little-endian bytes at `off`.
pub fn get_u64(data: &[u8], off: usize) -> (v: u64)
    requires
        off + 8 <= data@.len(),
    ensures
        v == le_u64(data@.subrange(off as int, off + 8)),
{
    let _len = data.len();
    let lo = get_u32(data, off) as u64;
    let hi = get_u32(data, off + 4) as u64;
    let ghost s = data@.subrange(off as int, off + 8);
    assert(s.subrange(0, 4) =~= data@.subrange(off as int, off + 4));
    assert(s.subrange(4, 8) =~= data@.subrange(off + 4, off + 8));
    lo + 4294967296 * hi
}

/// Appends the little-endian encoding of `x`.
pub fn push_u16(out: &mut Vec<u8>, x: u16)
    ensures
        final(out)@ == old(out)@ + u16_le(x),
{
    out.push((x % 256) as u8);
    out.push((x / 256) as u8);
    assert(final(out)@ =~= old(out)@ + u16_le(x));
}

/// Appends the little-endian encoding of `x`.
pub fn push_u32(out: &mut Vec<u8>, x: u32)
    ensures
        final(out)@ == old(out)@ + u32_le(x),
{
    out.push((x % 256) as u8);
    out.push(((x / 256) % 256) as u8);
    out.push(((x / 65536) % 256) as u8);
    out.push((x / 16777216) as u8);
    assert(final(out)@ =~= old(out)@ + u32_le(x));
}

/// Appends the little-endian encoding of `x`.
pub fn push_u64(out: &mut Vec<u8>, x: u64)
    ensures
        final(out)@ == old(out)@ + u64_le(x),
{
    let ghost start = out@;
    push_u32(out, (x % 4294967296) as u32);
    push_u32(out, (x / 4294967296) as u32);
    assert(final(out)@ =~= start + u64_le(x));
}

/// Appends the little-endian two's complement encoding of `x`.
pub fn push_i64(out: &mut Vec<u8>, x: i64)
    ensures
        final(out)@ == old(out)@ + i64_le(x),
{
    push_u64(out, x as u64);
}

/// Appends a copy of `bytes`.
pub fn push_bytes(out: &mut Vec<u8>, bytes: &[u8])
    ensures
        final(out)@ == old(out)@ + bytes@,
{
    let ghost start = out@;
    let mut i: usize = 0;
    while i < bytes.len()
        invariant
            i <= bytes@.len(),
            out@ == start + bytes@.subrange(0, i as int),
        decreases bytes@.len() - i,
    {
        out.push(bytes[i]);
        i = i + 1;
        assert(out@ =~= start + bytes@.subrange(0, i as int));
    }
    assert(bytes@.subrange(0, bytes@.len() as int) =~= bytes@);
}

} // verus!
