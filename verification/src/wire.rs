//! Byte orders of 16-bit register values and bit flags of status bytes.

use vstd::prelude::*;

verus! {

/// `v` in big-endian byte order (SCSCL series).
pub open spec fn be16(v: u16) -> Seq<u8> {
    seq![(v / 256) as u8, (v % 256) as u8]
}

/// `v` in little-endian byte order (SMS/STS series).
pub open spec fn le16(v: u16) -> Seq<u8> {
    seq![(v % 256) as u8, (v / 256) as u8]
}

/// The value of the big-endian bytes `b[0] b[1]`.
pub open spec fn from_be16(b: Seq<u8>) -> u16 {
    (b[0] * 256 + b[1]) as u16
}

/// The value of the little-endian bytes `b[0] b[1]`.
pub open spec fn from_le16(b: Seq<u8>) -> u16 {
    (b[1] * 256 + b[0]) as u16
}

/// Bit `n` (0 = least significant) of `b` is set.
pub open spec fn bit(b: u8, n: u8) -> bool {
    (b >> n) & 1 == 1
}

pub fn u16_to_be(v: u16) -> (b: [u8; 2])
    ensures
        b@ == be16(v),
{
    let hi = (v >> 8) as u8;
    let lo = (v & 0xFF) as u8;
    assert(hi == v / 256 && lo == v % 256) by (bit_vector)
        requires
            hi == (v >> 8) as u8,
            lo == (v & 0xFF) as u8,
    ;
    let b = [hi, lo];
    assert(b@ =~= be16(v));
    b
}

pub fn u16_to_le(v: u16) -> (b: [u8; 2])
    ensures
        b@ == le16(v),
{
    let hi = (v >> 8) as u8;
    let lo = (v & 0xFF) as u8;
    assert(hi == v / 256 && lo == v % 256) by (bit_vector)
        requires
            hi == (v >> 8) as u8,
            lo == (v & 0xFF) as u8,
    ;
    let b = [lo, hi];
    assert(b@ =~= le16(v));
    b
}

pub fn u16_from_be(b0: u8, b1: u8) -> (v: u16)
    ensures
        v == from_be16(seq![b0, b1]),
{
    let v = ((b0 as u16) << 8) | (b1 as u16);
    assert(v == b0 * 256 + b1) by (bit_vector)
        requires
            v == ((b0 as u16) << 8) | (b1 as u16),
    ;
    v
}

pub fn u16_from_le(b0: u8, b1: u8) -> (v: u16)
    ensures
        v == from_le16(seq![b0, b1]),
{
    let v = ((b1 as u16) << 8) | (b0 as u16);
    assert(v == b1 * 256 + b0) by (bit_vector)
        requires
            v == ((b1 as u16) << 8) | (b0 as u16),
    ;
    v
}

/// Bit `n` of `b`.
pub fn bit_of(b: u8, n: u8) -> (set: bool)
    requires
        n < 8,
    ensures
        set == bit(b, n),
{
    (b >> n) & 1 == 1
}

/// Decoding the big-endian bytes of a value gives the value back.
pub proof fn lemma_be16_round_trip(v: u16)
    ensures
        from_be16(be16(v)) == v,
{
}

/// Decoding the little-endian bytes of a value gives the value back.
pub proof fn lemma_le16_round_trip(v: u16)
    ensures
        from_le16(le16(v)) == v,
{
}

} // verus!
