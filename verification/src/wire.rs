//! Byte order of the numbers on the wire.

use vstd::prelude::*;

verus! {

/// The unsigned number whose big-endian bytes are `hi`, `lo`.
pub open spec fn be_u16(hi: u8, lo: u8) -> u16 {
    (hi * 256 + lo) as u16
}

/// The number of which `x` is the two's complement representation.
pub open spec fn as_signed(x: u16) -> i16 {
    (if x >= 0x8000 {
        x - 0x1_0000
    } else {
        x as int
    }) as i16
}

/// The two's complement representation of `x`.
pub open spec fn as_unsigned(x: i16) -> u16 {
    (if x < 0 {
        x + 0x1_0000
    } else {
        x as int
    }) as u16
}

/// The signed number whose big-endian bytes are `hi`, `lo`.
pub open spec fn be_i16(hi: u8, lo: u8) -> i16 {
    as_signed(be_u16(hi, lo))
}

/// The bytes of `x`, most significant first.
pub open spec fn be_bytes(x: u16) -> Seq<u8> {
    seq![(x / 256) as u8, (x % 256) as u8]
}

/// The bytes of `x`, least significant first.
pub open spec fn le_bytes(x: i16) -> Seq<u8> {
    seq![(as_unsigned(x) % 256) as u8, (as_unsigned(x) / 256) as u8]
}

/// Reads an unsigned big-endian number.
pub fn u16_from_be(hi: u8, lo: u8) -> (r: u16)
    ensures
        r == be_u16(hi, lo),
{
    hi as u16 * 256 + lo as u16
}

/// Reads a signed big-endian number.
pub fn i16_from_be(hi: u8, lo: u8) -> (r: i16)
    ensures
        r == be_i16(hi, lo),
{
    let x: u16 = u16_from_be(hi, lo);
    assert(x as i16 == (if x >= 0x8000 {
        x - 0x1_0000
    } else {
        x as int
    })) by (bit_vector);
    x as i16
}

/// The two bytes of an unsigned number, most significant first.
pub fn u16_to_be(x: u16) -> (r: (u8, u8))
    ensures
        seq![r.0, r.1] == be_bytes(x),
{
    ((x / 256) as u8, (x % 256) as u8)
}

/// The two bytes of a signed number, least significant first.
pub fn i16_to_le(x: i16) -> (r: (u8, u8))
    ensures
        seq![r.0, r.1] == le_bytes(x),
{
    assert(x as u16 == (if x < 0 {
        x + 0x1_0000
    } else {
        x as int
    })) by (bit_vector);
    let u: u16 = x as u16;
    ((u % 256) as u8, (u / 256) as u8)
}

/// Reading back the big-endian bytes of a number gives that number.
pub proof fn lemma_be_round_trip(x: u16)
    ensures
        be_bytes(x).len() == 2,
        be_u16(be_bytes(x)[0], be_bytes(x)[1]) == x,
{
}

/// Two bytes are the big-endian bytes of the number that they encode.
pub proof fn lemma_be_bytes_of_parsed(hi: u8, lo: u8)
    ensures
        be_bytes(be_u16(hi, lo)) == seq![hi, lo],
{
}

/// A sample can be read back from its little-endian bytes.
pub proof fn lemma_le_round_trip(x: i16)
    ensures
        le_bytes(x).len() == 2,
        be_i16(le_bytes(x)[1], le_bytes(x)[0]) == x,
{
}

/// Big-endian numbers are worth 256 times their first byte and once their second, and where
/// they are signed, those from 128 times 256 on stand for negative numbers.
pub proof fn lemma_be_values(hi: u8, lo: u8)
    ensures
        be_u16(hi, lo) == 256 * hi + lo,
        hi < 128 ==> be_i16(hi, lo) == 256 * hi + lo,
        hi >= 128 ==> be_i16(hi, lo) == 256 * hi + lo - 65536,
{
}

/// The bytes of a number, by what they are worth: the big-endian ones of an unsigned number,
/// and the little-endian ones of a sample, with 65536 added to it where it is negative.
pub proof fn lemma_bytes_by_value(x: u16, sample: i16)
    ensures
        be_bytes(x).len() == 2,
        256 * be_bytes(x)[0] + be_bytes(x)[1] == x,
        le_bytes(sample).len() == 2,
        sample >= 0 ==> le_bytes(sample)[0] + 256 * le_bytes(sample)[1] == sample,
        sample < 0 ==> le_bytes(sample)[0] + 256 * le_bytes(sample)[1] == sample + 65536,
{
}

} // verus!
