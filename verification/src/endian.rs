//! Numbers as the volume stores them: most significant byte first.

use vstd::prelude::*;

verus! {

/// The number that `bytes` spell when the first byte counts most.
pub open spec fn be_value(bytes: Seq<u8>) -> nat
    decreases bytes.len(),
{
    if bytes.len() == 0 {
        0
    } else {
        be_value(bytes.drop_last()) * 256 + bytes.last() as nat
    }
}

/// Two bytes spell `b0 * 2^8 + b1`.
pub proof fn lemma_be_value_2(bytes: Seq<u8>)
    requires
        bytes.len() == 2,
    ensures
        be_value(bytes) == bytes[0] * 0x100 + bytes[1],
        be_value(bytes) <= u16::MAX,
{
    reveal_with_fuel(be_value, 3);
    assert(bytes.drop_last().drop_last().len() == 0);
}

/// Four bytes spell `b0 * 2^24 + b1 * 2^16 + b2 * 2^8 + b3`.
pub proof fn lemma_be_value_4(bytes: Seq<u8>)
    requires
        bytes.len() == 4,
    ensures
        be_value(bytes) == bytes[0] * 0x100_0000 + bytes[1] * 0x1_0000 + bytes[2] * 0x100
            + bytes[3],
        be_value(bytes) <= u32::MAX,
{
    let high = bytes.drop_last().drop_last();
    lemma_be_value_2(high);
    reveal_with_fuel(be_value, 3);
    assert(high[0] == bytes[0] && high[1] == bytes[1]);
}

/// Eight bytes spell the number whose first half counts `2^32` times the second.
pub proof fn lemma_be_value_8(bytes: Seq<u8>)
    requires
        bytes.len() == 8,
    ensures
        be_value(bytes) == be_value(bytes.subrange(0, 4)) * 0x1_0000_0000 + be_value(
            bytes.subrange(4, 8),
        ),
        be_value(bytes) <= u64::MAX,
{
    let high = bytes.subrange(0, 4);
    let low = bytes.subrange(4, 8);
    lemma_be_value_4(high);
    lemma_be_value_4(low);
    let b7 = bytes.drop_last();
    let b6 = b7.drop_last();
    let b5 = b6.drop_last();
    let b4 = b5.drop_last();
    assert(b4 =~= high);
    reveal_with_fuel(be_value, 5);
    assert(be_value(bytes) == (((be_value(high) * 256 + bytes[4]) * 256 + bytes[5]) * 256
        + bytes[6]) * 256 + bytes[7]);
}

/// `num::PrimInt::from_be`, applied to the `u16` that lies in memory as `bytes`. That is the
/// number whose most significant byte comes first in `bytes`, on a machine of either byte order.
#[verifier::external_body]
fn u16_from_be(bytes: [u8; 2]) -> (value: u16)
    ensures
        value == be_value(bytes@),
{
    num::PrimInt::from_be(u16::from_ne_bytes(bytes))
}

/// `num::PrimInt::from_be`, applied to the `u32` that lies in memory as `bytes`. That is the
/// number whose most significant byte comes first in `bytes`, on a machine of either byte order.
#[verifier::external_body]
fn u32_from_be(bytes: [u8; 4]) -> (value: u32)
    ensures
        value == be_value(bytes@),
{
    num::PrimInt::from_be(u32::from_ne_bytes(bytes))
}

/// `num::PrimInt::from_be`, applied to the `u64` that lies in memory as `bytes`. That is the
/// number whose most significant byte comes first in `bytes`, on a machine of either byte order.
#[verifier::external_body]
fn u64_from_be(bytes: [u8; 8]) -> (value: u64)
    ensures
        value == be_value(bytes@),
{
    num::PrimInt::from_be(u64::from_ne_bytes(bytes))
}

/// The 16-bit number that two bytes spell.
pub fn decode_u16(data: &[u8]) -> (value: u16)
    requires
        data@.len() == 2,
    ensures
        value == be_value(data@),
{
    let bytes: [u8; 2] = [data[0], data[1]];
    assert(bytes@ =~= data@);
    u16_from_be(bytes)
}

/// The 32-bit number that four bytes spell.
pub fn decode_u32(data: &[u8]) -> (value: u32)
    requires
        data@.len() == 4,
    ensures
        value == be_value(data@),
{
    let bytes: [u8; 4] = [data[0], data[1], data[2], data[3]];
    assert(bytes@ =~= data@);
    u32_from_be(bytes)
}

/// The 64-bit number that eight bytes spell.
pub fn decode_u64(data: &[u8]) -> (value: u64)
    requires
        data@.len() == 8,
    ensures
        value == be_value(data@),
{
    let bytes: [u8; 8] = [
        data[0],
        data[1],
        data[2],
        data[3],
        data[4],
        data[5],
        data[6],
        data[7],
    ];
    assert(bytes@ =~= data@);
    u64_from_be(bytes)
}

} // verus!
