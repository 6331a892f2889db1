//! Byte-level facts shared by the outgoing command framer and the incoming
//! frame collector: big-endian 16-bit fields and the wrap-around checksum.

use vstd::prelude::*;

verus! {

/// First magic byte that opens every frame on the wire.
pub const START_HEADER_1: u8 = 0x42;

/// Second magic byte that opens every frame on the wire.
pub const START_HEADER_2: u8 = 0x4d;

/// Largest declared payload length the reader accepts.
pub const MAX_RESPONSE_SIZE: usize = 32;

/// Value of a big-endian 16-bit field stored as two bytes.
pub open spec fn be16(hi: u8, lo: u8) -> int {
    256 * hi + lo
}

/// Sum of a sequence of bytes, as the protocol's 16-bit wrap-around checksum
/// computes it. No frame holds enough bytes for the sum to reach 2^16, so the
/// plain sum and the wrapped sum agree.
pub open spec fn sum_bytes(s: Seq<u8>) -> int
    decreases s.len(),
{
    if s.len() == 0 {
        0
    } else {
        sum_bytes(s.drop_last()) + s.last()
    }
}

/// The checksum test on a collected frame: the two bytes just after the
/// summed region, read big-endian, must equal the sum of the region, which
/// runs from the first magic byte through the last payload byte.
pub open spec fn checksum_ok(data: Seq<u8>, len: int) -> bool
    recommends
        0 <= len,
        len + 4 <= data.len(),
{
    be16(data[len + 2], data[len + 3]) == sum_bytes(data.subrange(0, len + 2))
}

/// A sum of bytes is never negative and never exceeds 255 per byte.
pub proof fn lemma_sum_bytes_bounds(s: Seq<u8>)
    ensures
        0 <= sum_bytes(s) <= 255 * s.len(),
    decreases s.len(),
{
    if s.len() > 0 {
        lemma_sum_bytes_bounds(s.drop_last());
    }
}

/// Splitting a 16-bit value into its big-endian bytes and reading them back
/// gives the value again.
pub proof fn lemma_be16_split(x: int)
    requires
        0 <= x < 0x10000,
    ensures
        be16((x / 256) as u8, (x % 256) as u8) == x,
{
}

/// Two byte pairs that read back equal as big-endian fields are equal
/// byte for byte.
pub proof fn lemma_be16_injective(h1: u8, l1: u8, h2: u8, l2: u8)
    requires
        be16(h1, l1) == be16(h2, l2),
    ensures
        h1 == h2,
        l1 == l2,
{
}

/// Corrupting either checksum byte of a frame that passes the checksum test,
/// while leaving the summed region alone, makes the test fail.
pub proof fn lemma_checksum_byte_flip(data1: Seq<u8>, data2: Seq<u8>, len: int)
    requires
        0 <= len,
        len + 4 <= data1.len(),
        data1.len() == data2.len(),
        checksum_ok(data1, len),
        data2.subrange(0, len + 2) == data1.subrange(0, len + 2),
        data2[len + 2] != data1[len + 2] || data2[len + 3] != data1[len + 3],
    ensures
        !checksum_ok(data2, len),
{
    assert(sum_bytes(data2.subrange(0, len + 2)) == sum_bytes(data1.subrange(0, len + 2)));
    if checksum_ok(data2, len) {
        lemma_be16_injective(data2[len + 2], data2[len + 3], data1[len + 2], data1[len + 3]);
    }
}

} // verus!
