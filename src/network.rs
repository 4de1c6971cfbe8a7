use vstd::prelude::*;

pub mod ethernet2;
pub mod link;
pub mod packet;

verus! {

/// Why a decode failed.
#[derive(Debug, Clone, Copy, PartialEq, Eq, Structural)]
pub enum ReadError {
    /// The version nibble of the network header is neither 4 nor 6.
    IPUnexpectedVersion(u8),
    /// A read asked for more bytes than remain; the field is the exact deficit.
    DataOffsetTooSmall(usize),
    /// A length field holds a value that the layout cannot account for.
    CouldntParse,
    /// The next-header id names no implemented IPv6 extension.
    UnsupportedIpExtension,
}

/// The failure of a read of `n` bytes at position `p` of `b`, if it fails.
pub open spec fn need(b: Seq<u8>, p: int, n: int) -> Option<ReadError> {
    if p + n > b.len() {
        Some(ReadError::DataOffsetTooSmall((p + n - b.len()) as usize))
    } else {
        None
    }
}

/// A read of `n1` bytes at `p`, then a read of `n2` bytes right after it.
pub open spec fn need2(b: Seq<u8>, p: int, n1: int, n2: int) -> Option<ReadError> {
    if need(b, p, n1) is Some {
        need(b, p, n1)
    } else {
        need(b, p + n1, n2)
    }
}

/// A big-endian 16-bit value.
pub open spec fn be16(hi: u8, lo: u8) -> int {
    hi * 256 + lo
}

/// A big-endian 32-bit value.
pub open spec fn be32(b0: u8, b1: u8, b2: u8, b3: u8) -> int {
    b0 * 0x100_0000 + b1 * 0x1_0000 + b2 * 0x100 + b3
}

/// Reads a big-endian `u16` from `b[i]`, `b[i + 1]`.
pub fn read_be16(b: &[u8], i: usize) -> (r: u16)
    requires
        i + 1 < b@.len(),
    ensures
        r == be16(b@[i as int], b@[i + 1]),
{
    (b[i] as u16) * 256 + (b[i + 1] as u16)
}

/// Reads a big-endian `u32` from `b[i]` .. `b[i + 3]`.
pub fn read_be32(b: &[u8], i: usize) -> (r: u32)
    requires
        i + 3 < b@.len(),
    ensures
        r == be32(b@[i as int], b@[i + 1], b@[i + 2], b@[i + 3]),
{
    (b[i] as u32) * 0x100_0000 + (b[i + 1] as u32) * 0x1_0000 + (b[i + 2] as u32) * 0x100 + (b[i + 3] as u32)
}


/// Copies `b[i]` .. `b[i + 3]` into an array.
pub fn take4(b: &[u8], i: usize) -> (r: [u8; 4])
    requires
        i + 4 <= b@.len(),
    ensures
        r@ == b@.subrange(i as int, i + 4),
{
    let r = [b[i], b[i + 1], b[i + 2], b[i + 3]];
    assert(r@ =~= b@.subrange(i as int, i + 4));
    r
}

/// Copies `b[i]` .. `b[i + 5]` into an array.
pub fn take6(b: &[u8], i: usize) -> (r: [u8; 6])
    requires
        i + 6 <= b@.len(),
    ensures
        r@ == b@.subrange(i as int, i + 6),
{
    let r = [b[i], b[i + 1], b[i + 2], b[i + 3], b[i + 4], b[i + 5]];
    assert(r@ =~= b@.subrange(i as int, i + 6));
    r
}

/// Copies `b[i]` .. `b[i + 15]` into an array.
pub fn take16(b: &[u8], i: usize) -> (r: [u8; 16])
    requires
        i + 16 <= b@.len(),
    ensures
        r@ == b@.subrange(i as int, i + 16),
{
    let r = [b[i], b[i + 1], b[i + 2], b[i + 3], b[i + 4], b[i + 5], b[i + 6], b[i + 7], b[i + 8], b[i + 9], b[i + 10], b[i + 11], b[i + 12], b[i + 13], b[i + 14], b[i + 15]];
    assert(r@ =~= b@.subrange(i as int, i + 16));
    r
}

} // verus!
