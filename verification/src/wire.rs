//! Fixed-width integers on the wire, read from and written to byte slices.
use vstd::prelude::*;

verus! {

/// Little-endian 16-bit value at `i`.
pub open spec fn le16(b: Seq<u8>, i: int) -> int {
    b[i] + 256 * b[i + 1]
}

/// Little-endian 32-bit value at `i`.
pub open spec fn le32(b: Seq<u8>, i: int) -> int {
    le16(b, i) + 65536 * le16(b, i + 2)
}

/// Little-endian 64-bit value at `i`.
pub open spec fn le64(b: Seq<u8>, i: int) -> int {
    le32(b, i) + 0x1_0000_0000 * le32(b, i + 4)
}

/// Big-endian 16-bit value at `i`.
pub open spec fn be16(b: Seq<u8>, i: int) -> int {
    256 * b[i] + b[i + 1]
}

/// Big-endian 32-bit value at `i`.
pub open spec fn be32(b: Seq<u8>, i: int) -> int {
    65536 * be16(b, i) + be16(b, i + 2)
}

pub fn read_le16(b: &[u8], i: usize) -> (r: u16)
    requires
        i + 2 <= b@.len(),
    ensures
        r == le16(b@, i as int),
{
    let (x, y) = (b[i], b[i + 1]);
    let r = (x as u16) | ((y as u16) << 8u16);
    assert(r == x + 256 * y) by (bit_vector)
        requires
            r == (x as u16) | ((y as u16) << 8u16),
    ;
    r
}

pub fn read_le32(b: &[u8], i: usize) -> (r: u32)
    requires
        i + 4 <= b@.len(),
    ensures
        r == le32(b@, i as int),
{
    let _n = b.len();
    let lo = read_le16(b, i);
    let hi = read_le16(b, i + 2);
    let r = (lo as u32) | ((hi as u32) << 16u32);
    assert(r == lo + 65536 * hi) by (bit_vector)
        requires
            r == (lo as u32) | ((hi as u32) << 16u32),
    ;
    r
}

pub fn read_le64(b: &[u8], i: usize) -> (r: u64)
    requires
        i + 8 <= b@.len(),
    ensures
        r == le64(b@, i as int),
{
    let _n = b.len();
    let lo = read_le32(b, i);
    let hi = read_le32(b, i + 4);
    let r = (lo as u64) | ((hi as u64) << 32u64);
    assert(r == lo + 0x1_0000_0000 * hi) by (bit_vector)
        requires
            r == (lo as u64) | ((hi as u64) << 32u64),
    ;
    r
}

pub fn read_be16(b: &[u8], i: usize) -> (r: u16)
    requires
        i + 2 <= b@.len(),
    ensures
        r == be16(b@, i as int),
{
    let (x, y) = (b[i], b[i + 1]);
    let r = ((x as u16) << 8u16) | (y as u16);
    assert(r == 256 * x + y) by (bit_vector)
        requires
            r == ((x as u16) << 8u16) | (y as u16),
    ;
    r
}

pub fn read_be32(b: &[u8], i: usize) -> (r: u32)
    requires
        i + 4 <= b@.len(),
    ensures
        r == be32(b@, i as int),
{
    let _n = b.len();
    let hi = read_be16(b, i);
    let lo = read_be16(b, i + 2);
    let r = ((hi as u32) << 16u32) | (lo as u32);
    assert(r == 65536 * hi + lo) by (bit_vector)
        requires
            r == ((hi as u32) << 16u32) | (lo as u32),
    ;
    r
}

/// The two big-endian bytes of `v`.
pub fn be16_bytes(v: u16) -> (r: (u8, u8))
    ensures
        256 * r.0 + r.1 == v,
{
    let hi = (v >> 8u16) as u8;
    let lo = (v & 0xff) as u8;
    assert(256 * ((v >> 8u16) as u8) + ((v & 0xff) as u8) == v) by (bit_vector);
    (hi, lo)
}


/// The four big-endian bytes of `v`.
pub open spec fn spec_be32_bytes(v: u32) -> Seq<u8> {
    seq![(v / 0x100_0000) as u8, ((v / 0x1_0000) % 256) as u8, ((v / 0x100) % 256) as u8, (v % 256) as u8]
}

pub fn be32_bytes(v: u32) -> (r: [u8; 4])
    ensures
        r@ == spec_be32_bytes(v),
{
    let r = [(v / 0x100_0000) as u8, ((v / 0x1_0000) % 256) as u8, ((v / 0x100) % 256) as u8, (v % 256) as u8];
    assert(r@ =~= spec_be32_bytes(v));
    r
}

} // verus!
