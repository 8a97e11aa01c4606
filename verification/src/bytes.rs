//! Little-endian integer codec used by the corpus file format and the shared
//! feedback buffer layout.

use vstd::prelude::*;

verus! {

/// The `u16` denoted by two little-endian bytes, as a mathematical value.
pub open spec fn le16_val(b0: u8, b1: u8) -> u16 {
    (b0 + (b1 as u16) * 0x100) as u16
}

/// The `u64` denoted by eight little-endian bytes, as a mathematical value.
pub open spec fn le64_val(b: Seq<u8>) -> u64
    recommends
        b.len() == 8,
{
    (b[0] + (b[1] as u64) * 0x100 + (b[2] as u64) * 0x1_0000 + (b[3] as u64) * 0x100_0000
        + (b[4] as u64) * 0x1_0000_0000 + (b[5] as u64) * 0x100_0000_0000
        + (b[6] as u64) * 0x1_0000_0000_0000 + (b[7] as u64) * 0x100_0000_0000_0000) as u64
}

/// The little-endian bytes of a `u16`.
pub open spec fn le16_bytes(v: u16) -> Seq<u8> {
    seq![(v % 0x100) as u8, (v / 0x100) as u8]
}

/// The little-endian bytes of a `u64`.
pub open spec fn le64_bytes(v: u64) -> Seq<u8> {
    seq![
        (v % 0x100) as u8,
        ((v / 0x100) % 0x100) as u8,
        ((v / 0x1_0000) % 0x100) as u8,
        ((v / 0x100_0000) % 0x100) as u8,
        ((v / 0x1_0000_0000) % 0x100) as u8,
        ((v / 0x100_0000_0000) % 0x100) as u8,
        ((v / 0x1_0000_0000_0000) % 0x100) as u8,
        ((v / 0x100_0000_0000_0000) % 0x100) as u8,
    ]
}

/// Reading back the two little-endian bytes of a `u16` yields the value.
pub proof fn lemma_le16_round_trip(v: u16)
    ensures
        le16_val(le16_bytes(v)[0], le16_bytes(v)[1]) == v,
{
}

/// Reading back the eight little-endian bytes of a `u64` yields the value.
pub proof fn lemma_le64_round_trip(v: u64)
    ensures
        le64_val(le64_bytes(v)) == v,
{
    assert((v % 0x100 + ((v / 0x100) % 0x100) * 0x100 + ((v / 0x1_0000) % 0x100) * 0x1_0000 + ((v
        / 0x100_0000) % 0x100) * 0x100_0000 + ((v / 0x1_0000_0000) % 0x100) * 0x1_0000_0000 + ((v
        / 0x100_0000_0000) % 0x100) * 0x100_0000_0000 + ((v / 0x1_0000_0000_0000) % 0x100)
        * 0x1_0000_0000_0000 + ((v / 0x100_0000_0000_0000) % 0x100) * 0x100_0000_0000_0000) as u64
        == v) by (bit_vector);
}

/// Decode a `u16` from two little-endian bytes.
pub fn read_le16(b0: u8, b1: u8) -> (r: u16)
    ensures
        r == le16_val(b0, b1),
{
    b0 as u16 + (b1 as u16) * 0x100
}

/// Encode a `u16` as two little-endian bytes.
pub fn write_le16(v: u16) -> (r: (u8, u8))
    ensures
        r.0 == le16_bytes(v)[0],
        r.1 == le16_bytes(v)[1],
        le16_val(r.0, r.1) == v,
{
    ((v % 0x100) as u8, (v / 0x100) as u8)
}

/// Decode a `u64` from eight little-endian bytes starting at `at`.
pub fn read_le64(b: &[u8], at: usize) -> (r: u64)
    requires
        at + 8 <= b@.len(),
    ensures
        r == le64_val(b@.subrange(at as int, at + 8)),
{
    let s = b[at] as u64 + (b[at + 1] as u64) * 0x100 + (b[at + 2] as u64) * 0x1_0000 + (b[at
        + 3] as u64) * 0x100_0000 + (b[at + 4] as u64) * 0x1_0000_0000 + (b[at + 5] as u64)
        * 0x100_0000_0000 + (b[at + 6] as u64) * 0x1_0000_0000_0000 + (b[at + 7] as u64)
        * 0x100_0000_0000_0000;
    proof {
        let sub = b@.subrange(at as int, at + 8);
        assert(sub[0] == b@[at as int]);
        assert(sub[1] == b@[at + 1]);
        assert(sub[2] == b@[at + 2]);
        assert(sub[3] == b@[at + 3]);
        assert(sub[4] == b@[at + 4]);
        assert(sub[5] == b@[at + 5]);
        assert(sub[6] == b@[at + 6]);
        assert(sub[7] == b@[at + 7]);
    }
    s
}

/// Append the eight little-endian bytes of `v` to `out`.
pub fn push_le64(out: &mut Vec<u8>, v: u64)
    ensures
        final(out)@ == old(out)@ + le64_bytes(v),
{
    out.push((v % 0x100) as u8);
    out.push(((v / 0x100) % 0x100) as u8);
    out.push(((v / 0x1_0000) % 0x100) as u8);
    out.push(((v / 0x100_0000) % 0x100) as u8);
    out.push(((v / 0x1_0000_0000) % 0x100) as u8);
    out.push(((v / 0x100_0000_0000) % 0x100) as u8);
    out.push(((v / 0x1_0000_0000_0000) % 0x100) as u8);
    out.push(((v / 0x100_0000_0000_0000) % 0x100) as u8);
    proof {
        assert(out@ =~= old(out)@ + le64_bytes(v));
    }
}

/// The `u32` denoted by four little-endian bytes, as a mathematical value.
pub open spec fn le32_val(b: Seq<u8>) -> u32
    recommends
        b.len() == 4,
{
    (b[0] + (b[1] as u32) * 0x100 + (b[2] as u32) * 0x1_0000 + (b[3] as u32) * 0x100_0000) as u32
}

/// Decode a `u32` from four little-endian bytes starting at `at`.
pub fn read_le32(b: &[u8], at: usize) -> (r: u32)
    requires
        at + 4 <= b@.len(),
    ensures
        r == le32_val(b@.subrange(at as int, at + 4)),
{
    let s = b[at] as u32 + (b[at + 1] as u32) * 0x100 + (b[at + 2] as u32) * 0x1_0000 + (b[at
        + 3] as u32) * 0x100_0000;
    proof {
        let sub = b@.subrange(at as int, at + 4);
        assert(sub[0] == b@[at as int]);
        assert(sub[1] == b@[at + 1]);
        assert(sub[2] == b@[at + 2]);
        assert(sub[3] == b@[at + 3]);
    }
    s
}

} // verus!
