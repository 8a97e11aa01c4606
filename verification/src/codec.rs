//! The corpus binary file format.
//!
//! Fixed little-endian header of five 64-bit fields — checksum, op count,
//! data length, op-section offset, data-section offset — followed by the op
//! stream as 16-bit words and the raw data bytes.  A reader trusts the rest
//! of a file only after the stored checksum matches the spec in use.

use vstd::prelude::*;

use crate::bytes::{le16_bytes, le16_val, le64_bytes, le64_val, lemma_le64_round_trip};
use crate::newtypes::GraphError;
use crate::storage::VecGraph;

verus! {

/// Size of the fixed header: five 64-bit fields.
pub const HEADER_LEN: usize = 40;

/// The op stream as bytes, each op in little-endian order.
pub open spec fn ops_bytes(ops: Seq<u16>) -> Seq<u8>
    decreases ops.len(),
{
    if ops.len() == 0 {
        Seq::empty()
    } else {
        ops_bytes(ops.drop_last()) + le16_bytes(ops.last())
    }
}

/// The serialized form of a graph under a given checksum.
pub open spec fn file_bytes(ops: Seq<u16>, data: Seq<u8>, checksum: u64) -> Seq<u8> {
    le64_bytes(checksum) + le64_bytes(ops.len() as u64) + le64_bytes(data.len() as u64)
        + le64_bytes(HEADER_LEN as u64) + le64_bytes((HEADER_LEN + 2 * ops.len()) as u64)
        + ops_bytes(ops) + data
}

/// What a reader makes of a byte string under an expected checksum: the two
/// streams, or the error.  A stored checksum other than the expected one is
/// rejected before anything else of the file is trusted; any other layout
/// violation is a malformed file.
pub open spec fn parse_spec(bytes: Seq<u8>, checksum: u64) -> Result<
    (Seq<u16>, Seq<u8>),
    GraphError,
> {
    if bytes.len() < HEADER_LEN {
        Err(GraphError::MalformedFile)
    } else if le64_val(bytes.subrange(0, 8)) != checksum {
        Err(GraphError::ChecksumMismatch)
    } else {
        let num_ops = le64_val(bytes.subrange(8, 16));
        let num_data = le64_val(bytes.subrange(16, 24));
        let op_off = le64_val(bytes.subrange(24, 32));
        let data_off = le64_val(bytes.subrange(32, 40));
        if num_ops > 0x7fff_ffff_ffff_ffffu64 || op_off + 2 * num_ops > bytes.len() || data_off
            + num_data > bytes.len() {
            Err(GraphError::MalformedFile)
        } else {
            Ok(
                (
                    Seq::new(
                        num_ops as nat,
                        |i: int|
                            le16_val(bytes[op_off + 2 * i], bytes[op_off + 2 * i + 1]),
                    ),
                    bytes.subrange(data_off as int, data_off + num_data),
                ),
            )
        }
    }
}

/// Serialize a graph.
pub fn serialize_graph(g: &VecGraph, checksum: u64) -> (r: Vec<u8>)
    requires
        2 * g.ops@.len() + HEADER_LEN <= u64::MAX,
        g.data@.len() <= u64::MAX,
    ensures
        r@ == file_bytes(g.ops@, g.data@, checksum),
{
    let mut out: Vec<u8> = Vec::new();
    crate::bytes::push_le64(&mut out, checksum);
    crate::bytes::push_le64(&mut out, g.ops.len() as u64);
    crate::bytes::push_le64(&mut out, g.data.len() as u64);
    crate::bytes::push_le64(&mut out, HEADER_LEN as u64);
    crate::bytes::push_le64(&mut out, HEADER_LEN as u64 + 2 * (g.ops.len() as u64));
    let ghost header = out@;
    let mut i: usize = 0;
    while i < g.ops.len()
        invariant
            i <= g.ops@.len(),
            out@ =~= header + ops_bytes(g.ops@.take(i as int)),
        decreases g.ops@.len() - i,
    {
        let (b0, b1) = crate::bytes::write_le16(g.ops[i]);
        let ghost pre = out@;
        out.push(b0);
        out.push(b1);
        proof {
            assert(g.ops@.take(i + 1).drop_last() =~= g.ops@.take(i as int));
            assert(g.ops@.take(i + 1).last() == g.ops@[i as int]);
            assert(out@ =~= pre + le16_bytes(g.ops@[i as int]));
            assert(header + ops_bytes(g.ops@.take(i as int)) + le16_bytes(g.ops@[i as int]) =~=
            header + ops_bytes(g.ops@.take(i + 1)));
        }
        i = i + 1;
    }
    proof {
        assert(g.ops@.take(g.ops@.len() as int) =~= g.ops@);
    }
    let ghost with_ops = out@;
    let mut j: usize = 0;
    while j < g.data.len()
        invariant
            j <= g.data@.len(),
            out@ =~= with_ops + g.data@.take(j as int),
        decreases g.data@.len() - j,
    {
        out.push(g.data[j]);
        proof {
            assert(with_ops + g.data@.take(j as int) + seq![g.data@[j as int]] =~= with_ops
                + g.data@.take(j + 1));
        }
        j = j + 1;
    }
    proof {
        assert(g.data@.take(g.data@.len() as int) =~= g.data@);
        assert(out@ =~= file_bytes(g.ops@, g.data@, checksum));
    }
    out
}

/// Read a graph back from bytes, trusting it only under a matching
/// checksum.  The outcome is exactly `parse_spec` of the input.
pub fn parse_graph(bytes: &[u8], checksum: u64) -> (r: Result<VecGraph, GraphError>)
    ensures
        match r {
            Ok(g) => parse_spec(bytes@, checksum) == Ok::<_, GraphError>((g.ops@, g.data@)),
            Err(e) => parse_spec(bytes@, checksum) == Err::<(Seq<u16>, Seq<u8>), _>(e),
        },
{
    if bytes.len() < HEADER_LEN {
        return Err(GraphError::MalformedFile);
    }
    let stored = crate::bytes::read_le64(bytes, 0);
    if stored != checksum {
        return Err(GraphError::ChecksumMismatch);
    }
    let num_ops = crate::bytes::read_le64(bytes, 8);
    let num_data = crate::bytes::read_le64(bytes, 16);
    let op_off = crate::bytes::read_le64(bytes, 24);
    let data_off = crate::bytes::read_le64(bytes, 32);
    let len64 = bytes.len() as u64;
    if num_ops > 0x7fff_ffff_ffff_ffff {
        return Err(GraphError::MalformedFile);
    }
    if op_off > len64 || 2 * num_ops > len64 - op_off {
        return Err(GraphError::MalformedFile);
    }
    if data_off > len64 || num_data > len64 - data_off {
        return Err(GraphError::MalformedFile);
    }
    let op_off_u: usize = op_off as usize;
    let num_ops_u: usize = num_ops as usize;
    let data_off_u: usize = data_off as usize;
    let num_data_u: usize = num_data as usize;
    let mut ops: Vec<u16> = Vec::new();
    let mut i: usize = 0;
    while i < num_ops_u
        invariant
            i <= num_ops_u,
            op_off_u + 2 * num_ops_u <= bytes@.len(),
            bytes@.len() <= usize::MAX,
            ops@ =~= Seq::new(
                i as nat,
                |k: int| le16_val(bytes@[op_off_u + 2 * k], bytes@[op_off_u + 2 * k + 1]),
            ),
        decreases num_ops_u - i,
    {
        let v = crate::bytes::read_le16(bytes[op_off_u + 2 * i], bytes[op_off_u + 2 * i + 1]);
        ops.push(v);
        proof {
            assert(ops@ =~= Seq::new(
                (i + 1) as nat,
                |k: int| le16_val(bytes@[op_off_u + 2 * k], bytes@[op_off_u + 2 * k + 1]),
            ));
        }
        i = i + 1;
    }
    let mut data: Vec<u8> = Vec::new();
    let mut j: usize = 0;
    while j < num_data_u
        invariant
            j <= num_data_u,
            data_off_u + num_data_u <= bytes@.len(),
            bytes@.len() <= usize::MAX,
            data@ =~= bytes@.subrange(data_off_u as int, data_off_u + j),
        decreases num_data_u - j,
    {
        data.push(bytes[data_off_u + j]);
        j = j + 1;
    }
    proof {
        assert(data@ =~= bytes@.subrange(data_off_u as int, data_off_u + num_data_u));
    }
    Ok(VecGraph { ops, data })
}

/// Every op stream's byte form is twice as long.
pub proof fn lemma_ops_bytes_len(ops: Seq<u16>)
    ensures
        ops_bytes(ops).len() == 2 * ops.len(),
    decreases ops.len(),
{
    if ops.len() > 0 {
        lemma_ops_bytes_len(ops.drop_last());
    }
}

/// Each op's two bytes sit at twice its index.
pub proof fn lemma_ops_bytes_index(ops: Seq<u16>, i: int)
    requires
        0 <= i < ops.len(),
    ensures
        ops_bytes(ops)[2 * i] == le16_bytes(ops[i])[0],
        ops_bytes(ops)[2 * i + 1] == le16_bytes(ops[i])[1],
    decreases ops.len(),
{
    lemma_ops_bytes_len(ops);
    lemma_ops_bytes_len(ops.drop_last());
    if i < ops.len() - 1 {
        lemma_ops_bytes_index(ops.drop_last(), i);
    }
}

/// Round trip: a serialized graph reads back as exactly its two streams,
/// under the checksum it was written with.
#[verifier::rlimit(100)]
pub proof fn lemma_file_round_trip(ops: Seq<u16>, data: Seq<u8>, checksum: u64)
    requires
        2 * ops.len() + HEADER_LEN <= u64::MAX,
        data.len() <= u64::MAX,
    ensures
        parse_spec(file_bytes(ops, data, checksum), checksum) == Ok::<_, GraphError>((ops, data)),
{
    let f = file_bytes(ops, data, checksum);
    lemma_ops_bytes_len(ops);
    assert(f.len() == HEADER_LEN + 2 * ops.len() + data.len());
    assert(f.subrange(0, 8) =~= le64_bytes(checksum));
    assert(f.subrange(8, 16) =~= le64_bytes(ops.len() as u64));
    assert(f.subrange(16, 24) =~= le64_bytes(data.len() as u64));
    assert(f.subrange(24, 32) =~= le64_bytes(HEADER_LEN as u64));
    assert(f.subrange(32, 40) =~= le64_bytes((HEADER_LEN + 2 * ops.len()) as u64));
    lemma_le64_round_trip(checksum);
    lemma_le64_round_trip(ops.len() as u64);
    lemma_le64_round_trip(data.len() as u64);
    lemma_le64_round_trip(HEADER_LEN as u64);
    lemma_le64_round_trip((HEADER_LEN + 2 * ops.len()) as u64);
    let num_ops = le64_val(f.subrange(8, 16));
    let op_off = le64_val(f.subrange(24, 32));
    let data_off = le64_val(f.subrange(32, 40));
    assert(num_ops == ops.len());
    assert(op_off == HEADER_LEN);
    assert(data_off == HEADER_LEN + 2 * ops.len());
    let parsed_ops = Seq::<u16>::new(
        num_ops as nat,
        |i: int| le16_val(f[op_off + 2 * i], f[op_off + 2 * i + 1]),
    );
    assert forall|i: int| 0 <= i < ops.len() implies parsed_ops[i] == ops[i] by {
        assert(f[op_off + 2 * i] == ops_bytes(ops)[2 * i]);
        assert(f[op_off + 2 * i + 1] == ops_bytes(ops)[2 * i + 1]);
        lemma_ops_bytes_index(ops, i);
        crate::bytes::lemma_le16_round_trip(ops[i]);
    }
    assert(parsed_ops =~= ops);
    assert(f.subrange(data_off as int, data_off + data.len()) =~= data);
}

/// A file whose stored checksum differs from the spec's is rejected as a
/// checksum mismatch, whatever else it holds.
pub proof fn lemma_file_checksum_rejected(bytes: Seq<u8>, checksum: u64)
    requires
        bytes.len() >= HEADER_LEN,
        le64_val(bytes.subrange(0, 8)) != checksum,
    ensures
        parse_spec(bytes, checksum) == Err::<(Seq<u16>, Seq<u8>), _>(GraphError::ChecksumMismatch),
{
}

} // verus!
