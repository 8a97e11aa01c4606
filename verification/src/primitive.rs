//! Byte-level mutation primitives applied to one node's raw data payload:
//! bit flips, arithmetic, interesting-value substitution, block overwrite,
//! insertion and deletion, plus the four fixed single-byte perturbations the
//! calibration sweep uses.

use vstd::prelude::*;

use crate::random::Distributions;

verus! {

/// A mutable byte buffer with spare capacity: the working copy of one
/// node's data span.  Only the first `len` bytes are the value; the rest is
/// room for size-changing mutations.
#[derive(Debug)]
pub struct DataBuff {
    /// Backing storage; its length is the capacity.
    pub data: Vec<u8>,
    /// Length of the value held.
    pub len: usize,
}

impl DataBuff {
    /// The value held: the first `len` bytes (all of them if `len` overruns
    /// the backing storage).
    pub open spec fn view(&self) -> Seq<u8> {
        if self.len <= self.data@.len() {
            self.data@.take(self.len as int)
        } else {
            self.data@
        }
    }

    pub open spec fn spec_capacity(&self) -> nat {
        self.data@.len()
    }

    /// A buffer over `data`, holding its first `len` bytes.
    pub fn new(data: Vec<u8>, len: usize) -> (r: Self)
        requires
            len <= data@.len(),
        ensures
            r@ == data@.take(len as int),
            r.spec_capacity() == data@.len(),
    {
        DataBuff { data, len }
    }

    /// An empty buffer of the given capacity.
    pub fn with_capacity(capacity: usize) -> (r: Self)
        ensures
            r@ == Seq::<u8>::empty(),
            r.spec_capacity() == capacity,
    {
        let backing = crate::storage::VecGraph::new_with_size(0, capacity);
        DataBuff { data: backing.data, len: 0 }
    }

    pub fn len(&self) -> (r: usize)
        ensures
            r == self@.len(),
    {
        if self.len <= self.data.len() {
            self.len
        } else {
            self.data.len()
        }
    }

    pub fn capacity(&self) -> (r: usize)
        ensures
            r == self.spec_capacity(),
    {
        self.data.len()
    }

    /// Spare room beyond the value.
    pub fn available(&self) -> (r: usize)
        ensures
            r == self.spec_capacity() - self@.len(),
    {
        self.data.len() - self.len()
    }

    pub fn is_empty(&self) -> (r: bool)
        ensures
            r == (self@.len() == 0),
    {
        self.len() == 0
    }

    pub fn read_u8(&self, offset: usize) -> (r: u8)
        requires
            offset < self@.len(),
        ensures
            r == self@[offset as int],
    {
        self.data[offset]
    }

    pub fn write_u8(&mut self, offset: usize, val: u8)
        requires
            offset < old(self)@.len(),
        ensures
            final(self)@ == old(self)@.update(offset as int, val),
            final(self).spec_capacity() == old(self).spec_capacity(),
            final(self)@.len() == old(self)@.len(),
    {
        self.data.set(offset, val);
        proof {
            assert(self@ =~= old(self)@.update(offset as int, val));
        }
    }

    /// The value as a slice.
    pub fn as_slice(&self) -> (r: &[u8])
        ensures
            r@ == self@,
    {
        let end = if self.len <= self.data.len() {
            self.len
        } else {
            self.data.len()
        };
        vstd::slice::slice_subrange(self.data.as_slice(), 0, end)
    }

    /// Replace the value by a copy of `s` (which must fit the capacity).
    pub fn set_to_slice(&mut self, s: &[u8])
        requires
            s@.len() <= old(self).spec_capacity(),
        ensures
            final(self)@ == s@,
            final(self).spec_capacity() == old(self).spec_capacity(),
    {
        let n = s.len();
        let mut i: usize = 0;
        while i < n
            invariant
                i <= n,
                n == s@.len(),
                n <= self.data@.len(),
                self.data@.len() == old(self).data@.len(),
                self.data@.take(i as int) =~= s@.take(i as int),
            decreases n - i,
        {
            self.data.set(i, s[i]);
            proof {
                assert(self.data@.take(i + 1) =~= s@.take(i + 1));
            }
            i = i + 1;
        }
        self.len = n;
        proof {
            assert(self@ =~= s@);
        }
    }

    /// Replace the value by `len` random bytes.
    pub fn set_to_random(&mut self, len: usize, dist: &mut Distributions)
        requires
            len <= old(self).spec_capacity(),
        ensures
            final(self)@.len() == len,
            final(self).spec_capacity() == old(self).spec_capacity(),
    {
        let mut i: usize = 0;
        while i < len
            invariant
                i <= len,
                len <= self.data@.len(),
                self.data@.len() == old(self).data@.len(),
            decreases len - i,
        {
            let b = dist.gen_u8();
            self.data.set(i, b);
            i = i + 1;
        }
        self.len = len;
    }

    /// Overwrite the value from position `pos` with as much of `s` as fits
    /// before the value's end.
    pub fn copy_from(&mut self, s: &[u8], pos: usize)
        requires
            pos <= old(self)@.len(),
        ensures
            final(self)@.len() == old(self)@.len(),
            final(self).spec_capacity() == old(self).spec_capacity(),
            forall|j: int|
                0 <= j < old(self)@.len() ==> final(self)@[j] == if pos <= j < pos + s@.len()
                    && j < old(self)@.len() {
                    s@[j - pos]
                } else {
                    old(self)@[j]
                },
    {
        let n = self.len();
        let mut i: usize = 0;
        while i < s.len() && pos + i < n
            invariant
                pos + i <= n,
                n == self@.len(),
                n == old(self)@.len(),
                i <= s@.len(),
                self.spec_capacity() == old(self).spec_capacity(),
                forall|j: int|
                    0 <= j < n ==> self@[j] == if pos <= j < pos + i {
                        s@[j - pos]
                    } else {
                        old(self)@[j]
                    },
            decreases s@.len() - i,
        {
            self.write_u8(pos + i, s[i]);
            i = i + 1;
        }
    }
}

/// The kinds of in-place (length-preserving) mutations.
#[derive(Clone, Copy, Debug, PartialEq, Eq, Structural, Hash)]
pub enum InplaceMutationType {
    FlipBitT,
    AddU8T,
    AddU16T,
    AddU32T,
    AddU64T,
    InterestingU8T,
    InterestingU16T,
    InterestingU32T,
    InterestingU64T,
    OverwriteRandomByteT,
    OverwriteChunkT,
    OverwriteRandomT,
    OverwriteFixedT,
}

impl InplaceMutationType {
    /// The smallest buffer the mutation kind applies to.
    pub fn min_size(&self) -> (r: usize)
        ensures
            r == self.spec_min_size(),
    {
        match *self {
            InplaceMutationType::AddU16T => 2,
            InplaceMutationType::AddU32T => 4,
            InplaceMutationType::AddU64T => 8,
            InplaceMutationType::InterestingU16T => 2,
            InplaceMutationType::InterestingU32T => 4,
            InplaceMutationType::InterestingU64T => 8,
            _ => 1,
        }
    }

    pub open spec fn spec_min_size(&self) -> nat {
        match *self {
            InplaceMutationType::AddU16T => 2,
            InplaceMutationType::AddU32T => 4,
            InplaceMutationType::AddU64T => 8,
            InplaceMutationType::InterestingU16T => 2,
            InplaceMutationType::InterestingU32T => 4,
            InplaceMutationType::InterestingU64T => 8,
            _ => 1,
        }
    }
}

/// One concrete in-place mutation: where it strikes and with what.
#[derive(Clone, Debug, PartialEq, Eq, Hash)]
pub enum InplaceMutation {
    FlipBit { offset: usize, bit: usize },
    AddU8 { offset: usize, val: u8 },
    AddU16 { offset: usize, val: u16, flip_endian: bool },
    AddU32 { offset: usize, val: u32, flip_endian: bool },
    AddU64 { offset: usize, val: u64, flip_endian: bool },
    InterestingU8 { offset: usize, val: u8 },
    InterestingU16 { offset: usize, val: u16, flip_endian: bool },
    InterestingU32 { offset: usize, val: u32, flip_endian: bool },
    InterestingU64 { offset: usize, val: u64, flip_endian: bool },
    OverwriteRandomByte { offset: usize, val: u8 },
    OverwriteChunk { src_start: usize, src_end: usize, dst: usize },
    OverwriteRandom { data: Vec<u8>, dst: usize },
    OverwriteFixed { start: usize, end: usize, val: u8 },
}

impl InplaceMutation {
    /// Whether the mutation's offsets fit a buffer of length `len`.
    pub open spec fn valid_for(&self, len: nat) -> bool {
        match *self {
            InplaceMutation::FlipBit { offset, bit } => offset < len && bit < 8,
            InplaceMutation::AddU8 { offset, .. } => offset < len,
            InplaceMutation::AddU16 { offset, .. } => offset + 2 <= len,
            InplaceMutation::AddU32 { offset, .. } => offset + 4 <= len,
            InplaceMutation::AddU64 { offset, .. } => offset + 8 <= len,
            InplaceMutation::InterestingU8 { offset, .. } => offset < len,
            InplaceMutation::InterestingU16 { offset, .. } => offset + 2 <= len,
            InplaceMutation::InterestingU32 { offset, .. } => offset + 4 <= len,
            InplaceMutation::InterestingU64 { offset, .. } => offset + 8 <= len,
            InplaceMutation::OverwriteRandomByte { offset, .. } => offset < len,
            InplaceMutation::OverwriteChunk { src_start, src_end, dst } => src_start <= src_end
                && src_end <= len && dst + (src_end - src_start) <= len,
            InplaceMutation::OverwriteRandom { ref data, dst } => dst + data@.len() <= len,
            InplaceMutation::OverwriteFixed { start, end, .. } => start <= end && end <= len,
        }
    }

    /// The width of the region the mutation may touch, for the multi-byte
    /// arithmetic and substitution variants.
    pub open spec fn touched(&self, j: int) -> bool {
        match *self {
            InplaceMutation::FlipBit { offset, .. } => j == offset,
            InplaceMutation::AddU8 { offset, .. } => j == offset,
            InplaceMutation::AddU16 { offset, .. } => offset <= j < offset + 2,
            InplaceMutation::AddU32 { offset, .. } => offset <= j < offset + 4,
            InplaceMutation::AddU64 { offset, .. } => offset <= j < offset + 8,
            InplaceMutation::InterestingU8 { offset, .. } => j == offset,
            InplaceMutation::InterestingU16 { offset, .. } => offset <= j < offset + 2,
            InplaceMutation::InterestingU32 { offset, .. } => offset <= j < offset + 4,
            InplaceMutation::InterestingU64 { offset, .. } => offset <= j < offset + 8,
            InplaceMutation::OverwriteRandomByte { offset, .. } => j == offset,
            InplaceMutation::OverwriteChunk { src_start, src_end, dst } => dst <= j < dst + (
            src_end - src_start),
            InplaceMutation::OverwriteRandom { ref data, dst } => dst <= j < dst + data@.len(),
            InplaceMutation::OverwriteFixed { start, end, .. } => start <= j < end,
        }
    }

    /// Apply the mutation in place.  The buffer's length and capacity never
    /// change; bytes outside the touched region never change; the
    /// single-byte and block variants write exactly their stated values.
    pub fn apply(&self, buff: &mut DataBuff)
        requires
            self.valid_for(old(buff)@.len()),
        ensures
            final(buff)@.len() == old(buff)@.len(),
            final(buff).spec_capacity() == old(buff).spec_capacity(),
            forall|j: int|
                0 <= j < old(buff)@.len() && !self.touched(j) ==> final(buff)@[j] == old(buff)@[j],
            *self matches InplaceMutation::FlipBit { offset, bit } ==> final(buff)@[offset as int]
                == (old(buff)@[offset as int] ^ (1u8 << bit)),
            *self matches InplaceMutation::AddU8 { offset, val } ==> final(buff)@[offset as int]
                == old(buff)@[offset as int].wrapping_add(val),
            *self matches InplaceMutation::InterestingU8 { offset, val } ==> final(buff)@[offset as int] == val,
            *self matches InplaceMutation::OverwriteRandomByte { offset, val } ==> final(buff)@[offset as int] == val,
            *self matches InplaceMutation::OverwriteFixed { start, end, val } ==> forall|j: int|
                start <= j < end ==> final(buff)@[j] == val,
            *self matches InplaceMutation::OverwriteRandom { ref data, dst } ==> forall|j: int|
                0 <= j < data@.len() ==> final(buff)@[dst + j] == data@[j],
            *self matches InplaceMutation::OverwriteChunk { src_start, src_end, dst } ==> forall|
                j: int,
            |
                dst <= j < dst + (src_end - src_start) ==> #[trigger] final(buff)@[j] == old(
                    buff,
                )@[src_start + (j - dst)],
    {
        match self {
            InplaceMutation::FlipBit { offset, bit } => {
                let b = buff.read_u8(*offset);
                buff.write_u8(*offset, b ^ (1u8 << (*bit as u8)));
            },
            InplaceMutation::AddU8 { offset, val } => {
                let b = buff.read_u8(*offset);
                buff.write_u8(*offset, b.wrapping_add(*val));
            },
            InplaceMutation::AddU16 { offset, val, flip_endian } => {
                let b0 = buff.read_u8(*offset);
                let b1 = buff.read_u8(*offset + 1);
                let cur = if *flip_endian {
                    ((b0 as u16) << 8u16) | (b1 as u16)
                } else {
                    ((b1 as u16) << 8u16) | (b0 as u16)
                };
                let s = cur.wrapping_add(*val);
                if *flip_endian {
                    buff.write_u8(*offset, (s >> 8u16) as u8);
                    buff.write_u8(*offset + 1, (s & 0xff) as u8);
                } else {
                    buff.write_u8(*offset, (s & 0xff) as u8);
                    buff.write_u8(*offset + 1, (s >> 8u16) as u8);
                }
            },
            InplaceMutation::AddU32 { offset, val, flip_endian } => {
                let mut cur: u32 = 0;
                let mut i: usize = 0;
                while i < 4
                    invariant
                        i <= 4,
                        *offset + 4 <= buff@.len(),
                    decreases 4 - i,
                {
                    cur = (cur << 8u32) | (buff.read_u8(*offset + i) as u32);
                    i = i + 1;
                }
                let s = cur.wrapping_add(*val);
                let mut i: usize = 0;
                let mut v = s;
                while i < 4
                    invariant
                        i <= 4,
                        *offset + 4 <= buff@.len(),
                        buff@.len() == old(buff)@.len(),
                        buff.spec_capacity() == old(buff).spec_capacity(),
                        forall|j: int|
                            0 <= j < old(buff)@.len() && !(*offset <= j < *offset + 4) ==> buff@[j]
                                == old(buff)@[j],
                    decreases 4 - i,
                {
                    let slot = if *flip_endian {
                        3 - i
                    } else {
                        i
                    };
                    buff.write_u8(*offset + slot, (v & 0xff) as u8);
                    v = v >> 8u32;
                    i = i + 1;
                }
            },
            InplaceMutation::AddU64 { offset, val, flip_endian } => {
                let mut cur: u64 = 0;
                let mut i: usize = 0;
                while i < 8
                    invariant
                        i <= 8,
                        *offset + 8 <= buff@.len(),
                    decreases 8 - i,
                {
                    cur = (cur << 8u64) | (buff.read_u8(*offset + i) as u64);
                    i = i + 1;
                }
                let s = cur.wrapping_add(*val);
                let mut i: usize = 0;
                let mut v = s;
                while i < 8
                    invariant
                        i <= 8,
                        *offset + 8 <= buff@.len(),
                        buff@.len() == old(buff)@.len(),
                        buff.spec_capacity() == old(buff).spec_capacity(),
                        forall|j: int|
                            0 <= j < old(buff)@.len() && !(*offset <= j < *offset + 8) ==> buff@[j]
                                == old(buff)@[j],
                    decreases 8 - i,
                {
                    let slot = if *flip_endian {
                        7 - i
                    } else {
                        i
                    };
                    buff.write_u8(*offset + slot, (v & 0xff) as u8);
                    v = v >> 8u64;
                    i = i + 1;
                }
            },
            InplaceMutation::InterestingU8 { offset, val } => {
                buff.write_u8(*offset, *val);
            },
            InplaceMutation::InterestingU16 { offset, val, flip_endian } => {
                if *flip_endian {
                    buff.write_u8(*offset, (*val >> 8u16) as u8);
                    buff.write_u8(*offset + 1, (*val & 0xff) as u8);
                } else {
                    buff.write_u8(*offset, (*val & 0xff) as u8);
                    buff.write_u8(*offset + 1, (*val >> 8u16) as u8);
                }
            },
            InplaceMutation::InterestingU32 { offset, val, flip_endian } => {
                let mut i: usize = 0;
                let mut v = *val;
                while i < 4
                    invariant
                        i <= 4,
                        *offset + 4 <= buff@.len(),
                        buff@.len() == old(buff)@.len(),
                        buff.spec_capacity() == old(buff).spec_capacity(),
                        forall|j: int|
                            0 <= j < old(buff)@.len() && !(*offset <= j < *offset + 4) ==> buff@[j]
                                == old(buff)@[j],
                    decreases 4 - i,
                {
                    let slot = if *flip_endian {
                        3 - i
                    } else {
                        i
                    };
                    buff.write_u8(*offset + slot, (v & 0xff) as u8);
                    v = v >> 8u32;
                    i = i + 1;
                }
            },
            InplaceMutation::InterestingU64 { offset, val, flip_endian } => {
                let mut i: usize = 0;
                let mut v = *val;
                while i < 8
                    invariant
                        i <= 8,
                        *offset + 8 <= buff@.len(),
                        buff@.len() == old(buff)@.len(),
                        buff.spec_capacity() == old(buff).spec_capacity(),
                        forall|j: int|
                            0 <= j < old(buff)@.len() && !(*offset <= j < *offset + 8) ==> buff@[j]
                                == old(buff)@[j],
                    decreases 8 - i,
                {
                    let slot = if *flip_endian {
                        7 - i
                    } else {
                        i
                    };
                    buff.write_u8(*offset + slot, (v & 0xff) as u8);
                    v = v >> 8u64;
                    i = i + 1;
                }
            },
            InplaceMutation::OverwriteRandomByte { offset, val } => {
                buff.write_u8(*offset, *val);
            },
            InplaceMutation::OverwriteChunk { src_start, src_end, dst } => {
                let n = *src_end - *src_start;
                let mut chunk: Vec<u8> = Vec::new();
                let mut i: usize = 0;
                while i < n
                    invariant
                        i <= n,
                        *src_start + n <= buff@.len(),
                        chunk@ =~= buff@.subrange(*src_start as int, *src_start + i),
                    decreases n - i,
                {
                    chunk.push(buff.read_u8(*src_start + i));
                    i = i + 1;
                }
                let mut i: usize = 0;
                while i < n
                    invariant
                        i <= n,
                        n == chunk@.len(),
                        *dst + n <= buff@.len(),
                        buff@.len() == old(buff)@.len(),
                        buff.spec_capacity() == old(buff).spec_capacity(),
                        chunk@ == old(buff)@.subrange(*src_start as int, *src_start + n),
                        forall|j: int|
                            0 <= j < old(buff)@.len() && !(*dst <= j < *dst + n) ==> buff@[j] == old(
                                buff,
                            )@[j],
                        forall|j: int| 0 <= j < i ==> buff@[*dst + j] == chunk@[j],
                    decreases n - i,
                {
                    buff.write_u8(*dst + i, chunk[i]);
                    i = i + 1;
                }
                proof {
                    assert forall|j: int| *dst <= j < *dst + n implies buff@[j] == old(
                        buff,
                    )@[*src_start + (j - *dst)] by {
                        assert(buff@[*dst + (j - *dst)] == chunk@[j - *dst]);
                    }
                }
            },
            InplaceMutation::OverwriteRandom { data, dst } => {
                let mut i: usize = 0;
                while i < data.len()
                    invariant
                        i <= data@.len(),
                        *dst + data@.len() <= buff@.len(),
                        buff@.len() == old(buff)@.len(),
                        buff.spec_capacity() == old(buff).spec_capacity(),
                        forall|j: int|
                            0 <= j < old(buff)@.len() && !(*dst <= j < *dst + data@.len())
                                ==> buff@[j] == old(buff)@[j],
                        forall|j: int| 0 <= j < i ==> buff@[*dst + j] == data@[j],
                    decreases data@.len() - i,
                {
                    buff.write_u8(*dst + i, data[i]);
                    i = i + 1;
                }
            },
            InplaceMutation::OverwriteFixed { start, end, val } => {
                let mut i: usize = *start;
                while i < *end
                    invariant
                        *start <= i <= *end,
                        *end <= buff@.len(),
                        buff@.len() == old(buff)@.len(),
                        buff.spec_capacity() == old(buff).spec_capacity(),
                        forall|j: int|
                            0 <= j < old(buff)@.len() && !(*start <= j < *end) ==> buff@[j] == old(
                                buff,
                            )@[j],
                        forall|j: int| *start <= j < i ==> buff@[j] == *val,
                    decreases *end - i,
                {
                    buff.write_u8(i, *val);
                    i = i + 1;
                }
            },
        }
    }
}

/// The kinds of size-changing mutations.
#[derive(Clone, Copy, Debug, PartialEq, Eq, Structural, Hash)]
pub enum SizeChangingMutationType {
    DeleteT,
    InsertChunkT,
    InsertFixedT,
    InsertRandomT,
}

impl SizeChangingMutationType {
    /// The smallest value length the mutation kind applies to.
    pub fn min_size(&self) -> (r: usize)
        ensures
            r == 1,
    {
        1
    }

    /// The spare room the mutation kind needs.
    pub fn min_available(&self) -> (r: usize)
        ensures
            r == self.spec_min_available(),
    {
        match *self {
            SizeChangingMutationType::DeleteT => 0,
            _ => 1,
        }
    }

    pub open spec fn spec_min_available(&self) -> nat {
        match *self {
            SizeChangingMutationType::DeleteT => 0,
            _ => 1,
        }
    }
}

/// One concrete size-changing mutation.
#[derive(Clone, Debug, PartialEq, Eq, Hash)]
pub enum SizeChangingMutation {
    Delete { start: usize, end: usize },
    InsertChunk { src_start: usize, src_end: usize, dst: usize },
    InsertFixed { dst: usize, amount: usize, val: u8 },
    InsertRandom { data: Vec<u8>, dst: usize },
}

impl SizeChangingMutation {
    /// Whether the mutation's positions fit a value of length `len`.
    pub open spec fn valid_for(&self, len: nat) -> bool {
        match *self {
            SizeChangingMutation::Delete { start, end } => start <= end && end <= len,
            SizeChangingMutation::InsertChunk { src_start, src_end, dst } => src_start <= src_end
                && src_end <= len && dst <= len,
            SizeChangingMutation::InsertFixed { dst, .. } => dst <= len,
            SizeChangingMutation::InsertRandom { ref data, dst } => dst <= len,
        }
    }

    /// The bytes the mutation inserts at its destination (empty for a
    /// deletion), given the current value.
    pub open spec fn inserted(&self, s: Seq<u8>) -> Seq<u8> {
        match *self {
            SizeChangingMutation::Delete { .. } => Seq::empty(),
            SizeChangingMutation::InsertChunk { src_start, src_end, .. } => s.subrange(
                src_start as int,
                src_end as int,
            ),
            SizeChangingMutation::InsertFixed { amount, val, .. } => Seq::new(
                amount as nat,
                |i: int| val,
            ),
            SizeChangingMutation::InsertRandom { ref data, .. } => data@,
        }
    }

    /// The value after the mutation: a deletion removes its block; an
    /// insertion splices its bytes in at the destination, truncated to the
    /// buffer's capacity.
    pub open spec fn result(&self, s: Seq<u8>, capacity: nat) -> Seq<u8> {
        match *self {
            SizeChangingMutation::Delete { start, end } => s.take(start as int) + s.skip(
                end as int,
            ),
            SizeChangingMutation::InsertChunk { dst, .. } => (s.take(dst as int) + self.inserted(s)
                + s.skip(dst as int)).take(
                if s.len() + self.inserted(s).len() <= capacity {
                    (s.len() + self.inserted(s).len()) as int
                } else {
                    capacity as int
                },
            ),
            SizeChangingMutation::InsertFixed { dst, .. } => (s.take(dst as int) + self.inserted(s)
                + s.skip(dst as int)).take(
                if s.len() + self.inserted(s).len() <= capacity {
                    (s.len() + self.inserted(s).len()) as int
                } else {
                    capacity as int
                },
            ),
            SizeChangingMutation::InsertRandom { dst, .. } => (s.take(dst as int) + self.inserted(s)
                + s.skip(dst as int)).take(
                if s.len() + self.inserted(s).len() <= capacity {
                    (s.len() + self.inserted(s).len()) as int
                } else {
                    capacity as int
                },
            ),
        }
    }

    /// Apply the mutation.  The capacity never changes and the new value is
    /// exactly `result` of the old one.
    pub fn apply(&self, buff: &mut DataBuff)
        requires
            self.valid_for(old(buff)@.len()),
        ensures
            final(buff).spec_capacity() == old(buff).spec_capacity(),
            final(buff)@ == self.result(old(buff)@, old(buff).spec_capacity()),
    {
        let cur_len = buff.len();
        let cap = buff.capacity();
        let mut out: Vec<u8> = Vec::new();
        match self {
            SizeChangingMutation::Delete { start, end } => {
                let mut i: usize = 0;
                while i < *start
                    invariant
                        i <= *start,
                        *start <= *end <= buff@.len(),
                        out@ =~= buff@.subrange(0, i as int),
                    decreases *start - i,
                {
                    out.push(buff.read_u8(i));
                    i = i + 1;
                }
                let mut i: usize = *end;
                while i < cur_len
                    invariant
                        *end <= i <= cur_len,
                        cur_len == buff@.len(),
                        *start <= *end,
                        out@ =~= buff@.subrange(0, *start as int) + buff@.subrange(
                            *end as int,
                            i as int,
                        ),
                    decreases cur_len - i,
                {
                    out.push(buff.read_u8(i));
                    i = i + 1;
                }
                proof {
                    assert(out@ =~= buff@.take(*start as int) + buff@.skip(*end as int));
                    assert(out@.len() <= buff@.len());
                }
            },
            _ => {
                let dst: usize = match self {
                    SizeChangingMutation::Delete { .. } => 0,
                    SizeChangingMutation::InsertChunk { dst, .. } => *dst,
                    SizeChangingMutation::InsertFixed { dst, .. } => *dst,
                    SizeChangingMutation::InsertRandom { dst, .. } => *dst,
                };
                let ins: Vec<u8> = match self {
                    SizeChangingMutation::Delete { .. } => Vec::new(),
                    SizeChangingMutation::InsertChunk { src_start, src_end, .. } => {
                        let n = *src_end - *src_start;
                        let mut chunk: Vec<u8> = Vec::new();
                        let mut i: usize = 0;
                        while i < n
                            invariant
                                i <= n,
                                *src_start + n <= buff@.len(),
                                chunk@ =~= buff@.subrange(*src_start as int, *src_start + i),
                            decreases n - i,
                        {
                            chunk.push(buff.read_u8(*src_start + i));
                            i = i + 1;
                        }
                        chunk
                    },
                    SizeChangingMutation::InsertFixed { amount, val, .. } => {
                        let mut chunk: Vec<u8> = Vec::new();
                        let mut i: usize = 0;
                        while i < *amount
                            invariant
                                i <= *amount,
                                chunk@ =~= Seq::new(i as nat, |j: int| *val),
                            decreases *amount - i,
                        {
                            chunk.push(*val);
                            proof {
                                assert(chunk@ =~= Seq::new((i + 1) as nat, |j: int| *val));
                            }
                            i = i + 1;
                        }
                        chunk
                    },
                    SizeChangingMutation::InsertRandom { data, .. } => data.clone(),
                };
                proof {
                    assert(ins@ == self.inserted(buff@));
                }
                let mut i: usize = 0;
                while i < dst
                    invariant
                        i <= dst,
                        dst <= buff@.len(),
                        out@ =~= buff@.subrange(0, i as int),
                    decreases dst - i,
                {
                    out.push(buff.read_u8(i));
                    i = i + 1;
                }
                let mut i: usize = 0;
                while i < ins.len()
                    invariant
                        i <= ins@.len(),
                        dst <= buff@.len(),
                        out@ =~= buff@.subrange(0, dst as int) + ins@.take(i as int),
                    decreases ins@.len() - i,
                {
                    out.push(ins[i]);
                    proof {
                        assert(buff@.subrange(0, dst as int) + ins@.take(i as int) + seq![ins@[i as int]]
                            =~= buff@.subrange(0, dst as int) + ins@.take(i + 1));
                    }
                    i = i + 1;
                }
                proof {
                    assert(ins@.take(ins@.len() as int) =~= ins@);
                }
                let mut i: usize = dst;
                while i < cur_len
                    invariant
                        dst <= i <= cur_len,
                        cur_len == buff@.len(),
                        out@ =~= buff@.subrange(0, dst as int) + ins@ + buff@.subrange(
                            dst as int,
                            i as int,
                        ),
                    decreases cur_len - i,
                {
                    out.push(buff.read_u8(i));
                    i = i + 1;
                }
                if out.len() > cap {
                    out.truncate(cap);
                }
                proof {
                    assert(buff@.subrange(dst as int, cur_len as int) =~= buff@.skip(dst as int));
                }
            },
        }
        buff.set_to_slice(out.as_slice());
        proof {
            assert(buff@ =~= self.result(old(buff)@, old(buff).spec_capacity()));
        }
    }
}

/// Either kind of mutation.
#[derive(Clone, Debug, PartialEq, Eq, Hash)]
pub enum Mutation {
    Inplace(InplaceMutation),
    SizeChanging(SizeChangingMutation),
}

impl Mutation {
    pub open spec fn valid_for(&self, len: nat) -> bool {
        match self {
            Mutation::Inplace(m) => m.valid_for(len),
            Mutation::SizeChanging(m) => m.valid_for(len),
        }
    }

    /// Apply whichever mutation this is; the capacity never changes and the
    /// value never outgrows it.
    pub fn apply(&self, buff: &mut DataBuff)
        requires
            self.valid_for(old(buff)@.len()),
        ensures
            final(buff).spec_capacity() == old(buff).spec_capacity(),
            final(buff)@.len() <= final(buff).spec_capacity() || final(buff)@.len() == old(
                buff,
            )@.len(),
    {
        match self {
            Mutation::Inplace(m) => m.apply(buff),
            Mutation::SizeChanging(m) => m.apply(buff),
        }
    }
}

/// Picks and parameterizes random byte-level mutations.
pub struct PrimitiveMutator {}

impl PrimitiveMutator {
    pub fn new() -> (r: Self) {
        PrimitiveMutator {  }
    }

    /// An offset where a field of `size` bytes fits the value.
    fn gen_offset(&self, size: usize, buff: &DataBuff, dist: &mut Distributions) -> (r: usize)
        requires
            0 < size <= buff@.len(),
        ensures
            r + size <= buff@.len(),
            final(dist).wf() == old(dist).wf(),
            final(dist).dict == old(dist).dict,
    {
        dist.gen_range(0, buff.len() - size + 1)
    }

    /// A small arithmetic delta, positive or negative, in two's complement.
    fn gen_arith_val(&self, dist: &mut Distributions) -> (r: u8)
        ensures
            final(dist).wf() == old(dist).wf(),
            final(dist).dict == old(dist).dict,
    {
        let v = dist.gen_range(1, 35) as u8;
        if dist.gen_bool() {
            v
        } else {
            (0u8).wrapping_sub(v)
        }
    }

    /// A block `(start, end)` within the value, at most `max_len` long and
    /// non-empty whenever the value is.
    fn gen_block_range(&self, buff: &DataBuff, dist: &mut Distributions) -> (r: (usize, usize))
        requires
            buff@.len() > 0,
            old(dist).wf(),
        ensures
            r.0 <= r.1 <= buff@.len(),
            r.1 - r.0 >= 1,
            final(dist).wf(),
            final(dist).dict == old(dist).dict,
    {
        let len = buff.len();
        let window = dist.gen_block_size();
        let mut max = window.1;
        if max > len {
            max = len;
        }
        let mut min = window.0;
        if min >= max {
            min = 1;
        }
        let size = dist.gen_range(min - 1, max) + 1;
        let start = dist.gen_range(0, len - size + 1);
        (start, start + size)
    }

    /// The mutation kind for this draw: a few attempts at a kind that fits
    /// the value, with the single-bit flip as the fallback.
    fn gen_inplace_mutation_type(&self, buff: &DataBuff, dist: &mut Distributions) -> (r:
        InplaceMutationType)
        requires
            buff@.len() > 0,
            old(dist).wf(),
        ensures
            r.spec_min_size() <= buff@.len(),
            final(dist).wf(),
            final(dist).dict == old(dist).dict,
    {
        let mut tries: usize = 0;
        while tries < 4
            invariant
                dist.wf(),
                dist.dict == old(dist).dict,
                buff@.len() > 0,
            decreases 4 - tries,
        {
            let t = dist.gen_inplace_mutation_type();
            if t.min_size() <= buff.len() {
                return t;
            }
            tries = tries + 1;
        }
        InplaceMutationType::FlipBitT
    }

    /// One random in-place mutation, valid for the value as it stands.
    pub fn gen_inplace_mutation(&self, buff: &DataBuff, dist: &mut Distributions) -> (r:
        InplaceMutation)
        requires
            buff@.len() > 0,
            old(dist).wf(),
        ensures
            r.valid_for(buff@.len()),
            final(dist).wf(),
            final(dist).dict == old(dist).dict,
    {
        let m_type = self.gen_inplace_mutation_type(buff, dist);
        match m_type {
            InplaceMutationType::FlipBitT => InplaceMutation::FlipBit {
                offset: self.gen_offset(1, buff, dist),
                bit: dist.gen_range(0, 8),
            },
            InplaceMutationType::AddU8T => InplaceMutation::AddU8 {
                offset: self.gen_offset(1, buff, dist),
                val: self.gen_arith_val(dist),
            },
            InplaceMutationType::AddU16T => InplaceMutation::AddU16 {
                offset: self.gen_offset(2, buff, dist),
                val: self.gen_arith_val(dist) as i8 as u16,
                flip_endian: dist.gen_endianess(),
            },
            InplaceMutationType::AddU32T => InplaceMutation::AddU32 {
                offset: self.gen_offset(4, buff, dist),
                val: self.gen_arith_val(dist) as i8 as u32,
                flip_endian: dist.gen_endianess(),
            },
            InplaceMutationType::AddU64T => InplaceMutation::AddU64 {
                offset: self.gen_offset(8, buff, dist),
                val: self.gen_arith_val(dist) as i8 as u64,
                flip_endian: dist.gen_endianess(),
            },
            InplaceMutationType::InterestingU8T => InplaceMutation::InterestingU8 {
                offset: self.gen_offset(1, buff, dist),
                val: interesting_u8(dist.gen_range(0, 9)),
            },
            InplaceMutationType::InterestingU16T => InplaceMutation::InterestingU16 {
                offset: self.gen_offset(2, buff, dist),
                val: interesting_u16(dist.gen_range(0, 19)),
                flip_endian: dist.gen_endianess(),
            },
            InplaceMutationType::InterestingU32T => InplaceMutation::InterestingU32 {
                offset: self.gen_offset(4, buff, dist),
                val: interesting_u32(dist.gen_range(0, 27)),
                flip_endian: dist.gen_endianess(),
            },
            InplaceMutationType::InterestingU64T => InplaceMutation::InterestingU64 {
                offset: self.gen_offset(8, buff, dist),
                val: interesting_u64(dist.gen_range(0, 30)),
                flip_endian: dist.gen_endianess(),
            },
            InplaceMutationType::OverwriteRandomByteT => {
                let offset = self.gen_offset(1, buff, dist);
                InplaceMutation::OverwriteRandomByte {
                    offset,
                    val: (dist.gen_range(1, 255) as u8) ^ buff.read_u8(offset),
                }
            },
            InplaceMutationType::OverwriteChunkT => {
                let block = self.gen_block_range(buff, dist);
                let len = block.1 - block.0;
                let mut dst = self.gen_offset(len, buff, dist);
                let mut tries: usize = 0;
                while tries < 16
                    invariant
                        dist.wf(),
                        dist.dict == old(dist).dict,
                        0 < len <= buff@.len(),
                        dst + len <= buff@.len(),
                    decreases 16 - tries,
                {
                    if !(block.0 == dst && len != buff.len()) {
                        break;
                    }
                    dst = self.gen_offset(len, buff, dist);
                    tries = tries + 1;
                }
                InplaceMutation::OverwriteChunk { src_start: block.0, src_end: block.1, dst }
            },
            InplaceMutationType::OverwriteRandomT => {
                let block = self.gen_block_range(buff, dist);
                let data = dist.gen_random_overwrite_data(block.1 - block.0);
                if data.len() <= buff.len() - block.0 {
                    InplaceMutation::OverwriteRandom { data, dst: block.0 }
                } else {
                    InplaceMutation::OverwriteRandom { data: Vec::new(), dst: block.0 }
                }
            },
            InplaceMutationType::OverwriteFixedT => {
                let block = self.gen_block_range(buff, dist);
                InplaceMutation::OverwriteFixed {
                    start: block.0,
                    end: block.1,
                    val: dist.gen_u8(),
                }
            },
        }
    }

    /// The size-changing mutation kind for this draw, with insertion or
    /// deletion fallbacks depending on the spare room.
    fn gen_size_changing_mutation_type(&self, buff: &DataBuff, dist: &mut Distributions) -> (r:
        SizeChangingMutationType)
        requires
            buff@.len() > 0,
            old(dist).wf(),
        ensures
            r.spec_min_available() < buff.spec_capacity() - buff@.len() || r
                is DeleteT,
            final(dist).wf(),
            final(dist).dict == old(dist).dict,
    {
        let mut tries: usize = 0;
        while tries < 4
            invariant
                dist.wf(),
                dist.dict == old(dist).dict,
                buff@.len() > 0,
            decreases 4 - tries,
        {
            let t = dist.gen_size_changing_mutation_type();
            if t.min_size() <= buff.len() && t.min_available() < buff.available() {
                return t;
            }
            tries = tries + 1;
        }
        if buff.available() > 1 {
            SizeChangingMutationType::InsertRandomT
        } else {
            SizeChangingMutationType::DeleteT
        }
    }

    /// One random size-changing mutation, valid for the value as it
    /// stands.  The capacity floor is a coarse panic exclusion: with a
    /// tiny buffer the insertion fallbacks would have no room to draw
    /// their parameters from.
    pub fn gen_size_changing_mutation(&self, buff: &DataBuff, dist: &mut Distributions) -> (r:
        SizeChangingMutation)
        requires
            buff@.len() > 0,
            buff.spec_capacity() > 16,
            old(dist).wf(),
        ensures
            r.valid_for(buff@.len()),
            final(dist).wf(),
            final(dist).dict == old(dist).dict,
    {
        let m_type = self.gen_size_changing_mutation_type(buff, dist);
        match m_type {
            SizeChangingMutationType::DeleteT => {
                let block = self.gen_block_range(buff, dist);
                SizeChangingMutation::Delete { start: block.0, end: block.1 }
            },
            SizeChangingMutationType::InsertChunkT => {
                let block = self.gen_block_range(buff, dist);
                SizeChangingMutation::InsertChunk {
                    src_start: block.0,
                    src_end: block.1,
                    dst: self.gen_offset(1, buff, dist),
                }
            },
            SizeChangingMutationType::InsertFixedT => SizeChangingMutation::InsertFixed {
                dst: self.gen_offset(1, buff, dist),
                amount: dist.gen_range(1, buff.capacity() - buff.len()),
                val: dist.gen_u8(),
            },
            SizeChangingMutationType::InsertRandomT => {
                let max = dist.gen_range(1, buff.available());
                let mut data: Vec<u8> = Vec::new();
                let mut i: usize = 0;
                while i < max
                    invariant
                        i <= max,
                        dist.wf(),
                        dist.dict == old(dist).dict,
                    decreases max - i,
                {
                    let b = dist.gen_u8();
                    data.push(b);
                    i = i + 1;
                }
                SizeChangingMutation::InsertRandom { data, dst: self.gen_offset(1, buff, dist) }
            },
        }
    }

    /// Either kind of random mutation, at even odds.
    pub fn gen_mutation(&self, buff: &DataBuff, dist: &mut Distributions) -> (r: Mutation)
        requires
            buff@.len() > 0,
            buff.spec_capacity() > 16,
            old(dist).wf(),
        ensures
            r.valid_for(buff@.len()),
            final(dist).wf(),
            final(dist).dict == old(dist).dict,
    {
        if dist.gen_bool() {
            Mutation::Inplace(self.gen_inplace_mutation(buff, dist))
        } else {
            Mutation::SizeChanging(self.gen_size_changing_mutation(buff, dist))
        }
    }

    /// Mutate the buffer in place: an optional dictionary replacement
    /// first, then a random in-place mutation.  An empty buffer is left
    /// alone.  The length and capacity never change.
    pub fn mutate(
        &self,
        buff: &mut DataBuff,
        dict: Option<&crate::dict::CustomDict>,
        dist: &mut Distributions,
    )
        requires
            old(dist).wf(),
        ensures
            final(buff)@.len() == old(buff)@.len(),
            final(buff).spec_capacity() == old(buff).spec_capacity(),
            final(dist).wf(),
            final(dist).dict == old(dist).dict,
    {
        if buff.is_empty() {
            return ;
        }
        match dict {
            Some(d) => {
                if dist.should_mutate_dict() {
                    let continue_mutation = d.mutate(buff, dist);
                    if !continue_mutation {
                        return ;
                    }
                }
            },
            None => {},
        }
        let mutation = self.gen_inplace_mutation(buff, dist);
        mutation.apply(buff);
    }

    /// How many elements a generated array gets, within the caller's
    /// element and space limits.
    pub fn gen_num_array_elems(
        &self,
        elem_size: usize,
        min_elems: usize,
        max_elems: usize,
        max_data: usize,
        dist: &mut Distributions,
    ) -> (r: usize)
        requires
            elem_size > 0,
            min_elems <= max_elems,
        ensures
            r <= max_elems,
            r * elem_size <= max_data || r <= min_elems,
            min_elems <= max_data / elem_size ==> r >= min_elems,
            final(dist).wf() == old(dist).wf(),
            final(dist).dict == old(dist).dict,
    {
        let cap = max_data / elem_size;
        if cap > min_elems {
            let hi = if max_elems < cap {
                max_elems
            } else {
                cap
            };
            if min_elems < hi {
                let r = dist.gen_range(min_elems, hi);
                proof {
                    assert(r * elem_size <= (max_data / elem_size) * elem_size <= max_data)
                        by (nonlinear_arith)
                        requires
                            elem_size > 0,
                            r < cap,
                            cap == max_data / elem_size,
                    ;
                }
                r
            } else {
                min_elems
            }
        } else {
            if cap <= max_elems {
                proof {
                    assert(cap * elem_size <= max_data) by (nonlinear_arith)
                        requires
                            elem_size > 0,
                            cap == max_data / elem_size,
                    ;
                }
                cap
            } else {
                max_elems
            }
        }
    }
}

/// Distinguished single-byte values that often sit on interesting program
/// boundaries.
fn interesting_u8(i: usize) -> u8 {
    match i {
        0 => 0x80,
        1 => 0xff,
        2 => 0,
        3 => 1,
        4 => 16,
        5 => 32,
        6 => 64,
        7 => 100,
        _ => 127,
    }
}

/// Distinguished 16-bit values.
fn interesting_u16(i: usize) -> u16 {
    match i {
        0 => 0xff80,
        1 => 0xffff,
        2 => 0,
        3 => 1,
        4 => 16,
        5 => 32,
        6 => 64,
        7 => 100,
        8 => 127,
        9 => 0x8000,
        10 => 0xff7f,
        11 => 128,
        12 => 255,
        13 => 256,
        14 => 512,
        15 => 1000,
        16 => 1024,
        17 => 4096,
        _ => 32767,
    }
}

/// Distinguished 32-bit values.
fn interesting_u32(i: usize) -> u32 {
    match i {
        0 => 0xffffff80,
        1 => 0xffffffff,
        2 => 0,
        3 => 1,
        4 => 16,
        5 => 32,
        6 => 64,
        7 => 100,
        8 => 127,
        9 => 0xffff8000,
        10 => 0xffffff7f,
        11 => 128,
        12 => 255,
        13 => 256,
        14 => 512,
        15 => 1000,
        16 => 1024,
        17 => 4096,
        18 => 32767,
        19 => 0x80000000,
        20 => 0xf9fffffa,
        21 => 0xffff7fff,
        22 => 32768,
        23 => 65535,
        24 => 65536,
        25 => 100663045,
        _ => 2147483647,
    }
}

/// Distinguished 64-bit values.
fn interesting_u64(i: usize) -> u64 {
    match i {
        0 => 0xffffffffffffff80,
        1 => 0xffffffffffffffff,
        2 => 0,
        3 => 1,
        4 => 16,
        5 => 32,
        6 => 64,
        7 => 100,
        8 => 127,
        9 => 0xffffffffffff8000,
        10 => 0xffffffffffffff7f,
        11 => 128,
        12 => 255,
        13 => 256,
        14 => 512,
        15 => 1000,
        16 => 1024,
        17 => 4096,
        18 => 32767,
        19 => 0xffffffff80000000,
        20 => 0xfffffffff9fffffa,
        21 => 0xffffffffffff7fff,
        22 => 32768,
        23 => 65535,
        24 => 65536,
        25 => 100663045,
        26 => 2147483647,
        27 => 0x8000000000000000,
        28 => 0x7fffffffffffffff,
        _ => 0x8080808080808080,
    }
}

/// The four fixed single-byte perturbations of the deterministic
/// calibration sweep.
pub struct PrimitiveMutatorDefenite {}

impl PrimitiveMutatorDefenite {
    pub fn new() -> (r: Self) {
        PrimitiveMutatorDefenite {  }
    }

    /// Flip every bit of the byte at `offset`.
    pub fn gen_full_bit_flip_at_offset(&self, buff: &DataBuff, offset: usize) -> (r:
        InplaceMutation)
        requires
            offset < buff@.len(),
        ensures
            r == (InplaceMutation::OverwriteFixed {
                start: offset,
                end: (offset + 1) as usize,
                val: buff@[offset as int] ^ 0xff,
            }),
            r.valid_for(buff@.len()),
    {
        let orig = buff.read_u8(offset);
        InplaceMutation::OverwriteFixed { start: offset, end: offset + 1, val: orig ^ 0xff }
    }

    /// Flip the lowest bit of the byte at `offset`.
    pub fn gen_lowest_bit_flip_at_offset(&self, buff: &DataBuff, offset: usize) -> (r:
        InplaceMutation)
        requires
            offset < buff@.len(),
        ensures
            r == (InplaceMutation::OverwriteFixed {
                start: offset,
                end: (offset + 1) as usize,
                val: buff@[offset as int] ^ 0x01,
            }),
            r.valid_for(buff@.len()),
    {
        let orig = buff.read_u8(offset);
        InplaceMutation::OverwriteFixed { start: offset, end: offset + 1, val: orig ^ 0x01 }
    }

    /// Wrapping-subtract a fixed constant from the byte at `offset`.
    pub fn gen_subtraction_at_offset(&self, buff: &DataBuff, offset: usize) -> (r: InplaceMutation)
        requires
            offset < buff@.len(),
        ensures
            r == (InplaceMutation::OverwriteFixed {
                start: offset,
                end: (offset + 1) as usize,
                val: buff@[offset as int].wrapping_sub(0x10),
            }),
            r.valid_for(buff@.len()),
    {
        let orig = buff.read_u8(offset);
        InplaceMutation::OverwriteFixed {
            start: offset,
            end: offset + 1,
            val: orig.wrapping_sub(0x10),
        }
    }

    /// Wrapping-add a fixed constant to the byte at `offset`.
    pub fn gen_addition_at_offset(&self, buff: &DataBuff, offset: usize) -> (r: InplaceMutation)
        requires
            offset < buff@.len(),
        ensures
            r == (InplaceMutation::OverwriteFixed {
                start: offset,
                end: (offset + 1) as usize,
                val: buff@[offset as int].wrapping_add(0x10),
            }),
            r.valid_for(buff@.len()),
    {
        let orig = buff.read_u8(offset);
        InplaceMutation::OverwriteFixed {
            start: offset,
            end: offset + 1,
            val: orig.wrapping_add(0x10),
        }
    }
}

} // verus!
