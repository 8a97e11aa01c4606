//! The entropy source and the distributions the mutators draw from.
//!
//! All randomness flows through one small PRNG per worker; reproducing a
//! mutation sequence bit-for-bit means reusing the same seed in the same
//! call order.  Contracts promise only ranges, never values: callers must
//! hold for every outcome.

use vstd::prelude::*;

use crate::mutator::{GenerateTail, MutationStrategy, NodeMutationType};
use crate::primitive::{InplaceMutationType, SizeChangingMutationType};

verus! {

/// A small fast PRNG with two 64-bit words of state.
pub struct RomuPrng {
    pub xstate: u64,
    pub ystate: u64,
}

impl RomuPrng {
    pub fn new(xstate: u64, ystate: u64) -> (r: Self)
        ensures
            r.xstate == xstate,
            r.ystate == ystate,
    {
        RomuPrng { xstate, ystate }
    }

    /// Spread one 64-bit seed over both state words.
    pub fn new_from_u64(seed: u64) -> (r: Self)
        ensures
            r.xstate == seed,
            r.ystate == seed ^ 0xec77152282650854,
    {
        RomuPrng::new(seed, seed ^ 0xec77152282650854)
    }

    /// The next pseudo-random word.  The state evolution is fixed, so one
    /// seed replays one stream bit-for-bit: the result is the previous
    /// first state word, and both words advance by the stated recurrence.
    pub fn next_u64(&mut self) -> (r: u64)
        ensures
            r == old(self).xstate,
            final(self).xstate == vstd::wrapping::u64_specs::wrapping_mul(
                15241094284759029579u64,
                old(self).ystate,
            ),
            final(self).ystate == ({
                let y = vstd::wrapping::u64_specs::wrapping_sub(
                    old(self).ystate,
                    old(self).xstate,
                );
                (y << 27u64) | (y >> 37u64)
            }),
    {
        let xp = self.xstate;
        self.xstate = 15241094284759029579u64.wrapping_mul(self.ystate);
        let y = self.ystate.wrapping_sub(xp);
        self.ystate = (y << 27u64) | (y >> 37u64);
        xp
    }
}

/// Weighted choice among a fixed option list.
pub struct Choices<T> {
    pub weights: Vec<usize>,
    pub options: Vec<T>,
    pub total: usize,
}

impl<T> Choices<T> {
    /// The tables are parallel and non-empty, with small positive weights,
    /// and `total` carries their sum.
    pub open spec fn wf(&self) -> bool {
        &&& self.weights@.len() == self.options@.len()
        &&& 0 < self.options@.len() <= 255
        &&& forall|i: int| 0 <= i < self.weights@.len() ==> 1 <= (#[trigger] self.weights@[i]) <= 255
        &&& 1 <= self.total <= 65025
    }

    /// Build a table from parallel weight and option lists.
    pub fn new(weights: Vec<usize>, options: Vec<T>) -> (r: Self)
        requires
            weights@.len() == options@.len(),
            0 < options@.len() <= 255,
            forall|i: int| 0 <= i < weights@.len() ==> 1 <= (#[trigger] weights@[i]) <= 255,
        ensures
            r.wf(),
            r.options@ == options@,
    {
        let mut total: usize = 0;
        let mut i: usize = 0;
        while i < weights.len()
            invariant
                i <= weights@.len(),
                weights@.len() <= 255,
                forall|k: int| 0 <= k < weights@.len() ==> 1 <= (#[trigger] weights@[k]) <= 255,
                i <= total,
                total <= 255 * i,
            decreases weights@.len() - i,
        {
            total = total + weights[i];
            i = i + 1;
        }
        Choices { weights, options, total }
    }

    /// Pick one option, each with probability proportional to its weight.
    pub fn sample(&self, rng: &mut RomuPrng) -> (r: &T)
        requires
            self.wf(),
        ensures
            exists|i: int| 0 <= i < self.options@.len() && r == &self.options@[i],
    {
        let roll = rng.next_u64() % (self.total as u64);
        let mut acc: u64 = 0;
        let mut i: usize = 0;
        while i < self.weights.len()
            invariant
                self.wf(),
                i <= self.weights@.len(),
                acc <= 255 * (i as u64),
            decreases self.weights@.len() - i,
        {
            acc = acc + self.weights[i] as u64;
            if roll < acc {
                return &self.options[i];
            }
            i = i + 1;
        }
        &self.options[0]
    }
}

/// The distributions one worker draws from: a seeded PRNG plus the fixed
/// weighted tables for block sizes and mutation kinds, and the input
/// dictionary for overwrite material.
pub struct Distributions {
    pub rng: RomuPrng,
    pub block_size: Choices<(usize, usize)>,
    pub inplace_mutations: Choices<InplaceMutationType>,
    pub size_changing_mutations: Choices<SizeChangingMutationType>,
    pub graph_mutations: Choices<NodeMutationType>,
    pub dict: Vec<Vec<u8>>,
}

impl Distributions {
    pub open spec fn wf(&self) -> bool {
        &&& self.block_size.wf()
        &&& self.inplace_mutations.wf()
        &&& self.size_changing_mutations.wf()
        &&& self.graph_mutations.wf()
        &&& forall|i: int|
            0 <= i < self.block_size.options@.len() ==> 0 < (
            #[trigger] self.block_size.options@[i]).0 < self.block_size.options@[i].1
    }

    /// Build the standard tables over a dictionary; a non-empty dictionary
    /// doubles the weight of whole-buffer random overwrites.
    pub fn new(dict: Vec<Vec<u8>>) -> (r: Self)
        ensures
            r.wf(),
    {
        let seed = crate::hashutil::entropy_seed();
        Self::new_seeded(dict, seed)
    }

    /// Build the standard tables with an explicit seed.
    pub fn new_seeded(dict: Vec<Vec<u8>>, seed: u64) -> (r: Self)
        ensures
            r.wf(),
    {
        let mut bw: Vec<usize> = Vec::new();
        bw.push(10);
        bw.push(4);
        bw.push(1);
        let mut bo: Vec<(usize, usize)> = Vec::new();
        bo.push((1, 32));
        bo.push((32, 128));
        bo.push((128, 1500));
        let block_size = Choices::new(bw, bo);
        let mut iw: Vec<usize> = Vec::new();
        let mut io: Vec<InplaceMutationType> = Vec::new();
        io.push(InplaceMutationType::OverwriteRandomT);
        io.push(InplaceMutationType::FlipBitT);
        io.push(InplaceMutationType::AddU8T);
        io.push(InplaceMutationType::AddU16T);
        io.push(InplaceMutationType::AddU32T);
        io.push(InplaceMutationType::AddU64T);
        io.push(InplaceMutationType::InterestingU8T);
        io.push(InplaceMutationType::InterestingU16T);
        io.push(InplaceMutationType::InterestingU32T);
        io.push(InplaceMutationType::InterestingU64T);
        io.push(InplaceMutationType::OverwriteRandomByteT);
        io.push(InplaceMutationType::OverwriteChunkT);
        io.push(InplaceMutationType::OverwriteFixedT);
        iw.push(if dict.len() > 0 {
            2
        } else {
            1
        });
        let mut k: usize = 1;
        while k < 13
            invariant
                1 <= k <= 13,
                iw@.len() == k,
                forall|j: int| 0 <= j < k ==> 1 <= (#[trigger] iw@[j]) <= 2,
            decreases 13 - k,
        {
            iw.push(1);
            k = k + 1;
        }
        let inplace_mutations = Choices::new(iw, io);
        let mut sw: Vec<usize> = Vec::new();
        let mut so: Vec<SizeChangingMutationType> = Vec::new();
        so.push(SizeChangingMutationType::DeleteT);
        so.push(SizeChangingMutationType::InsertChunkT);
        so.push(SizeChangingMutationType::InsertFixedT);
        so.push(SizeChangingMutationType::InsertRandomT);
        sw.push(1);
        sw.push(1);
        sw.push(1);
        sw.push(1);
        let size_changing_mutations = Choices::new(sw, so);
        let mut gw: Vec<usize> = Vec::new();
        let mut go: Vec<NodeMutationType> = Vec::new();
        go.push(NodeMutationType::CopyNode);
        go.push(NodeMutationType::MutateNodeData);
        go.push(NodeMutationType::DropNode);
        go.push(NodeMutationType::SkipAndGenerate);
        gw.push(10);
        gw.push(4);
        gw.push(1);
        gw.push(1);
        let graph_mutations = Choices::new(gw, go);
        Distributions {
            rng: RomuPrng::new_from_u64(seed),
            block_size,
            inplace_mutations,
            size_changing_mutations,
            graph_mutations,
            dict,
        }
    }

    /// Reseed with one word.
    pub fn set_seed(&mut self, seed: u64)
        ensures
            final(self).wf() == old(self).wf(),
            final(self).dict == old(self).dict,
    {
        self.rng = RomuPrng::new_from_u64(seed);
    }

    /// Reseed with both state words.
    pub fn set_full_seed(&mut self, x: u64, y: u64)
        ensures
            final(self).wf() == old(self).wf(),
            final(self).dict == old(self).dict,
    {
        self.rng = RomuPrng::new(x, y);
    }

    /// A uniform draw from `low..high`.
    pub fn gen_range(&mut self, low: usize, high: usize) -> (r: usize)
        requires
            low < high,
        ensures
            low <= r < high,
            final(self).wf() == old(self).wf(),
            final(self).dict == old(self).dict,
    {
        let span = (high - low) as u64;
        let roll = self.rng.next_u64() % span;
        low + (roll as usize)
    }

    pub fn gen_u64(&mut self) -> (r: u64)
        ensures
            final(self).wf() == old(self).wf(),
            final(self).dict == old(self).dict,
    {
        self.rng.next_u64()
    }

    pub fn gen_u8(&mut self) -> (r: u8)
        ensures
            final(self).wf() == old(self).wf(),
            final(self).dict == old(self).dict,
    {
        (self.rng.next_u64() % 256) as u8
    }

    pub fn gen_bool(&mut self) -> (r: bool)
        ensures
            final(self).wf() == old(self).wf(),
            final(self).dict == old(self).dict,
    {
        self.rng.next_u64() % 2 == 0
    }

    /// Whether a multi-byte value should be written with flipped endianness.
    pub fn gen_endianess(&mut self) -> (r: bool)
        ensures
            final(self).wf() == old(self).wf(),
            final(self).dict == old(self).dict,
    {
        self.gen_bool()
    }

    /// How many nodes a skip-and-generate burst appends.
    pub fn gen_number_of_random_nodes(&mut self) -> (r: usize)
        ensures
            1 <= r < 64,
            final(self).wf() == old(self).wf(),
            final(self).dict == old(self).dict,
    {
        self.gen_range(1, 64)
    }

    /// A power-of-two percentage: 1, 2, 4, 8, 16, 32.
    fn gen_change_percentage(&mut self) -> (r: usize)
        ensures
            1 <= r <= 32,
            final(self).wf() == old(self).wf(),
            final(self).dict == old(self).dict,
    {
        let e = self.gen_range(0, 6);
        if e == 0 {
            1
        } else if e == 1 {
            2
        } else if e == 2 {
            4
        } else if e == 3 {
            8
        } else if e == 4 {
            16
        } else {
            32
        }
    }

    /// Material for a random overwrite: a dictionary entry that fits the
    /// destination, else fresh random bytes filling it.
    pub fn gen_random_overwrite_data(&mut self, dst_len: usize) -> (r: Vec<u8>)
        ensures
            r@.len() <= dst_len || dst_len == 0,
            final(self).wf() == old(self).wf(),
            final(self).dict == old(self).dict,
    {
        if self.dict.len() > 0 && self.gen_u8() & 1 == 0 {
            let i = self.gen_range(0, self.dict.len());
            if self.dict[i].len() <= dst_len {
                return self.dict[i].clone();
            }
        }
        let mut out: Vec<u8> = Vec::new();
        let mut i: usize = 0;
        while i < dst_len
            invariant
                i <= dst_len,
                out@.len() == i,
                self.wf() == old(self).wf(),
                self.dict == old(self).dict,
            decreases dst_len - i,
        {
            let b = self.gen_u8();
            out.push(b);
            i = i + 1;
        }
        out
    }

    /// Pick one of the fifteen weighted strategy slots.  The length of the
    /// surviving source only shapes the tail-generation parameters.
    pub fn gen_mutation_strategy(&mut self, old_size: usize) -> (r: MutationStrategy)
        requires
            old(self).wf(),
        ensures
            final(self).wf(),
            final(self).dict == old(self).dict,
            (r matches MutationStrategy::GenerateTail(a) ==> a.drop_last < old_size || (
            a.drop_last == 0 && old_size == 0)) && (r is GenerateTail || r is Splice
                || r is SpliceRandom || r is DataOnly || r is Repeat),
    {
        let roll = self.gen_range(0, 15);
        if roll == 0 {
            MutationStrategy::GenerateTail(self.gen_tail_generation_strategy(old_size))
        } else if roll <= 2 {
            MutationStrategy::Splice
        } else if roll == 3 {
            MutationStrategy::SpliceRandom
        } else if roll <= 12 {
            MutationStrategy::DataOnly
        } else {
            MutationStrategy::Repeat
        }
    }

    /// Derive how much of the tail to drop and how much to generate, from a
    /// log-scaled percentage of the surviving length.
    pub fn gen_tail_generation_strategy(&mut self, old_size: usize) -> (r: GenerateTail)
        requires
            old(self).wf(),
        ensures
            final(self).wf(),
            final(self).dict == old(self).dict,
            r.drop_last < old_size || (r.drop_last == 0 && old_size == 0),
    {
        let pct = self.gen_change_percentage();
        let mut drop_last: usize = if old_size <= usize::MAX / 32 {
            proof {
                assert(pct * old_size <= 32 * (usize::MAX / 32)) by (nonlinear_arith)
                    requires
                        1 <= pct <= 32,
                        0 <= old_size <= usize::MAX / 32,
                ;
            }
            (pct * old_size) / 100
        } else {
            proof {
                assert((old_size / 100) * pct <= (usize::MAX / 100) * 32) by (nonlinear_arith)
                    requires
                        1 <= pct <= 32,
                        0 <= old_size / 100 <= usize::MAX / 100,
                ;
            }
            old_size / 100 * pct
        };
        let range = *self.block_size.sample(&mut self.rng);
        let mut generate = self.gen_range(range.0, range.1);
        if drop_last >= old_size {
            drop_last = 0;
        }
        proof {
            if old_size > 0 {
                assert(drop_last < old_size);
            }
        }
        let survive = old_size - drop_last;
        if survive < 16 && generate < 16 - survive && self.gen_range(0, 100) < 98 {
            generate = generate + 16;
        }
        GenerateTail { drop_last, generate }
    }

    /// Pick a per-node mutation for the splice-random walk.
    pub fn gen_graph_mutation_type(&mut self) -> (r: NodeMutationType)
        requires
            old(self).wf(),
        ensures
            final(self).wf(),
            final(self).dict == old(self).dict,
    {
        *self.graph_mutations.sample(&mut self.rng)
    }

    pub fn gen_inplace_mutation_type(&mut self) -> (r: InplaceMutationType)
        requires
            old(self).wf(),
        ensures
            final(self).wf(),
            final(self).dict == old(self).dict,
    {
        *self.inplace_mutations.sample(&mut self.rng)
    }

    pub fn gen_size_changing_mutation_type(&mut self) -> (r: SizeChangingMutationType)
        requires
            old(self).wf(),
        ensures
            final(self).wf(),
            final(self).dict == old(self).dict,
    {
        *self.size_changing_mutations.sample(&mut self.rng)
    }

    /// A block-size window `(min, max)` with `0 < min < max`.
    pub fn gen_block_size(&mut self) -> (r: (usize, usize))
        requires
            old(self).wf(),
        ensures
            final(self).wf(),
            final(self).dict == old(self).dict,
            0 < r.0 < r.1,
    {
        *self.block_size.sample(&mut self.rng)
    }

    /// Whether this node's data gets mutated rather than copied; the chance
    /// shrinks with the number of remaining nodes.
    pub fn should_mutate_data(&mut self, num_nodes: usize) -> (r: bool)
        requires
            num_nodes < usize::MAX,
        ensures
            final(self).wf() == old(self).wf(),
            final(self).dict == old(self).dict,
    {
        self.gen_range(0, num_nodes + 1) <= 2
    }

    /// Whether a dictionary replacement is tried first (about one in three).
    pub fn should_mutate_dict(&mut self) -> (r: bool)
        ensures
            final(self).wf() == old(self).wf(),
            final(self).dict == old(self).dict,
    {
        self.gen_range(0, 3) == 0
    }
}

} // verus!
