//! The shared corpus: retained inputs, per-bit minimal examples, and the
//! favorite set.
//!
//! The corpus is append-only.  For every bitmap bit, the queue remembers
//! the smallest input (by node count) that set it; the favorite set is
//! recomputed from the full input list each time, so redundant recomputation
//! is harmless.

use vstd::prelude::*;

use std::collections::HashMap;

use crate::bitmap::{BitmapHandler, StorageReason};
use crate::exitreason::ExitReason;
use crate::input::{Input, InputID};
use crate::mutator::{InputQueue, MutationStrategy};
use crate::nodes::decompose;
use crate::spec::GraphSpec;
use crate::storage::{GraphStorage, VecGraph};

verus! {

broadcast use vstd::std_specs::hash::group_hash_axioms;

/// A snapshot of the queue's bookkeeping, for the stats writer.
#[derive(Clone, Debug)]
pub struct QueueStats {
    pub num_inputs: usize,
    pub favqueue: Vec<usize>,
}

/// The number of nodes a graph decomposes into (zero when it does not
/// decompose).
pub open spec fn spec_node_count(sp: &GraphSpec, g: &VecGraph) -> nat {
    match decompose(sp, g.ops@, g.data@) {
        Some(views) => views.len(),
        None => 0,
    }
}

/// Whether the queue retains an input: it must decompose into at least one
/// node and have ended in a normal run, a crash, or a timeout.
pub open spec fn queue_accepts(sp: &GraphSpec, input: &Input) -> bool {
    &&& spec_node_count(sp, &input.data) > 0
    &&& (input.exit_reason is Normal || input.exit_reason is Crash || input.exit_reason is Timeout)
}

/// Whether any storage reason of the input certifies brand-new coverage.
pub open spec fn input_has_new_byte(inp: &Input) -> bool {
    exists|k: int|
        0 <= k < inp.storage_reasons@.len() && (
        #[trigger] inp.storage_reasons@[k]).spec_has_new_byte()
}

/// Whether the input's bitmap sets a position (within the first `size`,
/// clipped to its own length) not yet covered.
pub open spec fn contributes(bits: Seq<u8>, inp: &Input, size: nat) -> bool {
    exists|b: int|
        0 <= b < size && b < inp.bitmap.bits@.len() && bits[b] == 0 && (
        #[trigger] inp.bitmap.bits@[b]) > 0
}

/// The cover after folding in the input's nonzero positions.
pub open spec fn cover_with(bits: Seq<u8>, inp: &Input, size: nat) -> Seq<u8> {
    Seq::new(
        bits.len(),
        |b: int|
            if b < size && b < inp.bitmap.bits@.len() && inp.bitmap.bits@[b] != 0 {
                1u8
            } else {
                bits[b]
            },
    )
}

/// The favorite-set computation as a fold over the newest `k` inputs,
/// newest first: an input joins the set when it certifies new coverage
/// and still contributes uncovered bits, or when it is a seed import
/// without such a certificate; its bits then extend the cover.
pub open spec fn fav_fold(inputs: Seq<Input>, size: nat, k: nat) -> (Seq<u8>, Seq<InputID>)
    decreases k,
{
    if k == 0 || k > inputs.len() {
        (Seq::new(size, |b: int| 0u8), Seq::empty())
    } else {
        let folded = fav_fold(inputs, size, (k - 1) as nat);
        let inp = inputs[inputs.len() - k];
        if input_has_new_byte(&inp) {
            if contributes(folded.0, &inp, size) {
                (cover_with(folded.0, &inp, size), folded.1.push(inp.id))
            } else {
                folded
            }
        } else if inp.found_by is SeedImport {
            (folded.0, folded.1.push(inp.id))
        } else {
            folded
        }
    }
}

/// The append-only corpus and its coverage bookkeeping.
pub struct Queue {
    /// For each bitmap index, the smallest input that set it.
    pub bitmap_index_to_min_example: HashMap<usize, InputID>,
    /// The bitmap indices seen so far, in discovery order.
    pub bitmap_bits: Vec<usize>,
    /// The favorite set: a subset of inputs collectively covering all
    /// new-byte coverage.
    pub favqueue: Vec<InputID>,
    pub inputs: Vec<Input>,
    pub input_to_iters_no_finds: Vec<usize>,
    pub input_selected_times: Vec<usize>,
    pub bitmaps: BitmapHandler,
    pub next_input_id: usize,
    pub total_execs: u64,
}

impl Queue {
    /// Stored ids are positions, the per-bit table points at stored
    /// inputs, and the bitmaps are consistent.
    pub open spec fn wf(&self) -> bool {
        &&& self.bitmaps.wf()
        &&& forall|i: int|
            0 <= i < self.inputs@.len() ==> (#[trigger] self.inputs@[i]).id.0 == i
        &&& forall|k: usize|
            self.bitmap_index_to_min_example@.dom().contains(k) ==> (
            #[trigger] self.bitmap_index_to_min_example@[k]).0 < self.inputs@.len()
        &&& forall|j: int|
            0 <= j < self.favqueue@.len() ==> (#[trigger] self.favqueue@[j]).0
                < self.inputs@.len()
    }

    /// An empty queue over bitmaps of the given size.
    pub fn new(bitmap_size: usize) -> (r: Self)
        ensures
            r.wf(),
            r.inputs@.len() == 0,
            r.bitmaps.size == bitmap_size,
            r.next_input_id == 0,
            r.total_execs == 0,
    {
        Queue {
            bitmap_index_to_min_example: HashMap::new(),
            bitmap_bits: Vec::new(),
            favqueue: Vec::new(),
            inputs: Vec::new(),
            input_to_iters_no_finds: Vec::new(),
            input_selected_times: Vec::new(),
            bitmaps: BitmapHandler::new(bitmap_size),
            next_input_id: 0,
            total_execs: 0,
        }
    }

    /// Number of retained inputs.
    pub fn len(&self) -> (r: usize)
        ensures
            r == self.inputs@.len(),
    {
        self.inputs.len()
    }

    pub fn get_total_execs(&self) -> (r: u64)
        ensures
            r == self.total_execs,
    {
        self.total_execs
    }

    /// Fold a run into exactly the per-outcome bitmap of its kind; a seed
    /// import that did not time out is always worth storing, so it gets an
    /// import reason appended even without new coverage.
    pub fn check_new_bytes(
        &mut self,
        run_bitmap: &[u8],
        etype: &ExitReason,
        strat: MutationStrategy,
    ) -> (r: Option<Vec<StorageReason>>)
        requires
            old(self).wf(),
            run_bitmap@.len() == old(self).bitmaps.size,
        ensures
            final(self).wf(),
            final(self).inputs == old(self).inputs,
            final(self).bitmaps.size == old(self).bitmaps.size,
            crate::bitmap::handler_folded(
                old(self).bitmaps,
                final(self).bitmaps,
                run_bitmap@,
                etype,
            ),
            !(strat is SeedImport && !(etype is Timeout)) ==> (r is None
                <==> !crate::bitmap::handler_saw_new(old(self).bitmaps, run_bitmap@, etype)),
            strat is SeedImport && !(etype is Timeout) ==> (r matches Some(v) && v@.len() >= 1
                && v@.last() == StorageReason::Imported),
    {
        let mut res = self.bitmaps.check_new_bytes(run_bitmap, etype);
        if strat == MutationStrategy::SeedImport && !etype.is_timeout() {
            let mut reasons = match res {
                Some(v) => v,
                None => Vec::new(),
            };
            reasons.push(StorageReason::Imported);
            res = Some(reasons);
        }
        res
    }

    /// Record `input_id` as the minimal example for a bitmap bit: a first
    /// setter always registers; a later one takes over only when it is
    /// strictly smaller (by node count) than the current holder.
    pub fn register_best_input_for_bitmap(
        &mut self,
        bitmap_index: usize,
        input_id: InputID,
        sp: &GraphSpec,
        new_len: usize,
    )
        requires
            old(self).wf(),
            sp.wf(),
            input_id.0 < old(self).inputs@.len(),
        ensures
            final(self).wf(),
            final(self).inputs == old(self).inputs,
            final(self).bitmaps == old(self).bitmaps,
            final(self).favqueue == old(self).favqueue,
            ({
                let m = old(self).bitmap_index_to_min_example@;
                if !m.dom().contains(bitmap_index) {
                    final(self).bitmap_index_to_min_example@ == m.insert(bitmap_index, input_id)
                } else {
                    (spec_node_count(sp, &old(self).inputs@[m[bitmap_index].0 as int].data)
                        > new_len ==> final(self).bitmap_index_to_min_example@ == m.insert(
                        bitmap_index,
                        input_id,
                    )) && (spec_node_count(
                        sp,
                        &old(self).inputs@[m[bitmap_index].0 as int].data,
                    ) <= new_len ==> final(self).bitmap_index_to_min_example@ == m)
                }
            }),
    {
        let already = self.bitmap_index_to_min_example.contains_key(&bitmap_index);
        if !already {
            self.bitmap_bits.push(bitmap_index);
            self.bitmap_index_to_min_example.insert(bitmap_index, input_id);
            return ;
        }
        let old_entry = match self.bitmap_index_to_min_example.get(&bitmap_index) {
            Some(id) => id.0,
            None => 0,
        };
        let holder_len = self.inputs[old_entry].data.node_len(sp);
        proof {
            let g = &self.inputs@[old_entry as int].data;
            if decompose(sp, g.ops@, g.data@) is None {
                assert(spec_node_count(sp, g) == 0);
            }
        }
        if holder_len > new_len {
            self.bitmap_index_to_min_example.insert(bitmap_index, input_id);
        }
    }

    /// Store one retained input.  Rejected inputs (empty, or an outcome
    /// the corpus does not keep) leave the queue untouched and yield no
    /// id; accepted ones get the next position as their id.
    pub fn add(&mut self, input: Input, sp: &GraphSpec) -> (r: Option<InputID>)
        requires
            old(self).wf(),
            sp.wf(),
            input.id.0 == usize::MAX,
            old(self).inputs@.len() < usize::MAX - 1,
        ensures
            final(self).wf(),
            final(self).bitmaps.size == old(self).bitmaps.size,
            r is Some <==> queue_accepts(sp, &input),
            r matches Some(id) ==> id.0 == old(self).inputs@.len() && final(self).inputs@.len()
                == old(self).inputs@.len() + 1 && ({
                let stored = final(self).inputs@[id.0 as int];
                stored.id == id && stored.data == input.data && stored.bitmap == input.bitmap
                    && stored.exit_reason == input.exit_reason && stored.storage_reasons
                    == input.storage_reasons && stored.found_by == input.found_by
                    && stored.ops_used == input.ops_used
            }) && (forall|j: int|
                0 <= j < old(self).inputs@.len() ==> final(self).inputs@[j] == old(self).inputs@[j]) && final(self).favqueue@ == fav_fold(
                final(self).inputs@,
                final(self).bitmaps.size as nat,
                final(self).inputs@.len(),
            ).1,
            r is None ==> final(self).inputs == old(self).inputs,
    {
        if input.data.node_len(sp) == 0 {
            proof {
                let g = &input.data;
                if decompose(sp, g.ops@, g.data@) is Some {
                    assert(spec_node_count(sp, g) == 0);
                }
            }
            return None;
        }
        let keep = match &input.exit_reason {
            ExitReason::Normal(_) => true,
            ExitReason::Crash(_) => true,
            ExitReason::Timeout => true,
            _ => false,
        };
        if !keep {
            return None;
        }
        let id = InputID::new(self.inputs.len());
        let new_len = input.data.node_len(sp);
        let mut stored = input;
        stored.id = id;
        let reasons = crate::bitmap::clone_reasons(&stored.storage_reasons);
        self.inputs.push(stored);
        self.input_to_iters_no_finds.push(0);
        self.input_selected_times.push(0);
        let ghost pushed = self.inputs@;
        let mut k: usize = 0;
        while k < reasons.len()
            invariant
                self.wf(),
                sp.wf(),
                id.0 < self.inputs@.len(),
                self.inputs@.len() == old(self).inputs@.len() + 1,
                self.inputs@ == pushed,
                self.bitmaps == old(self).bitmaps,
            decreases reasons@.len() - k,
        {
            match &reasons[k] {
                StorageReason::Bitmap(reason) => {
                    let idx = reason.index;
                    self.register_best_input_for_bitmap(idx, id, sp, new_len);
                },
                StorageReason::Imported => {},
            }
            k = k + 1;
        }
        self.calc_fav_bits();
        Some(id)
    }

    /// Recompute the favorite set from the full input list: walking the
    /// corpus newest-first, keep every input that certifies and still
    /// contributes new coverage, plus every seed import without such a
    /// certificate.  The result is a pure function of the input list, so
    /// redundant recomputation is idempotent.
    #[verifier::loop_isolation(false)]
    pub fn calc_fav_bits(&mut self)
        requires
            old(self).wf(),
        ensures
            final(self).wf(),
            final(self).inputs == old(self).inputs,
            final(self).bitmaps == old(self).bitmaps,
            final(self).bitmap_index_to_min_example == old(self).bitmap_index_to_min_example,
            final(self).favqueue@ == fav_fold(
                old(self).inputs@,
                old(self).bitmaps.size as nat,
                old(self).inputs@.len(),
            ).1,
    {
        let mut favids: Vec<InputID> = Vec::new();
        let size = self.bitmaps.size();
        let covered = crate::storage::VecGraph::new_with_size(0, size);
        let mut bits = covered.data;
        let n = self.inputs.len();
        let mut step: usize = 0;
        proof {
            assert(bits@ =~= fav_fold(self.inputs@, size as nat, 0).0);
        }
        while step < n
            invariant
                self.wf(),
                bits@.len() == size,
                n == self.inputs@.len(),
                step <= n,
                bits@ == fav_fold(self.inputs@, size as nat, step as nat).0,
                favids@ == fav_fold(self.inputs@, size as nat, step as nat).1,
                forall|j: int| 0 <= j < favids@.len() ==> (#[trigger] favids@[j]).0 < n,
            decreases n - step,
        {
            let i = n - 1 - step;
            let inp = &self.inputs[i];
            proof {
                assert(self.inputs@[i as int] == self.inputs@[self.inputs@.len() - (step + 1)]);
            }
            let mut has_reason = false;
            let mut rk: usize = 0;
            while rk < inp.storage_reasons.len()
                invariant
                    rk <= inp.storage_reasons@.len(),
                    has_reason <==> exists|k: int|
                        0 <= k < rk && (#[trigger] inp.storage_reasons@[k]).spec_has_new_byte(),
                decreases inp.storage_reasons@.len() - rk,
            {
                if inp.storage_reasons[rk].has_new_byte() {
                    has_reason = true;
                    proof {
                        assert(inp.storage_reasons@[rk as int].spec_has_new_byte());
                    }
                }
                rk = rk + 1;
            }
            proof {
                assert(has_reason == input_has_new_byte(inp));
            }
            if has_reason {
                let mut has_new_bits = false;
                let limit = if inp.bitmap.bits.len() < size {
                    inp.bitmap.bits.len()
                } else {
                    size
                };
                let mut b: usize = 0;
                while b < limit
                    invariant
                        limit <= bits@.len(),
                        limit <= inp.bitmap.bits@.len(),
                        limit == if inp.bitmap.bits@.len() < size {
                            inp.bitmap.bits@.len() as int
                        } else {
                            size as int
                        },
                        b <= limit,
                        has_new_bits <==> exists|x: int|
                            0 <= x < b && bits@[x] == 0 && (#[trigger] inp.bitmap.bits@[x]) > 0,
                    decreases limit - b,
                {
                    if bits[b] == 0 && inp.bitmap.bits[b] > 0 {
                        has_new_bits = true;
                        proof {
                            assert(bits@[b as int] == 0 && inp.bitmap.bits@[b as int] > 0);
                        }
                    }
                    b = b + 1;
                }
                proof {
                    assert(has_new_bits == contributes(bits@, inp, size as nat)) by {
                        if has_new_bits {
                            let x = choose|x: int|
                                0 <= x < limit && bits@[x] == 0 && (
                                #[trigger] inp.bitmap.bits@[x]) > 0;
                            assert(0 <= x < size && x < inp.bitmap.bits@.len());
                        }
                        if contributes(bits@, inp, size as nat) {
                            let x = choose|x: int|
                                0 <= x < size && x < inp.bitmap.bits@.len() && bits@[x] == 0 && (
                                #[trigger] inp.bitmap.bits@[x]) > 0;
                            assert(0 <= x < limit);
                        }
                    }
                }
                if has_new_bits {
                    let ghost pre_bits = bits@;
                    let mut b: usize = 0;
                    while b < limit
                        invariant
                            limit <= bits@.len(),
                            limit <= inp.bitmap.bits@.len(),
                            limit == if inp.bitmap.bits@.len() < size {
                                inp.bitmap.bits@.len() as int
                            } else {
                                size as int
                            },
                            b <= limit,
                            bits@.len() == pre_bits.len(),
                            bits@.len() == size,
                            forall|x: int|
                                0 <= x < b ==> bits@[x] == cover_with(
                                    pre_bits,
                                    inp,
                                    size as nat,
                                )[x],
                            forall|x: int| b <= x < bits@.len() ==> bits@[x] == pre_bits[x],
                        decreases limit - b,
                    {
                        if inp.bitmap.bits[b] != 0 {
                            bits.set(b, 1);
                        }
                        b = b + 1;
                    }
                    proof {
                        assert(bits@ =~= cover_with(pre_bits, inp, size as nat));
                    }
                    favids.push(inp.id);
                }
            } else {
                let is_import = match inp.found_by {
                    MutationStrategy::SeedImport => true,
                    _ => false,
                };
                if is_import {
                    favids.push(inp.id);
                }
            }
            step = step + 1;
        }
        self.favqueue = favids;
    }

    /// The input at a queue position.
    pub fn schedule(&self, id: usize) -> (r: &Input)
        requires
            id < self.inputs@.len(),
        ensures
            r == &self.inputs@[id as int],
    {
        &self.inputs[id]
    }

    /// The next fresh corpus-file sequence number.
    pub fn next_id(&mut self) -> (r: usize)
        requires
            old(self).next_input_id < usize::MAX,
        ensures
            final(self).next_input_id == old(self).next_input_id + 1,
            r == final(self).next_input_id,
            final(self).inputs == old(self).inputs,
    {
        self.next_input_id = self.next_input_id + 1;
        self.next_input_id
    }

    /// A bookkeeping snapshot for the stats writer.
    pub fn stats(&self) -> (r: QueueStats)
        ensures
            r.num_inputs == self.inputs@.len(),
            r.favqueue@.len() == self.favqueue@.len(),
            forall|j: int|
                0 <= j < r.favqueue@.len() ==> (#[trigger] r.favqueue@[j]) == self.favqueue@[j].0,
    {
        let mut fav: Vec<usize> = Vec::new();
        let mut j: usize = 0;
        while j < self.favqueue.len()
            invariant
                j <= self.favqueue@.len(),
                fav@.len() == j,
                forall|k: int| 0 <= k < j ==> (#[trigger] fav@[k]) == self.favqueue@[k].0,
            decreases self.favqueue@.len() - j,
        {
            fav.push(self.favqueue[j].as_usize());
            j = j + 1;
        }
        QueueStats { num_inputs: self.inputs.len(), favqueue: fav }
    }

    /// How many indices of the normal bitmap have been hit at all; the
    /// stats log records this per new input.
    pub fn normal_bitmap_hits(&self) -> (r: usize)
        ensures
            r <= self.bitmaps.normal.bits@.len(),
    {
        let mut count: usize = 0;
        let bitsv = &self.bitmaps.normal.bits;
        let mut i: usize = 0;
        while i < bitsv.len()
            invariant
                i <= bitsv@.len(),
                count <= i,
            decreases bitsv@.len() - i,
        {
            if bitsv[i] > 0 {
                count = count + 1;
            }
            i = i + 1;
        }
        count
    }
}

impl InputQueue for Queue {
    open spec fn can_sample(&self) -> bool {
        self.inputs@.len() > 0
    }

    fn sample_for_splicing(&self, dist: &mut crate::random::Distributions) -> (r: VecGraph) {
        let i = dist.gen_range(0, self.inputs.len());
        self.inputs[i].data.clone()
    }
}

} // verus!
