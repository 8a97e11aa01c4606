//! Deduplicating hash-to-index tables for the calibration sweep.
//!
//! Three tables collapse repeated identical outcomes to one small index
//! each: the raw coverage bitmap, the coverage-only (nonzero-to-one)
//! bitmap, and the value-feedback buffer.  Two runs with the same digest
//! always report the same index, and a fresh digest always gets the next
//! counter value — that is what lets the sweep say two offsets are
//! indistinguishable.

use vstd::prelude::*;

use std::collections::HashMap;

verus! {

broadcast use vstd::std_specs::hash::group_hash_axioms;

/// Process-local dedup state; reset between calibration passes, never
/// persisted.
pub struct LocalHashmap {
    pub run_bitmap_seen: HashMap<u64, usize>,
    pub ijon_map_seen: HashMap<u64, usize>,
    pub cov_bitmap_seen: HashMap<u64, usize>,
    pub run_bitmap_current_index: usize,
    pub cov_bitmap_current_index: usize,
    pub ijon_bitmap_current_index: usize,
}

impl LocalHashmap {
    pub fn new() -> (r: Self)
        ensures
            r.run_bitmap_seen@.dom() == Set::<u64>::empty(),
            r.ijon_map_seen@.dom() == Set::<u64>::empty(),
            r.cov_bitmap_seen@.dom() == Set::<u64>::empty(),
            r.run_bitmap_current_index == 0,
            r.cov_bitmap_current_index == 0,
            r.ijon_bitmap_current_index == 0,
    {
        LocalHashmap {
            run_bitmap_seen: HashMap::new(),
            ijon_map_seen: HashMap::new(),
            cov_bitmap_seen: HashMap::new(),
            run_bitmap_current_index: 0,
            cov_bitmap_current_index: 0,
            ijon_bitmap_current_index: 0,
        }
    }

    /// The dedup index of this run bitmap: the index already recorded for
    /// its digest, or the next fresh one.
    pub fn handle_run_bitmap(&mut self, run_bitmap: &[u8]) -> (r: usize)
        requires
            old(self).run_bitmap_current_index < usize::MAX,
        ensures
            ({
                let h = crate::hashutil::xxh3_of(run_bitmap@);
                if old(self).run_bitmap_seen@.dom().contains(h) {
                    r == old(self).run_bitmap_seen@[h] && *final(self) == *old(self)
                } else {
                    r == old(self).run_bitmap_current_index && final(self).run_bitmap_seen@ == old(self).run_bitmap_seen@.insert(h, r) && final(self).run_bitmap_current_index == r + 1
                        && final(self).cov_bitmap_seen == old(self).cov_bitmap_seen && final(self).ijon_map_seen == old(self).ijon_map_seen
                }
            }),
    {
        let h = crate::hashutil::hash64(run_bitmap, run_bitmap.len());
        proof {
            assert(run_bitmap@.take(run_bitmap@.len() as int) =~= run_bitmap@);
        }
        match self.run_bitmap_seen.get(&h) {
            Some(idx) => *idx,
            None => {
                let new_index = self.run_bitmap_current_index;
                self.run_bitmap_current_index = self.run_bitmap_current_index + 1;
                self.run_bitmap_seen.insert(h, new_index);
                new_index
            },
        }
    }

    /// The dedup index of this value-feedback buffer.
    pub fn handle_ijon_map(&mut self, ijon_map: &[u8]) -> (r: usize)
        requires
            old(self).ijon_bitmap_current_index < usize::MAX,
        ensures
            ({
                let h = crate::hashutil::xxh3_of(ijon_map@);
                if old(self).ijon_map_seen@.dom().contains(h) {
                    r == old(self).ijon_map_seen@[h] && *final(self) == *old(self)
                } else {
                    r == old(self).ijon_bitmap_current_index && final(self).ijon_map_seen@ == old(self).ijon_map_seen@.insert(h, r) && final(self).ijon_bitmap_current_index == r + 1
                        && final(self).run_bitmap_seen == old(self).run_bitmap_seen && final(self).cov_bitmap_seen == old(self).cov_bitmap_seen
                }
            }),
    {
        let h = crate::hashutil::hash64(ijon_map, ijon_map.len());
        proof {
            assert(ijon_map@.take(ijon_map@.len() as int) =~= ijon_map@);
        }
        match self.ijon_map_seen.get(&h) {
            Some(idx) => *idx,
            None => {
                let new_index = self.ijon_bitmap_current_index;
                self.ijon_bitmap_current_index = self.ijon_bitmap_current_index + 1;
                self.ijon_map_seen.insert(h, new_index);
                new_index
            },
        }
    }

    /// The nonzero-to-one image of a bitmap: coverage shape without hit
    /// counts.
    pub open spec fn cov_image(run: Seq<u8>) -> Seq<u8> {
        run.map_values(
            |b: u8|
                if b > 0 {
                    1u8
                } else {
                    0u8
                },
        )
    }

    /// The dedup index of this run's coverage-only image.
    pub fn handle_cov_bitmap(&mut self, run_bitmap: &[u8]) -> (r: usize)
        requires
            old(self).cov_bitmap_current_index < usize::MAX,
        ensures
            ({
                let h = crate::hashutil::xxh3_of(Self::cov_image(run_bitmap@));
                if old(self).cov_bitmap_seen@.dom().contains(h) {
                    r == old(self).cov_bitmap_seen@[h] && *final(self) == *old(self)
                } else {
                    r == old(self).cov_bitmap_current_index && final(self).cov_bitmap_seen@ == old(self).cov_bitmap_seen@.insert(h, r) && final(self).cov_bitmap_current_index == r + 1
                        && final(self).run_bitmap_seen == old(self).run_bitmap_seen && final(self).ijon_map_seen == old(self).ijon_map_seen
                }
            }),
    {
        let mut cov: Vec<u8> = Vec::new();
        let mut i: usize = 0;
        while i < run_bitmap.len()
            invariant
                i <= run_bitmap@.len(),
                cov@ =~= Self::cov_image(run_bitmap@).take(i as int),
            decreases run_bitmap@.len() - i,
        {
            cov.push(
                if run_bitmap[i] > 0 {
                    1
                } else {
                    0
                },
            );
            proof {
                assert(cov@ =~= Self::cov_image(run_bitmap@).take(i + 1));
            }
            i = i + 1;
        }
        proof {
            assert(cov@ =~= Self::cov_image(run_bitmap@));
        }
        let h = crate::hashutil::hash64(cov.as_slice(), cov.len());
        proof {
            assert(cov@.take(cov@.len() as int) =~= cov@);
        }
        match self.cov_bitmap_seen.get(&h) {
            Some(idx) => *idx,
            None => {
                let new_index = self.cov_bitmap_current_index;
                self.cov_bitmap_current_index = self.cov_bitmap_current_index + 1;
                self.cov_bitmap_seen.insert(h, new_index);
                new_index
            },
        }
    }

    /// Forget everything, for the next calibration pass.
    pub fn clear(&mut self)
        ensures
            final(self).run_bitmap_seen@.dom() == Set::<u64>::empty(),
            final(self).ijon_map_seen@.dom() == Set::<u64>::empty(),
            final(self).cov_bitmap_seen@.dom() == Set::<u64>::empty(),
            final(self).run_bitmap_current_index == 0,
            final(self).cov_bitmap_current_index == 0,
            final(self).ijon_bitmap_current_index == 0,
    {
        self.run_bitmap_seen.clear();
        self.cov_bitmap_seen.clear();
        self.ijon_map_seen.clear();
        self.run_bitmap_current_index = 0;
        self.cov_bitmap_current_index = 0;
        self.ijon_bitmap_current_index = 0;
    }
}

} // verus!
