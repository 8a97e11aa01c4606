//! Coverage bitmaps and the record of why an input was kept.
//!
//! A "new byte" is an edge counter going from zero to nonzero: the global
//! bitmap remembers the first nonzero value seen per index, and each hit
//! produces a storage reason naming the index and both values.

use vstd::prelude::*;

use crate::exitreason::ExitReason;

verus! {

/// Why an input was retained.
#[derive(Clone, Debug)]
pub enum StorageReason {
    /// A bitmap index went from zero to the recorded new value.
    Bitmap(BitmapStorageReason),
    /// The input was imported as a seed, not found by mutation.
    Imported,
}

impl StorageReason {
    /// Whether this reason certifies brand-new coverage.
    pub fn has_new_byte(&self) -> (r: bool)
        ensures
            r == self.spec_has_new_byte(),
    {
        match self {
            StorageReason::Bitmap(reason) => reason.old == 0,
            StorageReason::Imported => false,
        }
    }

    pub open spec fn spec_has_new_byte(&self) -> bool {
        match self {
            StorageReason::Bitmap(reason) => reason.old == 0,
            StorageReason::Imported => false,
        }
    }
}

/// One zero-to-nonzero bitmap transition.
#[derive(Clone, Debug)]
pub struct BitmapStorageReason {
    pub index: usize,
    pub old: u8,
    pub new: u8,
}

/// A running coverage bitmap: remembers, per index, the first nonzero
/// counter value observed.
#[derive(Clone, Debug)]
pub struct Bitmap {
    pub bits: Vec<u8>,
}

/// The bitmap index a reason names (zero for an import reason).
pub open spec fn reason_index(r: StorageReason) -> int {
    match r {
        StorageReason::Bitmap(br) => br.index as int,
        StorageReason::Imported => 0,
    }
}

/// Index `i` of the run would be brand-new coverage over `bits`.
pub open spec fn is_new_byte(bits: Seq<u8>, run: Seq<u8>, i: int) -> bool {
    0 <= i < bits.len() && bits[i] == 0 && run[i] > 0
}

/// `post` is `pre` with the run folded in: every brand-new index takes the
/// run's value, every other index keeps its own.
pub open spec fn bitmap_folded(pre: Seq<u8>, run: Seq<u8>, post: Seq<u8>) -> bool {
    &&& post.len() == pre.len()
    &&& forall|i: int|
        0 <= i < pre.len() ==> post[i] == if is_new_byte(pre, run, i) {
            run[i]
        } else {
            pre[i]
        }
}

/// Which of the handler's four bitmaps this outcome folds into, and that
/// the other three stay untouched; outcomes without a bitmap change
/// nothing.
pub open spec fn handler_folded(
    pre: BitmapHandler,
    post: BitmapHandler,
    run: Seq<u8>,
    etype: &ExitReason,
) -> bool {
    match etype {
        ExitReason::Normal(_) => bitmap_folded(pre.normal.bits@, run, post.normal.bits@)
            && post.crash == pre.crash && post.timeout == pre.timeout
            && post.invalid_write_to_payload == pre.invalid_write_to_payload,
        ExitReason::Crash(_) => bitmap_folded(pre.crash.bits@, run, post.crash.bits@) && post.normal
            == pre.normal && post.timeout == pre.timeout && post.invalid_write_to_payload
            == pre.invalid_write_to_payload,
        ExitReason::Timeout => bitmap_folded(pre.timeout.bits@, run, post.timeout.bits@)
            && post.normal == pre.normal && post.crash == pre.crash
            && post.invalid_write_to_payload == pre.invalid_write_to_payload,
        ExitReason::InvalidWriteToPayload(_) => bitmap_folded(
            pre.invalid_write_to_payload.bits@,
            run,
            post.invalid_write_to_payload.bits@,
        ) && post.normal == pre.normal && post.crash == pre.crash && post.timeout == pre.timeout,
        _ => post == pre,
    }
}

/// Whether the run shows brand-new coverage against the bitmap its outcome
/// folds into; outcomes without a bitmap never do.
pub open spec fn handler_saw_new(pre: BitmapHandler, run: Seq<u8>, etype: &ExitReason) -> bool {
    match etype {
        ExitReason::Normal(_) => exists|i: int| is_new_byte(pre.normal.bits@, run, i),
        ExitReason::Crash(_) => exists|i: int| is_new_byte(pre.crash.bits@, run, i),
        ExitReason::Timeout => exists|i: int| is_new_byte(pre.timeout.bits@, run, i),
        ExitReason::InvalidWriteToPayload(_) => exists|i: int|
            is_new_byte(pre.invalid_write_to_payload.bits@, run, i),
        _ => false,
    }
}

impl Bitmap {
    /// An all-zero bitmap of the given size.
    pub fn new(size: usize) -> (r: Self)
        ensures
            r.bits@.len() == size,
            forall|i: int| 0 <= i < size ==> (#[trigger] r.bits@[i]) == 0,
    {
        let backing = crate::storage::VecGraph::new_with_size(0, size);
        Bitmap { bits: backing.data }
    }

    /// A bitmap seeded from an observed buffer.
    pub fn new_from_buffer(buff: &[u8]) -> (r: Self)
        ensures
            r.bits@ == buff@,
    {
        let mut bits: Vec<u8> = Vec::new();
        let mut i: usize = 0;
        while i < buff.len()
            invariant
                i <= buff@.len(),
                bits@ =~= buff@.take(i as int),
            decreases buff@.len() - i,
        {
            bits.push(buff[i]);
            i = i + 1;
        }
        proof {
            assert(buff@.take(buff@.len() as int) =~= buff@);
        }
        Bitmap { bits }
    }

    pub fn bits(&self) -> (r: &Vec<u8>)
        ensures
            r == &self.bits,
    {
        &self.bits
    }

    /// Fold one run into the bitmap: every index whose stored value was
    /// zero and whose run value is nonzero is recorded (with both values)
    /// and remembered.  Returns `None` exactly when the run shows nothing
    /// new.
    #[verifier::loop_isolation(false)]
    pub fn check_new_bytes(&mut self, run_bitmap: &[u8]) -> (r: Option<Vec<StorageReason>>)
        requires
            run_bitmap@.len() == old(self).bits@.len(),
        ensures
            final(self).bits@.len() == old(self).bits@.len(),
            forall|i: int|
                0 <= i < old(self).bits@.len() ==> final(self).bits@[i] == if is_new_byte(
                    old(self).bits@,
                    run_bitmap@,
                    i,
                ) {
                    run_bitmap@[i]
                } else {
                    old(self).bits@[i]
                },
            r is None <==> (forall|i: int| !is_new_byte(old(self).bits@, run_bitmap@, i)),
            r matches Some(v) ==> v@.len() >= 1 && (forall|j: int|
                0 <= j < v@.len() ==> ((#[trigger] v@[j]) matches StorageReason::Bitmap(br)
                    && is_new_byte(old(self).bits@, run_bitmap@, br.index as int) && br.old == 0
                    && br.new == run_bitmap@[br.index as int])) && (forall|i: int|
                is_new_byte(old(self).bits@, run_bitmap@, i) ==> exists|j: int|
                    0 <= j < v@.len() && ((#[trigger] v@[j]) matches StorageReason::Bitmap(br)
                        && br.index == i)) && (forall|j: int, k: int|
                0 <= j < k < v@.len() ==> reason_index(#[trigger] v@[j]) < reason_index(
                    #[trigger] v@[k],
                )),
    {
        let mut reasons: Vec<StorageReason> = Vec::new();
        let n = self.bits.len();
        let mut i: usize = 0;
        while i < n
            invariant
                self.bits@.len() == n,
                i <= n,
                forall|k: int|
                    0 <= k < i ==> self.bits@[k] == if is_new_byte(
                        old(self).bits@,
                        run_bitmap@,
                        k,
                    ) {
                        run_bitmap@[k]
                    } else {
                        old(self).bits@[k]
                    },
                forall|k: int| i <= k < n ==> self.bits@[k] == old(self).bits@[k],
                forall|j: int|
                    0 <= j < reasons@.len() ==> ((#[trigger] reasons@[j])
                        matches StorageReason::Bitmap(br) && is_new_byte(
                        old(self).bits@,
                        run_bitmap@,
                        br.index as int,
                    ) && br.old == 0 && br.new == run_bitmap@[br.index as int]),
                forall|k: int|
                    0 <= k < i && is_new_byte(old(self).bits@, run_bitmap@, k) ==> exists|j: int|
                        0 <= j < reasons@.len() && ((#[trigger] reasons@[j])
                            matches StorageReason::Bitmap(br) && br.index == k),
                forall|j: int| 0 <= j < reasons@.len() ==> reason_index(#[trigger] reasons@[j]) < i,
                forall|j: int, k: int|
                    0 <= j < k < reasons@.len() ==> reason_index(#[trigger] reasons@[j])
                        < reason_index(#[trigger] reasons@[k]),
                reasons@.len() == 0 ==> (forall|k: int|
                    0 <= k < i ==> !is_new_byte(old(self).bits@, run_bitmap@, k)),
                reasons@.len() > 0 ==> (exists|k: int|
                    0 <= k < i && #[trigger] is_new_byte(old(self).bits@, run_bitmap@, k)),
            decreases n - i,
        {
            let old_b = self.bits[i];
            let new_b = run_bitmap[i];
            if new_b > old_b && old_b == 0 {
                let ghost pre = reasons@;
                reasons.push(
                    StorageReason::Bitmap(BitmapStorageReason { index: i, old: old_b, new: new_b }),
                );
                self.bits.set(i, new_b);
                proof {
                    assert(is_new_byte(old(self).bits@, run_bitmap@, i as int));
                    assert((reasons@[pre.len() as int] matches StorageReason::Bitmap(br)
                        && br.index == i as int));
                    assert forall|k: int|
                        0 <= k < i + 1 && is_new_byte(old(self).bits@, run_bitmap@, k) implies exists|
                        j: int,
                    |
                        0 <= j < reasons@.len() && ((#[trigger] reasons@[j])
                            matches StorageReason::Bitmap(br) && br.index == k) by {
                        if k < i {
                            let j = choose|j: int|
                                0 <= j < pre.len() && ((#[trigger] pre[j])
                                    matches StorageReason::Bitmap(br) && br.index == k);
                            assert(reasons@[j] == pre[j]);
                        } else {
                            assert((reasons@[pre.len() as int]
                                matches StorageReason::Bitmap(br) && br.index == k));
                        }
                    }
                }
            } else {
                proof {
                    assert(self.bits@[i as int] == old(self).bits@[i as int]);
                    assert(!is_new_byte(old(self).bits@, run_bitmap@, i as int));
                }
            }
            i = i + 1;
        }
        if reasons.len() > 0 {
            Some(reasons)
        } else {
            None
        }
    }
}

/// The four per-outcome bitmaps: one each for normal runs, crashes,
/// timeouts, and invalid payload writes.
#[derive(Debug)]
pub struct BitmapHandler {
    pub normal: Bitmap,
    pub crash: Bitmap,
    pub timeout: Bitmap,
    pub invalid_write_to_payload: Bitmap,
    pub size: usize,
}

impl BitmapHandler {
    pub open spec fn wf(&self) -> bool {
        &&& self.normal.bits@.len() == self.size
        &&& self.crash.bits@.len() == self.size
        &&& self.timeout.bits@.len() == self.size
        &&& self.invalid_write_to_payload.bits@.len() == self.size
    }

    pub fn new(size: usize) -> (r: Self)
        ensures
            r.wf(),
            r.size == size,
    {
        BitmapHandler {
            normal: Bitmap::new(size),
            crash: Bitmap::new(size),
            timeout: Bitmap::new(size),
            invalid_write_to_payload: Bitmap::new(size),
            size,
        }
    }

    /// Fold a run into exactly the bitmap matching its outcome, leaving
    /// the other three untouched; `None` exactly when it shows nothing
    /// new.  Outcomes without a bitmap never register anything.
    pub fn check_new_bytes(&mut self, run_bitmap: &[u8], etype: &ExitReason) -> (r: Option<
        Vec<StorageReason>,
    >)
        requires
            old(self).wf(),
            run_bitmap@.len() == old(self).size,
        ensures
            final(self).wf(),
            final(self).size == old(self).size,
            handler_folded(*old(self), *final(self), run_bitmap@, etype),
            r is None <==> !handler_saw_new(*old(self), run_bitmap@, etype),
            r matches Some(v) ==> v@.len() >= 1,
            (etype is Asan || etype is FuzzerError) ==> r is None && *final(self) == *old(self),
    {
        match etype {
            ExitReason::Normal(_) => self.normal.check_new_bytes(run_bitmap),
            ExitReason::Crash(_) => self.crash.check_new_bytes(run_bitmap),
            ExitReason::Timeout => self.timeout.check_new_bytes(run_bitmap),
            ExitReason::InvalidWriteToPayload(_) => self.invalid_write_to_payload.check_new_bytes(
                run_bitmap,
            ),
            _ => None,
        }
    }

    pub fn size(&self) -> (r: usize)
        ensures
            r == self.size,
    {
        self.size
    }

    pub fn normal_bitmap(&self) -> (r: &Bitmap)
        ensures
            r == &self.normal,
    {
        &self.normal
    }
}

/// Element-for-element copy of a storage-reason list.
pub fn clone_reasons(v: &Vec<StorageReason>) -> (r: Vec<StorageReason>)
    ensures
        r@ == v@,
{
    let mut r: Vec<StorageReason> = Vec::new();
    let mut i: usize = 0;
    while i < v.len()
        invariant
            i <= v@.len(),
            r@ =~= v@.take(i as int),
        decreases v@.len() - i,
    {
        let copy = match &v[i] {
            StorageReason::Bitmap(br) => StorageReason::Bitmap(
                BitmapStorageReason { index: br.index, old: br.old, new: br.new },
            ),
            StorageReason::Imported => StorageReason::Imported,
        };
        r.push(copy);
        proof {
            assert(r@ =~= v@.take(i + 1));
        }
        i = i + 1;
    }
    proof {
        assert(v@.take(v@.len() as int) =~= v@);
    }
    r
}

} // verus!
