//! Incremental graph construction with operand renaming.
//!
//! While a graph is built or replayed node by node, a renaming table tracks,
//! per value type, which operand ids are currently available and how the
//! source graph's ids map to the freshly minted ones.  A `Get` consumes an
//! available id, a `Pass` reads one without consuming, and every `Set` or
//! generated output mints a fresh id.  This table — not the op stream — is
//! what a snapshot must save and restore to resume construction mid-graph.

use vstd::prelude::*;

use crate::mutator::MutatorSnapshotState;
use crate::newtypes::{GraphError, NodeTypeID};
use crate::nodes::GraphNode;
use crate::random::Distributions;
use crate::spec::{assoc_count, GraphSpec, NodeSpec};
use crate::storage::{GraphStorage, VecGraph};

verus! {

/// No two elements equal.
pub open spec fn distinct_u16(s: Seq<u16>) -> bool {
    forall|i: int, j: int| 0 <= i < j < s.len() ==> s[i] != s[j]
}

/// The renamed id the table assigns to `old_id`, if any (keys distinct).
pub open spec fn rename_of(table: Seq<(u16, u16)>, old_id: u16) -> Option<u16>
    decreases table.len(),
{
    if table.len() == 0 {
        None
    } else if table.last().0 == old_id {
        Some(table.last().1)
    } else {
        rename_of(table.drop_last(), old_id)
    }
}

/// The renaming and availability state of one value type.
pub struct ValueState {
    /// The last id minted; fresh ids count up from one, so zero is never a
    /// live operand id.
    pub cur_id: u16,
    /// Ids currently available for consumption, in sampling order.
    pub available: Vec<u16>,
    /// Maps a source graph's operand ids to their renamed ids; only ids
    /// still available are kept here.
    pub old_to_new: Vec<(u16, u16)>,
}

/// Element-for-element copy of a pair table.
fn clone_pairs(v: &Vec<(u16, u16)>) -> (r: Vec<(u16, u16)>)
    ensures
        r@ == v@,
{
    let mut r: Vec<(u16, u16)> = Vec::new();
    let mut i: usize = 0;
    while i < v.len()
        invariant
            i <= v@.len(),
            r@ =~= v@.take(i as int),
        decreases v@.len() - i,
    {
        r.push(v[i]);
        i = i + 1;
    }
    proof {
        assert(v@.take(v@.len() as int) =~= v@);
    }
    r
}

impl Clone for ValueState {
    fn clone(&self) -> (r: Self)
        ensures
            r.cur_id == self.cur_id,
            r.available@ == self.available@,
            r.old_to_new@ == self.old_to_new@,
    {
        ValueState {
            cur_id: self.cur_id,
            available: self.available.clone(),
            old_to_new: clone_pairs(&self.old_to_new),
        }
    }
}

impl ValueState {
    /// Available ids are distinct, live (between one and the mint
    /// counter), and the renaming table holds distinct keys mapped to
    /// distinct, still-available ids.
    pub open spec fn wf(&self) -> bool {
        &&& distinct_u16(self.available@)
        &&& forall|i: int|
            0 <= i < self.available@.len() ==> 1 <= (#[trigger] self.available@[i]) <= self.cur_id
        &&& forall|i: int, j: int|
            0 <= i < j < self.old_to_new@.len() ==> (#[trigger] self.old_to_new@[i]).0 != (
            #[trigger] self.old_to_new@[j]).0
        &&& forall|i: int, j: int|
            0 <= i < j < self.old_to_new@.len() ==> (#[trigger] self.old_to_new@[i]).1 != (
            #[trigger] self.old_to_new@[j]).1
        &&& forall|i: int|
            0 <= i < self.old_to_new@.len() ==> self.available@.contains(
                (#[trigger] self.old_to_new@[i]).1,
            )
    }

    pub fn new() -> (r: Self)
        ensures
            r.wf(),
            r.cur_id == 0,
            r.available@.len() == 0,
            r.old_to_new@.len() == 0,
    {
        ValueState { cur_id: 0, available: Vec::new(), old_to_new: Vec::new() }
    }

    /// How many ids are available for sampling or consumption.
    pub fn num_available(&self) -> (r: usize)
        ensures
            r == self.available@.len(),
    {
        self.available.len()
    }

    /// Forget everything; the mint counter restarts too.
    pub fn clear(&mut self)
        ensures
            final(self).wf(),
            final(self).cur_id == 0,
            final(self).available@.len() == 0,
            final(self).old_to_new@.len() == 0,
    {
        self.cur_id = 0;
        self.available.clear();
        self.old_to_new.clear();
    }

    /// Become a copy of `other` (restoring a snapshot).
    pub fn reset_to(&mut self, other: &ValueState)
        ensures
            final(self).cur_id == other.cur_id,
            final(self).available@ == other.available@,
            final(self).old_to_new@ == other.old_to_new@,
    {
        self.cur_id = other.cur_id;
        self.available = other.available.clone();
        self.old_to_new = clone_pairs(&other.old_to_new);
    }

    /// Mint a fresh id and make it available.  The id is new: it exceeds
    /// every id minted before, so it cannot collide with anything consumed
    /// or still available.
    pub fn insert_new_id(&mut self) -> (r: u16)
        requires
            old(self).wf(),
            old(self).cur_id < 0xffff,
        ensures
            final(self).wf(),
            r == old(self).cur_id + 1,
            final(self).cur_id == r,
            final(self).available@ == old(self).available@.push(r),
            !old(self).available@.contains(r),
            final(self).old_to_new@ == old(self).old_to_new@,
    {
        proof {
            if self.available@.contains((self.cur_id + 1) as u16) {
                let k = choose|k: int|
                    0 <= k < self.available@.len() && #[trigger] self.available@[k] == (self.cur_id
                        + 1) as u16;
                assert(self.available@[k] <= self.cur_id);
            }
        }
        self.cur_id = self.cur_id + 1;
        let new_id = self.cur_id;
        self.available.push(new_id);
        proof {
            assert forall|i: int|
                0 <= i < self.old_to_new@.len() implies self.available@.contains(
                (#[trigger] self.old_to_new@[i]).1,
            ) by {
                assert(old(self).available@.contains(old(self).old_to_new@[i].1));
                let k = choose|k: int|
                    0 <= k < old(self).available@.len() && #[trigger] old(self).available@[k] == old(self).old_to_new@[i].1;
                assert(self.available@[k] == old(self).old_to_new@[i].1);
            }
        }
        new_id
    }

    /// Mint a fresh id for a source graph's id and record the renaming.
    pub fn insert_old_id(&mut self, old_id: u16) -> (r: u16)
        requires
            old(self).wf(),
            old(self).cur_id < 0xffff,
        ensures
            final(self).wf(),
            r == old(self).cur_id + 1,
            final(self).cur_id == r,
            final(self).available@ == old(self).available@.push(r),
            rename_of(final(self).old_to_new@, old_id) == Some(r),
            forall|o: u16|
                o != old_id ==> rename_of(final(self).old_to_new@, o) == rename_of(
                    old(self).old_to_new@,
                    o,
                ),
    {
        proof {
            assert forall|i: int|
                0 <= i < self.old_to_new@.len() implies (#[trigger] self.old_to_new@[i]).1
                <= self.cur_id by {
                assert(self.available@.contains(self.old_to_new@[i].1));
                let k = choose|k: int|
                    0 <= k < self.available@.len() && #[trigger] self.available@[k]
                        == self.old_to_new@[i].1;
            }
        }
        let ghost small = self.old_to_new@;
        let new_id = self.insert_new_id();
        let mut k: usize = 0;
        let n = self.old_to_new.len();
        while k < n && self.old_to_new[k].0 != old_id
            invariant
                k <= n,
                n == self.old_to_new@.len(),
                forall|j: int| 0 <= j < k ==> (#[trigger] self.old_to_new@[j]).0 != old_id,
            decreases n - k,
        {
            k = k + 1;
        }
        let ghost pre = self.old_to_new@;
        if k < n {
            self.old_to_new.set(k, (old_id, new_id));
            proof {
                lemma_rename_update(pre, k as int, new_id);
                assert forall|i: int, j: int|
                    0 <= i < j < self.old_to_new@.len() implies (#[trigger] self.old_to_new@[i]).1
                    != (#[trigger] self.old_to_new@[j]).1 by {
                    if i != k && j != k {
                        assert(self.old_to_new@[i] == pre[i]);
                        assert(self.old_to_new@[j] == pre[j]);
                    } else if i == k {
                        assert(pre[j].1 <= old(self).cur_id);
                    } else {
                        assert(pre[i].1 <= old(self).cur_id);
                    }
                }
                assert forall|i: int|
                    0 <= i < self.old_to_new@.len() implies self.available@.contains(
                    (#[trigger] self.old_to_new@[i]).1,
                ) by {
                    if i == k {
                        assert(self.available@[self.available@.len() - 1] == new_id);
                    } else {
                        assert(self.old_to_new@[i] == pre[i]);
                        assert(old(self).available@.contains(pre[i].1));
                        let w = choose|w: int|
                            0 <= w < old(self).available@.len() && #[trigger] old(self).available@[w] == pre[i].1;
                        assert(self.available@[w] == pre[i].1);
                    }
                }
            }
        } else {
            self.old_to_new.push((old_id, new_id));
            proof {
                assert(self.old_to_new@.drop_last() =~= pre);
                assert forall|o: u16| o != old_id implies rename_of(self.old_to_new@, o)
                    == rename_of(pre, o) by {
                    assert(rename_of(self.old_to_new@, o) == rename_of(
                        self.old_to_new@.drop_last(),
                        o,
                    ));
                }
                assert forall|i: int, j: int|
                    0 <= i < j < self.old_to_new@.len() implies (#[trigger] self.old_to_new@[i]).1
                    != (#[trigger] self.old_to_new@[j]).1 by {
                    if j == self.old_to_new@.len() - 1 {
                        assert(self.old_to_new@[i] == pre[i]);
                        assert(pre[i].1 <= old(self).cur_id);
                    } else {
                        assert(self.old_to_new@[i] == pre[i]);
                        assert(self.old_to_new@[j] == pre[j]);
                    }
                }
                assert forall|i: int|
                    0 <= i < self.old_to_new@.len() implies self.available@.contains(
                    (#[trigger] self.old_to_new@[i]).1,
                ) by {
                    if i == self.old_to_new@.len() - 1 {
                        assert(self.available@[self.available@.len() - 1] == new_id);
                    } else {
                        assert(self.old_to_new@[i] == pre[i]);
                        assert(old(self).available@.contains(pre[i].1));
                        let w = choose|w: int|
                            0 <= w < old(self).available@.len() && #[trigger] old(self).available@[w] == pre[i].1;
                        assert(self.available@[w] == pre[i].1);
                    }
                }
            }
        }
        new_id
    }

    /// Consume an available id: it leaves the available set (and the
    /// renaming table), and nothing else changes.  This is the only way an
    /// id is consumed, and it demands the id be available — a `Get` can
    /// never consume an id that is not currently marked available.
    pub fn take_new_input(&mut self, new_id: u16) -> (r: u16)
        requires
            old(self).wf(),
            old(self).available@.contains(new_id),
        ensures
            final(self).wf(),
            r == new_id,
            final(self).cur_id == old(self).cur_id,
            final(self).available@.len() == old(self).available@.len() - 1,
            !final(self).available@.contains(new_id),
            forall|x: u16|
                x != new_id ==> final(self).available@.contains(x) == old(self).available@.contains(x),
            forall|o: u16|
                rename_of(final(self).old_to_new@, o) == if rename_of(old(self).old_to_new@, o)
                    == Some(new_id) {
                    None
                } else {
                    rename_of(old(self).old_to_new@, o)
                },
    {
        let mut k: usize = 0;
        let n = self.available.len();
        while k < n && self.available[k] != new_id
            invariant
                k <= n,
                n == self.available@.len(),
                forall|j: int| 0 <= j < k ==> (#[trigger] self.available@[j]) != new_id,
            decreases n - k,
        {
            k = k + 1;
        }
        proof {
            if k == n {
                let w = choose|w: int|
                    0 <= w < self.available@.len() && #[trigger] self.available@[w] == new_id;
                assert(false);
            }
        }
        let ghost pre_avail = self.available@;
        let last = self.available[n - 1];
        self.available.set(k, last);
        self.available.pop();
        proof {
            assert(self.available@ =~= pre_avail.update(k as int, pre_avail[n - 1]).drop_last());
            lemma_swap_remove_distinct(pre_avail, k as int, new_id);
        }
        let mut m: usize = 0;
        let tn = self.old_to_new.len();
        while m < tn && self.old_to_new[m].1 != new_id
            invariant
                m <= tn,
                tn == self.old_to_new@.len(),
                forall|j: int| 0 <= j < m ==> (#[trigger] self.old_to_new@[j]).1 != new_id,
            decreases tn - m,
        {
            m = m + 1;
        }
        let ghost pre_table = self.old_to_new@;
        if m < tn {
            let tlast = self.old_to_new[tn - 1];
            self.old_to_new.set(m, tlast);
            self.old_to_new.pop();
            proof {
                assert(self.old_to_new@ =~= pre_table.update(m as int, pre_table[tn - 1]).drop_last(
                ));
                assert forall|j: int|
                    0 <= j < pre_table.len() && j != m implies (#[trigger] pre_table[j]).1 != new_id
                    by {
                    if j > m {
                        assert(pre_table[m as int].1 != pre_table[j].1);
                    }
                }
                lemma_table_swap_remove(pre_table, m as int, new_id);
            }
        } else {
            proof {
                lemma_rename_value_absent(pre_table, new_id);
            }
        }
        proof {
            assert forall|i: int|
                0 <= i < self.old_to_new@.len() implies self.available@.contains(
                (#[trigger] self.old_to_new@[i]).1,
            ) by {
                if m < tn {
                    assert(pre_table.contains(self.old_to_new@[i]));
                    let w = choose|w: int|
                        0 <= w < pre_table.len() && #[trigger] pre_table[w] == self.old_to_new@[i];
                    assert(pre_avail.contains(pre_table[w].1));
                    assert(self.old_to_new@[i].1 != new_id);
                } else {
                    assert(self.old_to_new@[i] == pre_table[i]);
                    assert(pre_avail.contains(pre_table[i].1));
                    assert(self.old_to_new@[i].1 != new_id);
                }
            }
        }
        new_id
    }

    /// The renamed id the table holds for a source id, if it is still
    /// available.
    pub fn get_renamed_old_input(&self, old_id: u16) -> (r: Option<u16>)
        requires
            self.wf(),
        ensures
            r == rename_of(self.old_to_new@, old_id),
            r matches Some(n) ==> self.available@.contains(n),
    {
        let mut k: usize = 0;
        while k < self.old_to_new.len()
            invariant
                self.wf(),
                k <= self.old_to_new@.len(),
                forall|j: int| 0 <= j < k ==> (#[trigger] self.old_to_new@[j]).0 != old_id,
            decreases self.old_to_new@.len() - k,
        {
            if self.old_to_new[k].0 == old_id {
                proof {
                    lemma_rename_present(self.old_to_new@, k as int);
                }
                return Some(self.old_to_new[k].1);
            }
            k = k + 1;
        }
        proof {
            lemma_rename_key_absent(self.old_to_new@, old_id);
        }
        None
    }

    /// A uniformly sampled available id, read without consuming.
    pub fn get_random_input(&self, dist: &mut Distributions) -> (r: u16)
        requires
            self.wf(),
            self.available@.len() > 0,
        ensures
            self.available@.contains(r),
            final(dist).wf() == old(dist).wf(),
            final(dist).dict == old(dist).dict,
    {
        let i = dist.gen_range(0, self.available.len());
        self.available[i]
    }

    /// Consume a uniformly sampled available id.
    pub fn take_random_input(&mut self, dist: &mut Distributions) -> (r: u16)
        requires
            old(self).wf(),
            old(self).available@.len() > 0,
        ensures
            final(self).wf(),
            old(self).available@.contains(r),
            final(self).cur_id == old(self).cur_id,
            final(self).available@.len() == old(self).available@.len() - 1,
            !final(self).available@.contains(r),
            final(dist).wf() == old(dist).wf(),
            final(dist).dict == old(dist).dict,
    {
        let id = self.get_random_input(dist);
        self.take_new_input(id)
    }

    /// Consume the renamed counterpart of a source id, falling back to a
    /// random available id when the exact one is gone.
    pub fn take_old_available_input(&mut self, old_id: u16, dist: &mut Distributions) -> (r: u16)
        requires
            old(self).wf(),
            old(self).available@.len() > 0,
        ensures
            final(self).wf(),
            old(self).available@.contains(r),
            final(self).cur_id == old(self).cur_id,
            final(self).available@.len() == old(self).available@.len() - 1,
            !final(self).available@.contains(r),
            final(dist).wf() == old(dist).wf(),
            final(dist).dict == old(dist).dict,
    {
        let id = match self.get_renamed_old_input(old_id) {
            Some(n) => n,
            None => self.get_random_input(dist),
        };
        self.take_new_input(id)
    }

    /// Read the renamed counterpart of a source id without consuming,
    /// falling back to a random available id.
    pub fn get_old_available_input(&self, old_id: u16, dist: &mut Distributions) -> (r: u16)
        requires
            self.wf(),
            self.available@.len() > 0,
        ensures
            self.available@.contains(r),
            final(dist).wf() == old(dist).wf(),
            final(dist).dict == old(dist).dict,
    {
        match self.get_renamed_old_input(old_id) {
            Some(n) => n,
            None => self.get_random_input(dist),
        }
    }
}

/// Overwriting a table entry in place rewrites that key's renaming and no
/// other.
proof fn lemma_rename_update(table: Seq<(u16, u16)>, i: int, n: u16)
    requires
        0 <= i < table.len(),
        forall|a: int, b: int|
            0 <= a < b < table.len() ==> (#[trigger] table[a]).0 != (#[trigger] table[b]).0,
    ensures
        rename_of(table.update(i, (table[i].0, n)), table[i].0) == Some(n),
        forall|o: u16|
            o != table[i].0 ==> rename_of(table.update(i, (table[i].0, n)), o) == rename_of(
                table,
                o,
            ),
    decreases table.len(),
{
    let u = table.update(i, (table[i].0, n));
    if i == table.len() - 1 {
        assert(u.drop_last() =~= table.drop_last());
        assert forall|o: u16| o != table[i].0 implies rename_of(u, o) == rename_of(table, o) by {
            assert(rename_of(u, o) == rename_of(u.drop_last(), o));
            assert(rename_of(table, o) == rename_of(table.drop_last(), o));
        }
    } else {
        assert(u.last() == table.last());
        assert(u.drop_last() =~= table.drop_last().update(i, (table[i].0, n)));
        assert(table.drop_last()[i] == table[i]);
        lemma_rename_update(table.drop_last(), i, n);
        assert forall|o: u16| o != table[i].0 implies rename_of(u, o) == rename_of(table, o) by {
            if u.last().0 != o {
                assert(rename_of(u, o) == rename_of(u.drop_last(), o));
                assert(rename_of(table, o) == rename_of(table.drop_last(), o));
            }
        }
    }
}

/// A key present at index `i` (keys distinct) renames to that entry's
/// value.
proof fn lemma_rename_present(table: Seq<(u16, u16)>, i: int)
    requires
        0 <= i < table.len(),
        forall|a: int, b: int|
            0 <= a < b < table.len() ==> (#[trigger] table[a]).0 != (#[trigger] table[b]).0,
    ensures
        rename_of(table, table[i].0) == Some(table[i].1),
    decreases table.len(),
{
    if i < table.len() - 1 {
        assert(table.drop_last()[i] == table[i]);
        lemma_rename_present(table.drop_last(), i);
    }
}

/// A key present nowhere renames to nothing.
proof fn lemma_rename_key_absent(table: Seq<(u16, u16)>, o: u16)
    requires
        forall|j: int| 0 <= j < table.len() ==> (#[trigger] table[j]).0 != o,
    ensures
        rename_of(table, o) is None,
    decreases table.len(),
{
    if table.len() > 0 {
        assert forall|j: int|
            0 <= j < table.drop_last().len() implies (#[trigger] table.drop_last()[j]).0 != o by {
            assert(table[j].0 != o);
        }
        lemma_rename_key_absent(table.drop_last(), o);
    }
}

/// If no entry carries value `n`, no key renames to `n`.
proof fn lemma_rename_value_absent(table: Seq<(u16, u16)>, n: u16)
    requires
        forall|j: int| 0 <= j < table.len() ==> (#[trigger] table[j]).1 != n,
    ensures
        forall|o: u16| rename_of(table, o) != Some(n),
    decreases table.len(),
{
    if table.len() > 0 {
        assert forall|j: int|
            0 <= j < table.drop_last().len() implies (#[trigger] table.drop_last()[j]).1 != n by {
            assert(table[j].1 != n);
        }
        lemma_rename_value_absent(table.drop_last(), n);
        assert forall|o: u16| rename_of(table, o) != Some(n) by {
            if table.last().0 == o {
                assert(table[table.len() - 1].1 != n);
            } else {
                assert(rename_of(table, o) == rename_of(table.drop_last(), o));
                assert(rename_of(table.drop_last(), o) != Some(n));
            }
        }
    }
}

/// Removing the one entry with value `n` (by swapping the last entry into
/// its slot) erases exactly the renamings to `n`.
proof fn lemma_table_swap_remove(table: Seq<(u16, u16)>, f: int, n: u16)
    requires
        0 <= f < table.len(),
        table[f].1 == n,
        forall|a: int, b: int|
            0 <= a < b < table.len() ==> (#[trigger] table[a]).0 != (#[trigger] table[b]).0,
        forall|a: int, b: int|
            0 <= a < b < table.len() ==> (#[trigger] table[a]).1 != (#[trigger] table[b]).1,
        forall|j: int| 0 <= j < table.len() && j != f ==> (#[trigger] table[j]).1 != n,
    ensures
        ({
            let removed = table.update(f, table[table.len() - 1]).drop_last();
            &&& forall|a: int, b: int|
                0 <= a < b < removed.len() ==> (#[trigger] removed[a]).0 != (
                #[trigger] removed[b]).0
            &&& forall|a: int, b: int|
                0 <= a < b < removed.len() ==> (#[trigger] removed[a]).1 != (
                #[trigger] removed[b]).1
            &&& forall|j: int| 0 <= j < removed.len() ==> (#[trigger] removed[j]).1 != n
            &&& forall|j: int| 0 <= j < removed.len() ==> table.contains(#[trigger] removed[j])
            &&& forall|o: u16|
                rename_of(removed, o) == if rename_of(table, o) == Some(n) {
                    None
                } else {
                    rename_of(table, o)
                }
        }),
{
    let removed = table.update(f, table[table.len() - 1]).drop_last();
    assert forall|j: int| 0 <= j < removed.len() implies table.contains(#[trigger] removed[j]) by {
        if j == f {
            assert(removed[j] == table[table.len() - 1]);
        } else {
            assert(removed[j] == table[j]);
        }
    }
    assert forall|a: int, b: int|
        0 <= a < b < removed.len() implies (#[trigger] removed[a]).0 != (#[trigger] removed[b]).0
        && (#[trigger] removed[a]).1 != (#[trigger] removed[b]).1 by {
        if a == f {
            assert(removed[a] == table[table.len() - 1]);
            assert(removed[b] == table[b]);
            assert(table[b].0 != table[table.len() - 1].0);
            assert(table[b].1 != table[table.len() - 1].1);
        } else if b == f {
            assert(removed[b] == table[table.len() - 1]);
            assert(removed[a] == table[a]);
            assert(table[a].0 != table[table.len() - 1].0);
            assert(table[a].1 != table[table.len() - 1].1);
        } else {
            assert(removed[a] == table[a]);
            assert(removed[b] == table[b]);
        }
    }
    assert forall|o: u16|
        rename_of(removed, o) == if rename_of(table, o) == Some(n) {
            None
        } else {
            rename_of(table, o)
        } by {
        lemma_rename_cases(table, o);
        if rename_of(table, o) == Some(n) {
            let w = choose|w: int|
                0 <= w < table.len() && #[trigger] table[w].0 == o && table[w].1 == n;
            assert(w == f);
            assert forall|j: int| 0 <= j < removed.len() implies (#[trigger] removed[j]).0 != o by {
                if j == f {
                    assert(removed[j] == table[table.len() - 1]);
                    assert(table.len() - 1 != f);
                } else {
                    assert(removed[j] == table[j]);
                }
            }
            lemma_rename_key_absent(removed, o);
        } else {
            match rename_of(table, o) {
                Some(v) => {
                    let w = choose|w: int|
                        0 <= w < table.len() && #[trigger] table[w].0 == o && table[w].1 == v;
                    assert(w != f);
                    if w == table.len() - 1 {
                        if f < table.len() - 1 {
                            assert(removed[f] == table[table.len() - 1]);
                            lemma_rename_present(removed, f);
                        } else {
                            assert(false);
                        }
                    } else {
                        assert(removed[w] == table[w]);
                        lemma_rename_present(removed, w);
                    }
                },
                None => {
                    assert forall|j: int|
                        0 <= j < removed.len() implies (#[trigger] removed[j]).0 != o by {
                        assert(table.contains(removed[j]));
                        let w = choose|w: int|
                            0 <= w < table.len() && #[trigger] table[w] == removed[j];
                        if table[w].0 == o {
                            lemma_rename_present(table, w);
                        }
                    }
                    lemma_rename_key_absent(removed, o);
                },
            }
        }
    }
}

/// A defined renaming is witnessed by an entry, and conversely.
proof fn lemma_rename_cases(table: Seq<(u16, u16)>, o: u16)
    requires
        forall|a: int, b: int|
            0 <= a < b < table.len() ==> (#[trigger] table[a]).0 != (#[trigger] table[b]).0,
    ensures
        match rename_of(table, o) {
            Some(v) => exists|w: int|
                0 <= w < table.len() && #[trigger] table[w].0 == o && table[w].1 == v,
            None => forall|j: int| 0 <= j < table.len() ==> (#[trigger] table[j]).0 != o,
        },
    decreases table.len(),
{
    if table.len() > 0 {
        if table.last().0 == o {
            assert(table[table.len() - 1].0 == o && table[table.len() - 1].1 == table.last().1);
        } else {
            lemma_rename_cases(table.drop_last(), o);
            match rename_of(table, o) {
                Some(v) => {
                    assert(rename_of(table, o) == rename_of(table.drop_last(), o));
                    let w = choose|w: int|
                        0 <= w < table.drop_last().len() && #[trigger] table.drop_last()[w].0 == o
                            && table.drop_last()[w].1 == v;
                    assert(table[w].0 == o && table[w].1 == v);
                },
                None => {
                    assert forall|j: int|
                        0 <= j < table.len() implies (#[trigger] table[j]).0 != o by {
                        if j < table.len() - 1 {
                            assert(table.drop_last()[j].0 != o);
                        }
                    }
                },
            }
        }
    }
}

/// Renaming soundness, composed: a `Get` can only consume an id that is
/// currently available (`take_new_input` demands it and removes it), and a
/// consumed id can never be consumed again before the next `Set` of that
/// slot — every mint produces the strictly larger id `cur_id + 1`, so no
/// mint can reinstall an id that was already handed out.
pub proof fn lemma_consumed_id_stays_unavailable(s: ValueState, consumed: u16)
    requires
        s.wf(),
        !s.available@.contains(consumed),
        consumed <= s.cur_id,
        s.cur_id < 0xffff,
    ensures
        !s.available@.push((s.cur_id + 1) as u16).contains(consumed),
{
    let grown = s.available@.push((s.cur_id + 1) as u16);
    if grown.contains(consumed) {
        let w = choose|w: int| 0 <= w < grown.len() && #[trigger] grown[w] == consumed;
        if w < s.available@.len() {
            assert(s.available@[w] == consumed);
        } else {
            assert(grown[w] == (s.cur_id + 1) as u16);
        }
    }
}

/// Removing an element of a distinct sequence by swapping the last into
/// its slot keeps the rest, distinct, and drops exactly that element.
/// This is the heart of renaming soundness: once consumed, an id is no
/// longer available, so it cannot be consumed again until a later mint
/// (which always produces a strictly larger, never-before-seen id)
/// reinstalls that slot.
pub proof fn lemma_swap_remove_distinct(s: Seq<u16>, k: int, id: u16)
    requires
        0 <= k < s.len(),
        s[k] == id,
        distinct_u16(s),
    ensures
        ({
            let removed = s.update(k, s[s.len() - 1]).drop_last();
            &&& distinct_u16(removed)
            &&& removed.len() == s.len() - 1
            &&& !removed.contains(id)
            &&& forall|x: u16| x != id ==> removed.contains(x) == s.contains(x)
        }),
{
    let removed = s.update(k, s[s.len() - 1]).drop_last();
    assert forall|x: u16| x != id implies removed.contains(x) == s.contains(x) by {
        if removed.contains(x) {
            let w = choose|w: int| 0 <= w < removed.len() && #[trigger] removed[w] == x;
            if w == k {
                assert(s[s.len() - 1] == x);
            } else {
                assert(s[w] == x);
            }
        }
        if s.contains(x) {
            let w = choose|w: int| 0 <= w < s.len() && #[trigger] s[w] == x;
            assert(w != k);
            if w == s.len() - 1 {
                assert(k < s.len() - 1);
                assert(removed[k] == x);
            } else {
                assert(removed[w] == x);
            }
        }
    }
    if removed.contains(id) {
        let w = choose|w: int| 0 <= w < removed.len() && #[trigger] removed[w] == id;
        if w == k {
            assert(s[s.len() - 1] == id);
            if s.len() - 1 != k {
                assert(false);
            }
        } else {
            assert(s[w] == id && w != k);
        }
    }
}

/// The renaming and availability state of a whole graph under
/// construction: one `ValueState` per value type of the spec.
pub struct GraphState {
    pub states: Vec<ValueState>,
}

impl Clone for GraphState {
    fn clone(&self) -> (r: Self)
        ensures
            r.states@.len() == self.states@.len(),
            forall|i: int|
                0 <= i < self.states@.len() ==> states_entry_eq(
                    #[trigger] r.states@[i],
                    self.states@[i],
                ),
    {
        let mut states: Vec<ValueState> = Vec::new();
        let mut i: usize = 0;
        while i < self.states.len()
            invariant
                i <= self.states@.len(),
                states@.len() == i,
                forall|j: int|
                    0 <= j < i ==> states_entry_eq(#[trigger] states@[j], self.states@[j]),
            decreases self.states@.len() - i,
        {
            states.push(self.states[i].clone());
            i = i + 1;
        }
        GraphState { states }
    }
}

/// Two per-type states agree on everything observable.
pub open spec fn states_entry_eq(a: ValueState, b: ValueState) -> bool {
    a.cur_id == b.cur_id && a.available@ == b.available@ && a.old_to_new@ == b.old_to_new@
}

impl GraphState {
    pub open spec fn wf(&self) -> bool {
        forall|i: int| 0 <= i < self.states@.len() ==> (#[trigger] self.states@[i]).wf()
    }

    /// Ids of type `t` currently available.
    pub open spec fn avail_count(&self, t: u16) -> nat {
        if t < self.states@.len() {
            self.states@[t as int].available@.len()
        } else {
            0
        }
    }

    /// The mint counter of type `t`.
    pub open spec fn cur_of(&self, t: u16) -> nat {
        if t < self.states@.len() {
            self.states@[t as int].cur_id as nat
        } else {
            0
        }
    }

    /// One empty per-type state for each of `n` value types.
    pub fn new(n: usize) -> (r: Self)
        ensures
            r.wf(),
            r.states@.len() == n,
            forall|t: u16| r.avail_count(t) == 0,
    {
        let mut states: Vec<ValueState> = Vec::new();
        let mut i: usize = 0;
        while i < n
            invariant
                i <= n,
                states@.len() == i,
                forall|j: int| 0 <= j < i ==> (#[trigger] states@[j]).wf(),
                forall|j: int| 0 <= j < i ==> (#[trigger] states@[j]).available@.len() == 0,
            decreases n - i,
        {
            states.push(ValueState::new());
            i = i + 1;
        }
        GraphState { states }
    }

    /// Forget all availability and renaming: every per-type state starts
    /// over with nothing available, nothing renamed, and the mint counter
    /// at zero.
    pub fn clear(&mut self)
        ensures
            final(self).wf(),
            final(self).states@.len() == old(self).states@.len(),
            forall|t: u16| final(self).avail_count(t) == 0,
            forall|j: int|
                0 <= j < final(self).states@.len() ==> (#[trigger] final(self).states@[j]).cur_id
                    == 0 && final(self).states@[j].available@.len() == 0 && final(self).states@[j].old_to_new@.len() == 0,
    {
        let n = self.states.len();
        let mut i: usize = 0;
        while i < n
            invariant
                i <= n,
                n == self.states@.len(),
                forall|j: int| 0 <= j < i ==> (#[trigger] self.states@[j]).wf(),
                forall|j: int|
                    0 <= j < i ==> (#[trigger] self.states@[j]).cur_id == 0
                        && self.states@[j].available@.len() == 0
                        && self.states@[j].old_to_new@.len() == 0,
            decreases n - i,
        {
            let mut st = ValueState::new();
            self.states.set(i, st);
            i = i + 1;
        }
    }

    /// Become a copy of `other` (restoring a snapshot); types past
    /// `other`'s table are cleared.
    pub fn reset_to(&mut self, other: &GraphState)
        requires
            other.wf(),
        ensures
            final(self).wf(),
            final(self).states@.len() == old(self).states@.len(),
            forall|j: int|
                0 <= j < old(self).states@.len() && j < other.states@.len() ==> states_entry_eq(
                    #[trigger] final(self).states@[j],
                    other.states@[j],
                ),
            forall|j: int|
                other.states@.len() <= j < old(self).states@.len() ==> (
                #[trigger] final(self).states@[j]).cur_id == 0 && final(self).states@[j].available@.len() == 0 && final(self).states@[j].old_to_new@.len()
                    == 0,
            forall|t: u16|
                t < old(self).states@.len() ==> final(self).avail_count(t) == if (t as int)
                    < other.states@.len() {
                    other.avail_count(t)
                } else {
                    0
                },
    {
        let n = self.states.len();
        let mut i: usize = 0;
        while i < n
            invariant
                i <= n,
                n == self.states@.len(),
                other.wf(),
                forall|j: int| 0 <= j < i ==> (#[trigger] self.states@[j]).wf(),
                forall|j: int|
                    0 <= j < i && j < other.states@.len() ==> states_entry_eq(
                        #[trigger] self.states@[j],
                        other.states@[j],
                    ),
                forall|j: int|
                    other.states@.len() <= j < i ==> (#[trigger] self.states@[j]).cur_id == 0
                        && self.states@[j].available@.len() == 0
                        && self.states@[j].old_to_new@.len() == 0,
            decreases n - i,
        {
            if i < other.states.len() {
                self.states.set(i, other.states[i].clone());
            } else {
                self.states.set(i, ValueState::new());
            }
            i = i + 1;
        }
    }

    /// Whether a node of type `n` can currently be appended as far as
    /// operand availability goes: each value type offers at least as many
    /// available ids as the node requires.
    pub fn is_available(&self, sp: &GraphSpec, n: NodeTypeID) -> (r: bool)
        requires
            self.wf(),
            sp.wf(),
        ensures
            r == self.spec_is_available(sp, n),
    {
        if n.0 as usize >= sp.node_specs.len() {
            return false;
        }
        let nspec = &sp.node_specs[n.0 as usize];
        let m = nspec.required_values.len();
        let mut k: usize = 0;
        while k < m
            invariant
                self.wf(),
                sp.wf(),
                (n.0 as int) < sp.node_specs@.len(),
                nspec == &sp.node_specs@[n.0 as int],
                m == nspec.required_values@.len(),
                k <= m,
                forall|j: int|
                    0 <= j < k ==> self.avail_count((#[trigger] nspec.required_values@[j]).0.0) >= nspec.required_values@[j].1,
            decreases m - k,
        {
            let (t, cnt) = nspec.required_values[k];
            let have = if (t.0 as usize) < self.states.len() {
                self.states[t.0 as usize].num_available()
            } else {
                0
            };
            if have < cnt {
                proof {
                    crate::spec::lemma_assoc_present(nspec.required_values@, k as int);
                    assert(nspec.required_values@[k as int].0 == t);
                    assert(crate::newtypes::ValueTypeID(t.0) == t);
                    assert(self.avail_count(t.0) < assoc_count(
                        sp.node_specs@[n.0 as int].required_values@,
                        crate::newtypes::ValueTypeID(t.0),
                    ));
                }
                return false;
            }
            k = k + 1;
        }
        proof {
            assert forall|t: u16|
                self.avail_count(t) >= assoc_count(
                    sp.node_specs@[n.0 as int].required_values@,
                    crate::newtypes::ValueTypeID(t),
                ) by {
                let rv = sp.node_specs@[n.0 as int].required_values@;
                if exists|j: int| 0 <= j < rv.len() && (#[trigger] rv[j]).0.0 == t {
                    let j = choose|j: int| 0 <= j < rv.len() && (#[trigger] rv[j]).0.0 == t;
                    crate::spec::lemma_assoc_present(rv, j);
                    assert(rv[j].0 == crate::newtypes::ValueTypeID(t));
                } else {
                    assert forall|j: int| 0 <= j < rv.len() implies (#[trigger] rv[j]).0
                        != crate::newtypes::ValueTypeID(t) by {
                        assert(rv[j].0.0 != t);
                    }
                    crate::spec::lemma_assoc_absent(rv, crate::newtypes::ValueTypeID(t));
                }
            }
        }
        true
    }

    /// The availability requirement, over the node's derived requirement
    /// table (absent types require zero).
    pub open spec fn spec_is_available(&self, sp: &GraphSpec, n: NodeTypeID) -> bool {
        &&& (n.0 as int) < sp.node_specs@.len()
        &&& forall|t: u16|
            self.avail_count(t) >= assoc_count(
                sp.node_specs@[n.0 as int].required_values@,
                crate::newtypes::ValueTypeID(t),
            )
    }
}

/// Appends, validates and renames graph nodes one at a time, for both
/// fresh generation and snapshot-resumed replay.
pub struct GraphBuilder {
    pub spec: GraphSpec,
    pub state: GraphState,
}

impl GraphBuilder {
    /// The renaming table covers exactly the spec's value types and is
    /// internally sound.
    pub open spec fn wf(&self) -> bool {
        &&& self.spec.wf()
        &&& self.state.wf()
        &&& self.state.states@.len() == self.spec.value_specs@.len()
    }

    pub fn new(spec: GraphSpec) -> (r: Self)
        requires
            spec.wf(),
        ensures
            r.wf(),
            r.spec == spec,
    {
        let n = spec.value_specs.len();
        GraphBuilder { spec, state: GraphState::new(n) }
    }

    /// Truncate the storage to the snapshot's recorded lengths and restore
    /// (or clear) the renaming table: the prefix the snapshot covers stays
    /// byte-identical, and construction resumes exactly at the cut.  With a
    /// saved table the per-type states become copies of it (types beyond it
    /// cleared); without one every type starts over with no id available.
    pub fn start<S: GraphStorage>(&mut self, graph: &mut S, snapshot: &MutatorSnapshotState)
        requires
            old(self).wf(),
            snapshot.skip_ops <= old(graph).ops_view().len(),
            snapshot.skip_data <= old(graph).data_view().len(),
            snapshot.prefix_graph_state matches Some(st) ==> st.wf(),
        ensures
            final(self).wf(),
            final(self).spec == old(self).spec,
            final(graph).ops_view() == old(graph).ops_view().take(snapshot.skip_ops as int),
            final(graph).data_view() == old(graph).data_view().take(snapshot.skip_data as int),
            final(graph).spec_ops_room() >= old(graph).spec_ops_room(),
            final(graph).spec_data_room() >= old(graph).spec_data_room(),
            snapshot.prefix_graph_state is None ==> forall|j: int|
                0 <= j < final(self).state.states@.len() ==> (
                #[trigger] final(self).state.states@[j]).cur_id == 0 && final(self).state.states@[j].available@.len() == 0 && final(self).state.states@[j].old_to_new@.len() == 0,
            snapshot.prefix_graph_state matches Some(st) ==> (forall|j: int|
                0 <= j < final(self).state.states@.len() && j < st.states@.len()
                    ==> states_entry_eq(#[trigger] final(self).state.states@[j], st.states@[j]))
                && (forall|j: int|
                st.states@.len() <= j < final(self).state.states@.len() ==> (
                #[trigger] final(self).state.states@[j]).cur_id == 0 && final(self).state.states@[j].available@.len() == 0 && final(self).state.states@[j].old_to_new@.len() == 0),
    {
        graph.truncate_to(snapshot.skip_ops, snapshot.skip_data);
        match &snapshot.prefix_graph_state {
            Some(st) => {
                self.state.reset_to(st);
            },
            None => {
                self.state.clear();
            },
        }
    }

    /// The ops currently in the storage.
    pub fn num_ops_used<S: GraphStorage>(&self, graph: &S) -> (r: usize)
        ensures
            r == graph.ops_view().len(),
    {
        graph.op_len()
    }

    /// A copy of the renaming table, for a snapshot to save.
    pub fn get_graph_state(&self) -> (r: GraphState)
        requires
            self.wf(),
        ensures
            r.wf(),
    {
        self.state.clone()
    }

    /// Copy the built graph out of the storage.
    pub fn finalize<S: GraphStorage>(&self, graph: &S) -> (r: VecGraph)
        ensures
            r.ops@ == graph.ops_view(),
            r.data@ == graph.data_view(),
    {
        graph.as_vec_graph()
    }

    /// Whether the storage can no longer fit the spec's largest node.
    pub fn is_full<S: GraphStorage>(&self, graph: &S) -> (r: bool)
        ensures
            r == (self.spec.max_data >= graph.spec_data_room() || self.spec.max_ops
                >= graph.spec_ops_room()),
    {
        let data_full = self.spec.biggest_data() >= graph.data_available();
        let ops_full = self.spec.biggest_ops() >= graph.ops_available();
        data_full || ops_full
    }

    /// Everything `append_node` needs: operand availability, physical room
    /// in the storage for the node's ops and data, a consistent op list,
    /// and id space left to mint the node's outputs.
    pub open spec fn spec_can_append(&self, node: &GraphNode, ops_room: nat, data_room: nat) -> bool {
        &&& self.state.spec_is_available(&self.spec, node.id)
        &&& node.data@.len() < data_room
        &&& node.ops@.len() <= ops_room
        &&& node.ops@.len() == 1 + self.spec.node_specs@[node.id.0 as int].spec_size()
        &&& forall|k: int|
            0 <= k < self.spec.node_specs@[node.id.0 as int].outputs@.len()
                ==> self.state.avail_room_for(
                (#[trigger] self.spec.node_specs@[node.id.0 as int].outputs@[k]).0,
                self.spec.node_specs@[node.id.0 as int].outputs@.len(),
            )
    }

    /// Whether this node can be appended to this storage right now.  A
    /// `true` answer guarantees the whole append succeeds; nodes failing
    /// it are silently skipped, never erroring.  Beyond operand
    /// availability and physical room, the check also demands a consistent
    /// op list (exactly one tag plus the type's operand slots) and enough
    /// 16-bit id space to mint the node's outputs: both are needed for the
    /// success guarantee to hold without any panic path.
    pub fn can_append_node<S: GraphStorage>(&self, node: &GraphNode, graph: &S) -> (r: bool)
        requires
            self.wf(),
        ensures
            r == self.spec_can_append(node, graph.spec_ops_room(), graph.spec_data_room()),
    {
        if !self.state.is_available(&self.spec, node.id) {
            return false;
        }
        if !graph.can_append(node) {
            return false;
        }
        let nspec = &self.spec.node_specs[node.id.0 as usize];
        if node.ops.len() != 1 + nspec.size() {
            return false;
        }
        let nouts = nspec.outputs.len();
        let mut k: usize = 0;
        while k < nouts
            invariant
                self.wf(),
                (node.id.0 as int) < self.spec.node_specs@.len(),
                nspec == &self.spec.node_specs@[node.id.0 as int],
                nouts == nspec.outputs@.len(),
                k <= nouts,
                forall|j: int|
                    0 <= j < k ==> self.state.avail_room_for(
                        (#[trigger] nspec.outputs@[j]).0,
                        nouts as nat,
                    ),
            decreases nouts - k,
        {
            let t = nspec.outputs[k].0 as usize;
            if t >= self.state.states.len() {
                return false;
            }
            if !(self.state.states[t].cur_id as usize <= 0xffff - nouts) {
                return false;
            }
            k = k + 1;
        }
        true
    }
}

impl GraphState {
    /// Type `t` exists and can still mint `n` more ids.
    pub open spec fn avail_room_for(&self, t: u16, n: nat) -> bool {
        (t as int) < self.states@.len() && self.states@[t as int].cur_id + n <= 0xffff
    }
}

/// A count over a prefix never exceeds the count over the whole.
pub proof fn lemma_count_vt_take_le(s: Seq<crate::newtypes::ValueTypeID>, m: int, t: crate::newtypes::ValueTypeID)
    requires
        0 <= m <= s.len(),
    ensures
        crate::spec::count_vt(s.take(m), t) <= crate::spec::count_vt(s, t),
    decreases s.len() - m,
{
    if m == s.len() {
        assert(s.take(m) =~= s);
    } else {
        crate::spec::lemma_count_vt_take_step(s, m);
        lemma_count_vt_take_le(s, m + 1, t);
    }
}

impl GraphBuilder {
    /// Append one node whose operand list is renamed through the table and
    /// whose data span is the given bytes (the node's own, or a mutated
    /// copy of the same length).  The caller has established that the
    /// append fits; it then extends the storage by exactly this node's
    /// footprint and leaves everything before it untouched.
    #[verifier::loop_isolation(false)]
    fn append_node_inner<S: GraphStorage>(
        &mut self,
        node: &GraphNode,
        data: &Vec<u8>,
        graph: &mut S,
        dist: &mut Distributions,
    )
        requires
            old(self).wf(),
            old(dist).wf(),
            old(self).spec_can_append(node, old(graph).spec_ops_room(), old(graph).spec_data_room()),
            data@.len() == node.data@.len(),
        ensures
            final(self).wf(),
            final(self).spec == old(self).spec,
            final(dist).wf(),
            final(graph).ops_view().len() == old(graph).ops_view().len() + node.ops@.len(),
            final(graph).ops_view().take(old(graph).ops_view().len() as int) == old(
                graph,
            ).ops_view(),
            final(graph).ops_view()[old(graph).ops_view().len() as int] == node.ops@[0],
            final(graph).data_view() == old(graph).data_view() + data@,
            forall|t: u16|
                final(self).state.avail_count(t) + crate::spec::count_vt(
                    old(self).spec.node_specs@[node.id.0 as int].inputs@,
                    crate::newtypes::ValueTypeID(t),
                ) == old(self).state.avail_count(t) + crate::spec::count_vt(
                    old(self).spec.node_specs@[node.id.0 as int].outputs@,
                    crate::newtypes::ValueTypeID(t),
                ),
            forall|t: u16|
                final(self).state.cur_of(t) == old(self).state.cur_of(t) + crate::spec::count_vt(
                    old(self).spec.node_specs@[node.id.0 as int].outputs@,
                    crate::newtypes::ValueTypeID(t),
                ),
    {
        let ghost pre0 = self.state;
        let ghost old_ops = graph.ops_view();
        let ghost old_data = graph.data_view();
        let ghost nid = node.id.0 as int;
        let nspec = &self.spec.node_specs[node.id.0 as usize];
        let ghost inputs = nspec.inputs@;
        let ghost passthroughs = nspec.passthroughs@;
        let ghost outputs = nspec.outputs@;
        let r0 = graph.append_op(node.ops[0]);
        proof {
            assert(r0 is Some);
            assert(graph.ops_view().take(old_ops.len() as int) =~= old_ops);
        }
        let n_in = nspec.inputs.len();
        let mut i: usize = 0;
        while i < n_in
            invariant
                self.wf(),
                self.spec == old(self).spec,
                dist.wf(),
                i <= n_in,
                forall|t: u16|
                    self.state.avail_count(t) + crate::spec::count_vt(
                        inputs.take(i as int),
                        crate::newtypes::ValueTypeID(t),
                    ) >= crate::spec::required_count(
                        inputs,
                        passthroughs,
                        crate::newtypes::ValueTypeID(t),
                    ),
                forall|t: u16|
                    self.state.avail_count(t) + crate::spec::count_vt(
                        inputs.take(i as int),
                        crate::newtypes::ValueTypeID(t),
                    ) == pre0.avail_count(t),
                forall|t: u16| self.state.cur_of(t) == pre0.cur_of(t),
                forall|k: int|
                    0 <= k < outputs.len() ==> self.state.avail_room_for(
                        (#[trigger] outputs[k]).0,
                        outputs.len(),
                    ),
                graph.ops_view().len() == old_ops.len() + 1 + i,
                graph.ops_view().take(old_ops.len() as int) == old_ops,
                graph.ops_view()[old_ops.len() as int] == node.ops@[0],
                graph.data_view() == old_data,
                graph.spec_ops_room() + 1 + i >= old(graph).spec_ops_room(),
                graph.spec_data_room() >= old(graph).spec_data_room(),
            decreases n_in - i,
        {
            let vt = nspec.inputs[i];
            let old_id = node.ops[1 + i];
            proof {
                crate::spec::lemma_count_vt_take_step(inputs, i as int);
                lemma_count_vt_take_le(inputs, i + 1, vt);
                assert(crate::spec::required_count(inputs, passthroughs, vt)
                    >= crate::spec::count_vt(inputs.take(i + 1), vt));
                assert(self.state.avail_count(vt.0) >= 1);
            }
            let ghost pre_state = self.state;
            let ghost pre_states = self.state.states@;
            let mut st = self.state.states[vt.0 as usize].clone();
            let id = st.take_old_available_input(old_id, dist);
            self.state.states.set(vt.0 as usize, st);
            let r = graph.append_op(id);
            proof {
                assert(r is Some);
                assert(graph.ops_view().take(old_ops.len() as int) =~= old_ops);
                crate::spec::lemma_count_vt_take_step(inputs, i as int);
                assert forall|t: u16|
                    self.state.avail_count(t) + crate::spec::count_vt(
                        inputs.take(i + 1),
                        crate::newtypes::ValueTypeID(t),
                    ) >= crate::spec::required_count(
                        inputs,
                        passthroughs,
                        crate::newtypes::ValueTypeID(t),
                    ) by {
                    assert(pre_state.avail_count(t) + crate::spec::count_vt(
                        inputs.take(i as int),
                        crate::newtypes::ValueTypeID(t),
                    ) >= crate::spec::required_count(
                        inputs,
                        passthroughs,
                        crate::newtypes::ValueTypeID(t),
                    ));
                    if t == vt.0 {
                        assert(crate::newtypes::ValueTypeID(t) == vt);
                        assert(self.state.states@[t as int].available@.len() == pre_states[
                            t as int].available@.len() - 1);
                        assert(self.state.avail_count(t) == pre_state.avail_count(t) - 1);
                        assert(crate::spec::count_vt(inputs.take(i + 1), vt)
                            == crate::spec::count_vt(inputs.take(i as int), vt) + 1);
                    } else {
                        if (t as int) < pre_states.len() {
                            assert(self.state.states@[t as int] == pre_states[t as int]);
                        }
                        assert(self.state.avail_count(t) == pre_state.avail_count(t));
                        assert(crate::spec::count_vt(
                            inputs.take(i + 1),
                            crate::newtypes::ValueTypeID(t),
                        ) == crate::spec::count_vt(
                            inputs.take(i as int),
                            crate::newtypes::ValueTypeID(t),
                        ));
                    }
                }
                assert forall|t: u16|
                    self.state.avail_count(t) + crate::spec::count_vt(
                        inputs.take(i + 1),
                        crate::newtypes::ValueTypeID(t),
                    ) == pre0.avail_count(t) by {
                    assert(pre_state.avail_count(t) + crate::spec::count_vt(
                        inputs.take(i as int),
                        crate::newtypes::ValueTypeID(t),
                    ) == pre0.avail_count(t));
                    if t == vt.0 {
                        assert(self.state.avail_count(t) == pre_state.avail_count(t) - 1);
                    } else {
                        if (t as int) < pre_states.len() {
                            assert(self.state.states@[t as int] == pre_states[t as int]);
                        }
                        assert(self.state.avail_count(t) == pre_state.avail_count(t));
                    }
                }
                assert forall|t: u16| self.state.cur_of(t) == pre0.cur_of(t) by {
                    if (t as int) < pre_states.len() && t != vt.0 {
                        assert(self.state.states@[t as int] == pre_states[t as int]);
                    }
                    assert(pre_state.cur_of(t) == pre0.cur_of(t));
                }
            }
            i = i + 1;
        }
        proof {
            assert(inputs.take(n_in as int) =~= inputs);
        }
        let n_pass = nspec.passthroughs.len();
        let mut p: usize = 0;
        while p < n_pass
            invariant
                self.wf(),
                self.spec == old(self).spec,
                dist.wf(),
                p <= n_pass,
                forall|t: u16|
                    self.state.avail_count(t) + crate::spec::count_vt(
                        inputs,
                        crate::newtypes::ValueTypeID(t),
                    ) >= crate::spec::required_count(
                        inputs,
                        passthroughs,
                        crate::newtypes::ValueTypeID(t),
                    ),
                forall|k: int|
                    0 <= k < outputs.len() ==> self.state.avail_room_for(
                        (#[trigger] outputs[k]).0,
                        outputs.len(),
                    ),
                graph.ops_view().len() == old_ops.len() + 1 + n_in + p,
                graph.ops_view().take(old_ops.len() as int) == old_ops,
                graph.ops_view()[old_ops.len() as int] == node.ops@[0],
                graph.data_view() == old_data,
                graph.spec_ops_room() + 1 + n_in + p >= old(graph).spec_ops_room(),
                graph.spec_data_room() >= old(graph).spec_data_room(),
            decreases n_pass - p,
        {
            let vt = nspec.passthroughs[p];
            proof {
                assert(passthroughs.contains(vt));
                assert(crate::spec::required_count(inputs, passthroughs, vt)
                    >= crate::spec::count_vt(inputs, vt) + 1);
                assert(self.state.avail_count(vt.0) >= 1);
            }
            let old_id = node.ops[1 + n_in + p];
            let id = self.state.states[vt.0 as usize].get_old_available_input(old_id, dist);
            let r = graph.append_op(id);
            proof {
                assert(r is Some);
                assert(graph.ops_view().take(old_ops.len() as int) =~= old_ops);
            }
            p = p + 1;
        }
        let n_out = nspec.outputs.len();
        let mut q: usize = 0;
        while q < n_out
            invariant
                self.wf(),
                self.spec == old(self).spec,
                dist.wf(),
                q <= n_out,
                forall|t: u16|
                    self.state.avail_count(t) + crate::spec::count_vt(
                        inputs,
                        crate::newtypes::ValueTypeID(t),
                    ) == pre0.avail_count(t) + crate::spec::count_vt(
                        outputs.take(q as int),
                        crate::newtypes::ValueTypeID(t),
                    ),
                forall|t: u16|
                    self.state.cur_of(t) == pre0.cur_of(t) + crate::spec::count_vt(
                        outputs.take(q as int),
                        crate::newtypes::ValueTypeID(t),
                    ),
                forall|k: int|
                    0 <= k < outputs.len() ==> self.state.avail_room_for(
                        (#[trigger] outputs[k]).0,
                        (n_out - q) as nat,
                    ),
                graph.ops_view().len() == old_ops.len() + 1 + n_in + n_pass + q,
                graph.ops_view().take(old_ops.len() as int) == old_ops,
                graph.ops_view()[old_ops.len() as int] == node.ops@[0],
                graph.data_view() == old_data,
                graph.spec_ops_room() + 1 + n_in + n_pass + q >= old(graph).spec_ops_room(),
                graph.spec_data_room() >= old(graph).spec_data_room(),
            decreases n_out - q,
        {
            let vt = nspec.outputs[q];
            proof {
                assert(self.state.avail_room_for(vt.0, (n_out - q) as nat));
                crate::spec::lemma_count_vt_take_step(outputs, q as int);
            }
            let ghost pre_state = self.state;
            let ghost pre_states = self.state.states@;
            let old_id = node.ops[1 + n_in + n_pass + q];
            let mut st = self.state.states[vt.0 as usize].clone();
            let id = st.insert_old_id(old_id);
            self.state.states.set(vt.0 as usize, st);
            let r = graph.append_op(id);
            proof {
                assert(r is Some);
                assert(graph.ops_view().take(old_ops.len() as int) =~= old_ops);
                assert forall|k: int|
                    0 <= k < outputs.len() implies self.state.avail_room_for(
                    (#[trigger] outputs[k]).0,
                    (n_out - (q + 1)) as nat,
                ) by {
                    assert(self.state.avail_room_for(outputs[k].0, (n_out - q) as nat)
                        || outputs[k].0 == vt.0);
                }
                assert forall|t: u16|
                    self.state.avail_count(t) + crate::spec::count_vt(
                        inputs,
                        crate::newtypes::ValueTypeID(t),
                    ) == pre0.avail_count(t) + crate::spec::count_vt(
                        outputs.take(q + 1),
                        crate::newtypes::ValueTypeID(t),
                    ) by {
                    if t == vt.0 {
                        assert(crate::newtypes::ValueTypeID(t) == vt);
                        assert(self.state.avail_count(t) == pre_state.avail_count(t) + 1);
                    } else {
                        if (t as int) < pre_states.len() {
                            assert(self.state.states@[t as int] == pre_states[t as int]);
                        }
                        assert(self.state.avail_count(t) == pre_state.avail_count(t));
                    }
                }
                assert forall|t: u16|
                    self.state.cur_of(t) == pre0.cur_of(t) + crate::spec::count_vt(
                        outputs.take(q + 1),
                        crate::newtypes::ValueTypeID(t),
                    ) by {
                    if t == vt.0 {
                        assert(crate::newtypes::ValueTypeID(t) == vt);
                        assert(self.state.cur_of(t) == pre_state.cur_of(t) + 1);
                    } else {
                        if (t as int) < pre_states.len() {
                            assert(self.state.states@[t as int] == pre_states[t as int]);
                        }
                        assert(self.state.cur_of(t) == pre_state.cur_of(t));
                    }
                }
            }
            q = q + 1;
        }
        proof {
            assert(outputs.take(outputs.len() as int) =~= outputs);
        }
        let rd = graph.append_data(data.as_slice());
        proof {
            assert(rd is Some);
            assert(graph.ops_view().take(old_ops.len() as int) =~= old_ops);
        }
    }

    /// Append a node, renaming its operands and copying its data span
    /// verbatim.  A node that cannot be appended is silently skipped: the
    /// storage and table stay exactly as they were.
    pub fn append_node<S: GraphStorage>(
        &mut self,
        node: &GraphNode,
        graph: &mut S,
        dist: &mut Distributions,
    ) -> (r: bool)
        requires
            old(self).wf(),
            old(dist).wf(),
        ensures
            final(self).wf(),
            final(self).spec == old(self).spec,
            final(dist).wf(),
            r == old(self).spec_can_append(
                node,
                old(graph).spec_ops_room(),
                old(graph).spec_data_room(),
            ),
            !r ==> *final(graph) == *old(graph) && *final(self) == *old(self),
            r ==> final(graph).ops_view().len() == old(graph).ops_view().len() + node.ops@.len()
                && final(graph).ops_view().take(old(graph).ops_view().len() as int) == old(
                graph,
            ).ops_view() && final(graph).data_view() == old(graph).data_view() + node.data@,
            r ==> (forall|t: u16|
                final(self).state.avail_count(t) + crate::spec::count_vt(
                    old(self).spec.node_specs@[node.id.0 as int].inputs@,
                    crate::newtypes::ValueTypeID(t),
                ) == old(self).state.avail_count(t) + crate::spec::count_vt(
                    old(self).spec.node_specs@[node.id.0 as int].outputs@,
                    crate::newtypes::ValueTypeID(t),
                )) && (forall|t: u16|
                final(self).state.cur_of(t) == old(self).state.cur_of(t)
                    + crate::spec::count_vt(
                    old(self).spec.node_specs@[node.id.0 as int].outputs@,
                    crate::newtypes::ValueTypeID(t),
                )),
    {
        if self.can_append_node(node, graph) {
            let data = clone_bytes(&node.data);
            self.append_node_inner(node, &data, graph, dist);
            true
        } else {
            false
        }
    }
}

/// Element-for-element copy of a byte vector.
fn clone_bytes(v: &Vec<u8>) -> (r: Vec<u8>)
    ensures
        r@ == v@,
{
    let mut r: Vec<u8> = Vec::new();
    let mut i: usize = 0;
    while i < v.len()
        invariant
            i <= v@.len(),
            r@ =~= v@.take(i as int),
        decreases v@.len() - i,
    {
        r.push(v[i]);
        i = i + 1;
    }
    proof {
        assert(v@.take(v@.len() as int) =~= v@);
    }
    r
}

impl GraphBuilder {
    /// Append a node with its data span replaced by a dictionary- or
    /// random-mutated copy of the same length.  Skipped nodes leave
    /// everything untouched.
    pub fn append_node_mutated<S: GraphStorage>(
        &mut self,
        node: &GraphNode,
        dict: &crate::dict::CustomDict,
        mutator: &crate::primitive::PrimitiveMutator,
        graph: &mut S,
        dist: &mut Distributions,
    ) -> (r: bool)
        requires
            old(self).wf(),
            old(dist).wf(),
        ensures
            final(self).wf(),
            final(self).spec == old(self).spec,
            final(dist).wf(),
            r == old(self).spec_can_append(
                node,
                old(graph).spec_ops_room(),
                old(graph).spec_data_room(),
            ),
            !r ==> *final(graph) == *old(graph) && *final(self) == *old(self),
            r ==> final(graph).ops_view().len() == old(graph).ops_view().len() + node.ops@.len()
                && final(graph).ops_view().take(old(graph).ops_view().len() as int) == old(
                graph,
            ).ops_view() && final(graph).data_view().len() == old(graph).data_view().len()
                + node.data@.len() && final(graph).data_view().take(
                old(graph).data_view().len() as int,
            ) == old(graph).data_view(),
            r ==> (forall|t: u16|
                final(self).state.avail_count(t) + crate::spec::count_vt(
                    old(self).spec.node_specs@[node.id.0 as int].inputs@,
                    crate::newtypes::ValueTypeID(t),
                ) == old(self).state.avail_count(t) + crate::spec::count_vt(
                    old(self).spec.node_specs@[node.id.0 as int].outputs@,
                    crate::newtypes::ValueTypeID(t),
                )) && (forall|t: u16|
                final(self).state.cur_of(t) == old(self).state.cur_of(t)
                    + crate::spec::count_vt(
                    old(self).spec.node_specs@[node.id.0 as int].outputs@,
                    crate::newtypes::ValueTypeID(t),
                )),
    {
        if self.can_append_node(node, graph) {
            let backing = clone_bytes(&node.data);
            let n = backing.len();
            let mut buff = crate::primitive::DataBuff::new(backing, n);
            mutator.mutate(&mut buff, Some(dict), dist);
            let data = clone_bytes_slice(buff.as_slice());
            let ghost old_data = graph.data_view();
            self.append_node_inner(node, &data, graph, dist);
            proof {
                assert(final(graph).data_view().take(old_data.len() as int) =~= old_data);
            }
            true
        } else {
            false
        }
    }

    /// Append a node with the byte at `off` of its data span replaced by
    /// `val`; with `off` out of range the span is copied verbatim.
    fn append_node_byte_patched<S: GraphStorage>(
        &mut self,
        node: &GraphNode,
        off: usize,
        val: u8,
        graph: &mut S,
        dist: &mut Distributions,
    ) -> (r: bool)
        requires
            old(self).wf(),
            old(dist).wf(),
        ensures
            final(self).wf(),
            final(self).spec == old(self).spec,
            final(dist).wf(),
            r == old(self).spec_can_append(
                node,
                old(graph).spec_ops_room(),
                old(graph).spec_data_room(),
            ),
            !r ==> *final(graph) == *old(graph) && *final(self) == *old(self),
            r ==> final(graph).ops_view().len() == old(graph).ops_view().len() + node.ops@.len()
                && final(graph).ops_view().take(old(graph).ops_view().len() as int) == old(
                graph,
            ).ops_view() && final(graph).data_view() == old(graph).data_view() + (if (
            off as int) < node.data@.len() {
                node.data@.update(off as int, val)
            } else {
                node.data@
            }),
            r ==> (forall|t: u16|
                final(self).state.avail_count(t) + crate::spec::count_vt(
                    old(self).spec.node_specs@[node.id.0 as int].inputs@,
                    crate::newtypes::ValueTypeID(t),
                ) == old(self).state.avail_count(t) + crate::spec::count_vt(
                    old(self).spec.node_specs@[node.id.0 as int].outputs@,
                    crate::newtypes::ValueTypeID(t),
                )) && (forall|t: u16|
                final(self).state.cur_of(t) == old(self).state.cur_of(t)
                    + crate::spec::count_vt(
                    old(self).spec.node_specs@[node.id.0 as int].outputs@,
                    crate::newtypes::ValueTypeID(t),
                )),
    {
        if self.can_append_node(node, graph) {
            let mut data = clone_bytes(&node.data);
            if off < data.len() {
                data.set(off, val);
                proof {
                    assert(data@ =~= node.data@.update(off as int, val));
                }
            }
            self.append_node_inner(node, &data, graph, dist);
            true
        } else {
            false
        }
    }

    /// Append a node with every bit of its data byte at `off` flipped.
    pub fn append_node_mutated_full_bit_flip<S: GraphStorage>(
        &mut self,
        node: &GraphNode,
        off: usize,
        mutator: &crate::primitive::PrimitiveMutatorDefenite,
        graph: &mut S,
        dist: &mut Distributions,
    ) -> (r: bool)
        requires
            old(self).wf(),
            old(dist).wf(),
        ensures
            final(self).wf(),
            final(self).spec == old(self).spec,
            final(dist).wf(),
            !r ==> *final(graph) == *old(graph) && *final(self) == *old(self),
            r ==> final(graph).ops_view().len() == old(graph).ops_view().len() + node.ops@.len()
                && final(graph).ops_view().take(old(graph).ops_view().len() as int)
                == old(graph).ops_view() && final(graph).data_view() == old(graph).data_view() + (if (
            off as int) < node.data@.len() {
                node.data@.update(off as int, node.data@[off as int] ^ 0xff)
            } else {
                node.data@
            }),
    {
        let _ = mutator;
        let val = if off < node.data.len() {
            node.data[off] ^ 0xff
        } else {
            0
        };
        self.append_node_byte_patched(node, off, val, graph, dist)
    }

    /// Append a node with the lowest bit of its data byte at `off` flipped.
    pub fn append_node_mutated_lowest_bit_flip<S: GraphStorage>(
        &mut self,
        node: &GraphNode,
        off: usize,
        mutator: &crate::primitive::PrimitiveMutatorDefenite,
        graph: &mut S,
        dist: &mut Distributions,
    ) -> (r: bool)
        requires
            old(self).wf(),
            old(dist).wf(),
        ensures
            final(self).wf(),
            final(self).spec == old(self).spec,
            final(dist).wf(),
            !r ==> *final(graph) == *old(graph) && *final(self) == *old(self),
            r ==> final(graph).ops_view().len() == old(graph).ops_view().len() + node.ops@.len()
                && final(graph).ops_view().take(old(graph).ops_view().len() as int)
                == old(graph).ops_view() && final(graph).data_view() == old(graph).data_view() + (if (
            off as int) < node.data@.len() {
                node.data@.update(off as int, node.data@[off as int] ^ 0x01)
            } else {
                node.data@
            }),
    {
        let _ = mutator;
        let val = if off < node.data.len() {
            node.data[off] ^ 0x01
        } else {
            0
        };
        self.append_node_byte_patched(node, off, val, graph, dist)
    }

    /// Append a node with a fixed constant wrapping-added to its data byte
    /// at `off`.
    pub fn append_node_mutated_addition<S: GraphStorage>(
        &mut self,
        node: &GraphNode,
        off: usize,
        mutator: &crate::primitive::PrimitiveMutatorDefenite,
        graph: &mut S,
        dist: &mut Distributions,
    ) -> (r: bool)
        requires
            old(self).wf(),
            old(dist).wf(),
        ensures
            final(self).wf(),
            final(self).spec == old(self).spec,
            final(dist).wf(),
            !r ==> *final(graph) == *old(graph) && *final(self) == *old(self),
            r ==> final(graph).ops_view().len() == old(graph).ops_view().len() + node.ops@.len()
                && final(graph).ops_view().take(old(graph).ops_view().len() as int)
                == old(graph).ops_view() && final(graph).data_view() == old(graph).data_view() + (if (
            off as int) < node.data@.len() {
                node.data@.update(off as int, node.data@[off as int].wrapping_add(0x10))
            } else {
                node.data@
            }),
    {
        let _ = mutator;
        let val = if off < node.data.len() {
            node.data[off].wrapping_add(0x10)
        } else {
            0
        };
        self.append_node_byte_patched(node, off, val, graph, dist)
    }

    /// Append a node with a fixed constant wrapping-subtracted from its
    /// data byte at `off`.
    pub fn append_node_mutated_subtraction<S: GraphStorage>(
        &mut self,
        node: &GraphNode,
        off: usize,
        mutator: &crate::primitive::PrimitiveMutatorDefenite,
        graph: &mut S,
        dist: &mut Distributions,
    ) -> (r: bool)
        requires
            old(self).wf(),
            old(dist).wf(),
        ensures
            final(self).wf(),
            final(self).spec == old(self).spec,
            final(dist).wf(),
            !r ==> *final(graph) == *old(graph) && *final(self) == *old(self),
            r ==> final(graph).ops_view().len() == old(graph).ops_view().len() + node.ops@.len()
                && final(graph).ops_view().take(old(graph).ops_view().len() as int)
                == old(graph).ops_view() && final(graph).data_view() == old(graph).data_view() + (if (
            off as int) < node.data@.len() {
                node.data@.update(off as int, node.data@[off as int].wrapping_sub(0x10))
            } else {
                node.data@
            }),
    {
        let _ = mutator;
        let val = if off < node.data.len() {
            node.data[off].wrapping_sub(0x10)
        } else {
            0
        };
        self.append_node_byte_patched(node, off, val, graph, dist)
    }

    /// Whether a brand-new node of this type fits the storage's remaining
    /// room.
    pub fn can_generate_node<S: GraphStorage>(&self, ntype: &NodeSpec, graph: &S) -> (r: bool)
        requires
            self.wf(),
            ntype.spec_size() < 0xffff,
            ntype.data matches Some(d) ==> d.0 < self.spec.data_specs@.len(),
        ensures
            r == (ntype.spec_size() + 1 <= graph.spec_ops_room() && (match ntype.data {
                Some(d) => self.spec.data_specs@[d.0 as int].atomic_type.spec_min_data_size(),
                None => 0,
            }) <= graph.spec_data_room()),
    {
        if ntype.size() + 1 > graph.ops_available() {
            return false;
        }
        let min_data = match ntype.data {
            Some(d) => self.spec.data_specs[d.0].atomic_type.min_data_size(),
            None => 0,
        };
        min_data <= graph.data_available()
    }
}

/// Element-for-element copy of a byte slice.
fn clone_bytes_slice(v: &[u8]) -> (r: Vec<u8>)
    ensures
        r@ == v@,
{
    let mut r: Vec<u8> = Vec::new();
    let mut i: usize = 0;
    while i < v.len()
        invariant
            i <= v@.len(),
            r@ =~= v@.take(i as int),
        decreases v@.len() - i,
    {
        r.push(v[i]);
        i = i + 1;
    }
    proof {
        assert(v@.take(v@.len() as int) =~= v@);
    }
    r
}

impl GraphBuilder {
    /// Some node type is generatable and currently constructible from the
    /// available operands.
    pub open spec fn spec_some_constructible(&self) -> bool {
        exists|t: int|
            0 <= t < self.spec.node_specs@.len() && (#[trigger] self.spec.node_specs@[t]).generatable
                && self.state.spec_is_available(&self.spec, NodeTypeID(t as u16))
    }

    /// Pick a uniformly random node type among those that are generatable
    /// and currently constructible from the available operands; fails
    /// exactly when there is none.
    #[verifier::loop_isolation(false)]
    pub fn pick_available_type(&mut self, dist: &mut Distributions) -> (r: Result<
        NodeTypeID,
        GraphError,
    >)
        requires
            old(self).wf(),
            old(dist).wf(),
        ensures
            final(self).wf(),
            *final(self) == *old(self),
            final(dist).wf(),
            r is Ok <==> old(self).spec_some_constructible(),
            r matches Ok(t) ==> (t.0 as int) < final(self).spec.node_specs@.len()
                && final(self).spec.node_specs@[t.0 as int].generatable && final(self).state.spec_is_available(&final(self).spec, t),
            r matches Err(e) ==> e == GraphError::InvalidSpecs,
    {
        let mut candidates: Vec<NodeTypeID> = Vec::new();
        let n = self.spec.node_specs.len();
        let mut i: usize = 0;
        while i < n
            invariant
                self.wf(),
                n == self.spec.node_specs@.len(),
                i <= n,
                forall|j: int|
                    0 <= j < candidates@.len() ==> ((#[trigger] candidates@[j]).0 as int) < n
                        && self.spec.node_specs@[candidates@[j].0 as int].generatable
                        && self.state.spec_is_available(&self.spec, candidates@[j]),
                candidates@.len() > 0 <==> exists|t: int|
                    0 <= t < i && (#[trigger] self.spec.node_specs@[t]).generatable
                        && self.state.spec_is_available(&self.spec, NodeTypeID(t as u16)),
            decreases n - i,
        {
            let id = NodeTypeID::new(i as u16);
            if self.spec.node_specs[i].generatable && self.state.is_available(&self.spec, id) {
                candidates.push(id);
                proof {
                    assert(self.spec.node_specs@[i as int].generatable
                        && self.state.spec_is_available(&self.spec, NodeTypeID(i as u16)));
                }
            }
            i = i + 1;
        }
        if candidates.len() == 0 {
            return Err(GraphError::InvalidSpecs);
        }
        let k = dist.gen_range(0, candidates.len());
        Ok(candidates[k])
    }

    /// Everything generating a fresh node of type `nt` needs: a known
    /// type, physical room for its smallest footprint, available operands
    /// for its inputs and passthroughs, and 16-bit id space for its
    /// outputs.
    pub open spec fn spec_can_generate(&self, nt: NodeTypeID, ops_room: nat, data_room: nat) -> bool {
        &&& (nt.0 as int) < self.spec.node_specs@.len()
        &&& self.spec.node_specs@[nt.0 as int].spec_size() + 1 <= ops_room
        &&& (match self.spec.node_specs@[nt.0 as int].data {
            Some(d) => self.spec.data_specs@[d.0 as int].atomic_type.spec_min_data_size(),
            None => 0,
        }) <= data_room
        &&& self.state.spec_is_available(&self.spec, nt)
        &&& forall|k: int|
            0 <= k < self.spec.node_specs@[nt.0 as int].outputs@.len() ==> self.state.avail_room_for(
                (#[trigger] self.spec.node_specs@[nt.0 as int].outputs@[k]).0,
                self.spec.node_specs@[nt.0 as int].outputs@.len(),
            )
    }

    /// Generate a node of the given type from scratch: random inputs are
    /// consumed, passthroughs sampled, outputs minted, and the data span
    /// generated by the node's data type.  When everything the node needs
    /// is there, exactly one node is appended: its tag first, its operand
    /// slots after it, and a data span of its type's shape; otherwise the
    /// call is a silent no-op.  Only an unknown node type is an error.
    #[verifier::loop_isolation(false)]
    pub fn append_random_node<S: GraphStorage>(
        &mut self,
        node: NodeTypeID,
        mutator: &crate::primitive::PrimitiveMutator,
        graph: &mut S,
        dist: &mut Distributions,
    ) -> (r: Result<(), GraphError>)
        requires
            old(self).wf(),
            old(dist).wf(),
        ensures
            final(self).wf(),
            final(self).spec == old(self).spec,
            final(dist).wf(),
            r matches Err(e) ==> e == GraphError::UnknownNodeType(node) && (node.0 as int)
                >= old(self).spec.node_specs@.len() && *final(graph) == *old(graph),
            r is Ok <==> (node.0 as int) < old(self).spec.node_specs@.len(),
            r is Ok && !old(self).spec_can_generate(
                node,
                old(graph).spec_ops_room(),
                old(graph).spec_data_room(),
            ) ==> *final(graph) == *old(graph) && *final(self) == *old(self),
            old(self).spec_can_generate(
                node,
                old(graph).spec_ops_room(),
                old(graph).spec_data_room(),
            ) ==> final(graph).ops_view().len() == old(graph).ops_view().len() + 1 + old(self).spec.node_specs@[node.0 as int].spec_size() && final(graph).ops_view()[old(
                graph,
            ).ops_view().len() as int] == node.0 && final(graph).ops_view().take(
                old(graph).ops_view().len() as int,
            ) == old(graph).ops_view() && final(graph).data_view().take(
                old(graph).data_view().len() as int,
            ) == old(graph).data_view() && final(graph).data_view().len() >= old(
                graph,
            ).data_view().len() + (match old(self).spec.node_specs@[node.0 as int].data {
                Some(d) => old(self).spec.data_specs@[d.0 as int].atomic_type.spec_min_data_size(),
                None => 0,
            }) && final(graph).data_view().len() <= old(graph).data_view().len() + 0xffff + 2,
    {
        if node.0 as usize >= self.spec.node_specs.len() {
            return Err(GraphError::UnknownNodeType(node));
        }
        let ghost old_ops = graph.ops_view();
        let ghost old_data = graph.data_view();
        proof {
            assert(old_ops.take(old_ops.len() as int) =~= old_ops);
            assert(old_data.take(old_data.len() as int) =~= old_data);
        }
        let nspec = &self.spec.node_specs[node.0 as usize];
        if !self.can_generate_node(nspec, graph) {
            return Ok(());
        }
        if !self.state.is_available(&self.spec, node) {
            return Ok(());
        }
        let n_in = nspec.inputs.len();
        let n_pass = nspec.passthroughs.len();
        let n_out = nspec.outputs.len();
        let mut k: usize = 0;
        while k < n_out
            invariant
                self.wf(),
                (node.0 as int) < self.spec.node_specs@.len(),
                nspec == &self.spec.node_specs@[node.0 as int],
                n_out == nspec.outputs@.len(),
                k <= n_out,
                forall|j: int|
                    0 <= j < k ==> self.state.avail_room_for(
                        (#[trigger] nspec.outputs@[j]).0,
                        n_out as nat,
                    ),
            decreases n_out - k,
        {
            let t = nspec.outputs[k].0 as usize;
            if t >= self.state.states.len() {
                return Ok(());
            }
            if !(self.state.states[t].cur_id as usize <= 0xffff - n_out) {
                return Ok(());
            }
            k = k + 1;
        }
        // Everything is checked; plan the data span before touching the
        // storage so a failed plan can never leave a half-written node.
        let min_span = match nspec.data {
            Some(d) => self.spec.data_specs[d.0].atomic_type.min_data_size(),
            None => 0,
        };
        let span: Vec<u8> = match nspec.data {
            Some(d) => {
                let atom = self.spec.data_specs[d.0].atomic_type;
                match atom {
                    crate::spec::AtomicData::Int { size } => random_bytes(size, dist),
                    crate::spec::AtomicData::Struct { size } => random_bytes(size, dist),
                    crate::spec::AtomicData::Bytes { min, max, elem_size } => {
                        let room = graph.data_available();
                        let elems = mutator.gen_num_array_elems(
                            elem_size,
                            min,
                            max,
                            if room >= 2 {
                                room - 2
                            } else {
                                0
                            },
                            dist,
                        );
                        proof {
                            assert(min * elem_size <= max * elem_size <= 0xffff)
                                by (nonlinear_arith)
                                requires
                                    min <= max,
                                    elem_size > 0,
                                    max * elem_size <= 0xffff,
                            ;
                        }
                        let fallback = min * elem_size;
                        proof {
                            assert(min <= (room - 2) as int / (elem_size as int))
                                by (nonlinear_arith)
                                requires
                                    elem_size > 0,
                                    room >= 2,
                                    2 + min * elem_size <= room,
                            ;
                        }
                        let payload: usize = match elems.checked_mul(elem_size) {
                            Some(p) => {
                                if p <= 0xffff && room >= 2 && p <= room - 2 {
                                    proof {
                                        assert(min * elem_size <= elems * elem_size)
                                            by (nonlinear_arith)
                                            requires
                                                elem_size > 0,
                                                min <= elems,
                                        ;
                                    }
                                    p
                                } else {
                                    fallback
                                }
                            },
                            None => fallback,
                        };
                        let (b0, b1) = crate::bytes::write_le16(payload as u16);
                        let mut bytes: Vec<u8> = Vec::new();
                        bytes.push(b0);
                        bytes.push(b1);
                        let body = random_bytes(payload, dist);
                        let mut bi: usize = 0;
                        while bi < body.len()
                            invariant
                                bi <= body@.len(),
                                bytes@.len() == 2 + bi,
                            decreases body@.len() - bi,
                        {
                            bytes.push(body[bi]);
                            bi = bi + 1;
                        }
                        bytes
                    },
                }
            },
            None => Vec::new(),
        };
        proof {
            if nspec.data is Some {
                let aid = nspec.data->0;
                assert(self.spec.data_specs@[aid.0 as int].atomic_type.wf());
            }
            assert(min_span <= span@.len() <= 0xffff + 2);
        }
        let ghost inputs = nspec.inputs@;
        let ghost passthroughs = nspec.passthroughs@;
        let ghost outputs = nspec.outputs@;
        let r0 = graph.append_op(node.as_u16());
        proof {
            assert(r0 is Some);
            assert(graph.ops_view().take(old_ops.len() as int) =~= old_ops);
        }
        let mut i: usize = 0;
        while i < n_in
            invariant
                self.wf(),
                self.spec == old(self).spec,
                dist.wf(),
                i <= n_in,
                forall|t: u16|
                    self.state.avail_count(t) + crate::spec::count_vt(
                        inputs.take(i as int),
                        crate::newtypes::ValueTypeID(t),
                    ) >= crate::spec::required_count(
                        inputs,
                        passthroughs,
                        crate::newtypes::ValueTypeID(t),
                    ),
                forall|j: int|
                    0 <= j < outputs.len() ==> self.state.avail_room_for(
                        (#[trigger] outputs[j]).0,
                        n_out as nat,
                    ),
                n_out == outputs.len(),
                graph.ops_view().len() == old_ops.len() + 1 + i,
                graph.ops_view().take(old_ops.len() as int) == old_ops,
                graph.ops_view()[old_ops.len() as int] == node.0,
                graph.data_view() == old_data,
                graph.spec_ops_room() + 1 + i >= old(graph).spec_ops_room(),
                graph.spec_data_room() >= old(graph).spec_data_room(),
            decreases n_in - i,
        {
            let vt = nspec.inputs[i];
            proof {
                crate::spec::lemma_count_vt_take_step(inputs, i as int);
                lemma_count_vt_take_le(inputs, i + 1, vt);
                assert(self.state.avail_count(vt.0) >= 1);
            }
            let ghost pre_state = self.state;
            let ghost pre_states = self.state.states@;
            let mut st = self.state.states[vt.0 as usize].clone();
            let id = st.take_random_input(dist);
            self.state.states.set(vt.0 as usize, st);
            let r = graph.append_op(id);
            proof {
                assert(r is Some);
                assert(graph.ops_view().take(old_ops.len() as int) =~= old_ops);
                crate::spec::lemma_count_vt_take_step(inputs, i as int);
                assert forall|t: u16|
                    self.state.avail_count(t) + crate::spec::count_vt(
                        inputs.take(i + 1),
                        crate::newtypes::ValueTypeID(t),
                    ) >= crate::spec::required_count(
                        inputs,
                        passthroughs,
                        crate::newtypes::ValueTypeID(t),
                    ) by {
                    assert(pre_state.avail_count(t) + crate::spec::count_vt(
                        inputs.take(i as int),
                        crate::newtypes::ValueTypeID(t),
                    ) >= crate::spec::required_count(
                        inputs,
                        passthroughs,
                        crate::newtypes::ValueTypeID(t),
                    ));
                    if t == vt.0 {
                        assert(crate::newtypes::ValueTypeID(t) == vt);
                        assert(self.state.avail_count(t) == pre_state.avail_count(t) - 1);
                    } else {
                        if (t as int) < pre_states.len() {
                            assert(self.state.states@[t as int] == pre_states[t as int]);
                        }
                        assert(self.state.avail_count(t) == pre_state.avail_count(t));
                    }
                }
            }
            i = i + 1;
        }
        proof {
            assert(inputs.take(n_in as int) =~= inputs);
        }
        let mut p: usize = 0;
        while p < n_pass
            invariant
                self.wf(),
                self.spec == old(self).spec,
                dist.wf(),
                p <= n_pass,
                forall|t: u16|
                    self.state.avail_count(t) + crate::spec::count_vt(
                        inputs,
                        crate::newtypes::ValueTypeID(t),
                    ) >= crate::spec::required_count(
                        inputs,
                        passthroughs,
                        crate::newtypes::ValueTypeID(t),
                    ),
                forall|j: int|
                    0 <= j < outputs.len() ==> self.state.avail_room_for(
                        (#[trigger] outputs[j]).0,
                        n_out as nat,
                    ),
                n_out == outputs.len(),
                graph.ops_view().len() == old_ops.len() + 1 + n_in + p,
                graph.ops_view().take(old_ops.len() as int) == old_ops,
                graph.ops_view()[old_ops.len() as int] == node.0,
                graph.data_view() == old_data,
                graph.spec_ops_room() + 1 + n_in + p >= old(graph).spec_ops_room(),
                graph.spec_data_room() >= old(graph).spec_data_room(),
            decreases n_pass - p,
        {
            let vt = nspec.passthroughs[p];
            proof {
                assert(passthroughs.contains(vt));
                assert(self.state.avail_count(vt.0) >= 1);
            }
            let id = self.state.states[vt.0 as usize].get_random_input(dist);
            let r = graph.append_op(id);
            proof {
                assert(r is Some);
                assert(graph.ops_view().take(old_ops.len() as int) =~= old_ops);
            }
            p = p + 1;
        }
        let mut q: usize = 0;
        while q < n_out
            invariant
                self.wf(),
                self.spec == old(self).spec,
                dist.wf(),
                q <= n_out,
                forall|j: int|
                    0 <= j < outputs.len() ==> self.state.avail_room_for(
                        (#[trigger] outputs[j]).0,
                        (n_out - q) as nat,
                    ),
                n_out == outputs.len(),
                graph.ops_view().len() == old_ops.len() + 1 + n_in + n_pass + q,
                graph.ops_view().take(old_ops.len() as int) == old_ops,
                graph.ops_view()[old_ops.len() as int] == node.0,
                graph.data_view() == old_data,
                graph.spec_ops_room() + 1 + n_in + n_pass + q >= old(graph).spec_ops_room(),
                graph.spec_data_room() >= old(graph).spec_data_room(),
            decreases n_out - q,
        {
            let vt = nspec.outputs[q];
            let mut st = self.state.states[vt.0 as usize].clone();
            let id = st.insert_new_id();
            self.state.states.set(vt.0 as usize, st);
            let r = graph.append_op(id);
            proof {
                assert(r is Some);
                assert(graph.ops_view().take(old_ops.len() as int) =~= old_ops);
                assert forall|j: int|
                    0 <= j < outputs.len() implies self.state.avail_room_for(
                    (#[trigger] outputs[j]).0,
                    (n_out - (q + 1)) as nat,
                ) by {
                    assert(self.state.avail_room_for(outputs[j].0, (n_out - q) as nat)
                        || outputs[j].0 == vt.0);
                }
            }
            q = q + 1;
        }
        let rd = graph.append_data(span.as_slice());
        proof {
            assert(rd is Some);
            assert(graph.ops_view().take(old_ops.len() as int) =~= old_ops);
            assert(graph.data_view().take(old_data.len() as int) =~= old_data);
        }
        Ok(())
    }

    /// Append up to `n` random nodes, stopping early once the storage can
    /// no longer fit the largest node.  The only failure is that no
    /// generatable node type was constructible when one had to be picked —
    /// in particular, when that already holds on entry (and the storage is
    /// not full), the call fails.
    #[verifier::loop_isolation(false)]
    pub fn append_random<S: GraphStorage>(
        &mut self,
        n: usize,
        mutator: &crate::primitive::PrimitiveMutator,
        graph: &mut S,
        dist: &mut Distributions,
    ) -> (r: Result<(), GraphError>)
        requires
            old(self).wf(),
            old(dist).wf(),
        ensures
            final(self).wf(),
            final(self).spec == old(self).spec,
            final(dist).wf(),
            final(graph).ops_view().len() >= old(graph).ops_view().len(),
            final(graph).data_view().len() >= old(graph).data_view().len(),
            final(graph).ops_view().take(old(graph).ops_view().len() as int) == old(graph).ops_view(),
            final(graph).data_view().take(old(graph).data_view().len() as int) == old(graph).data_view(),
            r matches Err(e) ==> e == GraphError::InvalidSpecs,
            n > 0 && !(old(self).spec.max_data >= old(graph).spec_data_room() || old(self).spec.max_ops >= old(graph).spec_ops_room()) && !old(self).spec_some_constructible()
                ==> r is Err,
    {
        let ghost old_ops = graph.ops_view();
        let ghost old_data = graph.data_view();
        proof {
            assert(old_ops.take(old_ops.len() as int) =~= old_ops);
            assert(old_data.take(old_data.len() as int) =~= old_data);
        }
        let mut i: usize = 0;
        while i < n
            invariant
                self.wf(),
                self.spec == old(self).spec,
                dist.wf(),
                i <= n,
                graph.ops_view().len() >= old_ops.len(),
                graph.data_view().len() >= old_data.len(),
                graph.ops_view().take(old_ops.len() as int) == old_ops,
                graph.data_view().take(old_data.len() as int) == old_data,
                i == 0 ==> *self == *old(self) && *graph == *old(graph),
                i > 0 ==> (old(self).spec.max_data >= old(graph).spec_data_room() || old(self).spec.max_ops >= old(graph).spec_ops_room() || old(self).spec_some_constructible()),
            decreases n - i,
        {
            if self.is_full(graph) {
                return Ok(());
            }
            let ghost mid_ops = graph.ops_view();
            let ghost mid_data = graph.data_view();
            let n_type = match self.pick_available_type(dist) {
                Ok(t) => t,
                Err(e) => {
                    return Err(e);
                },
            };
            match self.append_random_node(n_type, mutator, graph, dist) {
                Ok(_) => {},
                Err(e) => {
                    return Err(e);
                },
            }
            proof {
                assert(graph.ops_view().take(mid_ops.len() as int).take(old_ops.len() as int)
                    =~= graph.ops_view().take(old_ops.len() as int));
                assert(graph.data_view().take(mid_data.len() as int).take(old_data.len() as int)
                    =~= graph.data_view().take(old_data.len() as int));
            }
            i = i + 1;
        }
        Ok(())
    }

    /// Rebuild `frag` into the storage with the node at `index` dropped,
    /// renaming everything afresh.
    #[verifier::loop_isolation(false)]
    pub fn drop_node_at<S: GraphStorage>(
        &mut self,
        frag: &VecGraph,
        index: usize,
        graph: &mut S,
        dist: &mut Distributions,
    )
        requires
            old(self).wf(),
            old(dist).wf(),
        ensures
            final(self).wf(),
            final(self).spec == old(self).spec,
            final(dist).wf(),
    {
        graph.clear();
        self.state.clear();
        match frag.nodes(&self.spec) {
            Some(nodes) => {
                let mut i: usize = 0;
                while i < nodes.len()
                    invariant
                        self.wf(),
                        self.spec == old(self).spec,
                        dist.wf(),
                    decreases nodes@.len() - i,
                {
                    if i != index {
                        let _ = self.append_node(&nodes[i], graph, dist);
                    }
                    i = i + 1;
                }
            },
            None => {},
        }
    }

    /// Drop nodes from last to first, keeping each reduction only when the
    /// tester still accepts the rebuilt graph: the result is the source
    /// itself when the tester never accepted anything, and otherwise the
    /// contents of a storage state the tester accepted.  Deliberately
    /// quadratic: minimization runs rarely and correctness beats speed
    /// here.
    #[verifier::loop_isolation(false)]
    pub fn minimize<S: GraphStorage, F: Fn(&S, &GraphSpec) -> bool>(
        &mut self,
        frag: &VecGraph,
        storage: &mut S,
        dist: &mut Distributions,
        tester: F,
    ) -> (r: VecGraph)
        requires
            old(self).wf(),
            old(dist).wf(),
            forall|s: &S, sp: &GraphSpec| #[trigger] call_requires(tester, (s, sp)),
        ensures
            final(self).wf(),
            final(self).spec == old(self).spec,
            final(dist).wf(),
            (r.ops@ == frag.ops@ && r.data@ == frag.data@) || (exists|w: S|
                call_ensures(tester, (&w, &final(self).spec), true) && r.ops@
                    == #[trigger] w.ops_view() && r.data@ == w.data_view()),
    {
        let mut min_graph = frag.clone();
        let num_nodes = frag.node_len(&self.spec);
        let mut step: usize = 0;
        while step < num_nodes
            invariant
                self.wf(),
                self.spec == old(self).spec,
                dist.wf(),
                forall|s: &S, sp: &GraphSpec| #[trigger] call_requires(tester, (s, sp)),
                (min_graph.ops@ == frag.ops@ && min_graph.data@ == frag.data@) || (exists|w: S|
                    call_ensures(tester, (&w, &self.spec), true) && min_graph.ops@
                        == #[trigger] w.ops_view() && min_graph.data@ == w.data_view()),
            decreases num_nodes - step,
        {
            let idx = num_nodes - 1 - step;
            self.drop_node_at(&min_graph, idx, storage, dist);
            if tester(&storage, &self.spec) {
                min_graph = storage.as_vec_graph();
                proof {
                    let w = *storage;
                    assert(call_ensures(tester, (&w, &self.spec), true) && min_graph.ops@
                        == w.ops_view() && min_graph.data@ == w.data_view());
                }
            }
            step = step + 1;
        }
        min_graph
    }
}

/// A vector of `n` random bytes.
fn random_bytes(n: usize, dist: &mut Distributions) -> (r: Vec<u8>)
    ensures
        r@.len() == n,
        final(dist).wf() == old(dist).wf(),
        final(dist).dict == old(dist).dict,
{
    let mut out: Vec<u8> = Vec::new();
    let mut i: usize = 0;
    while i < n
        invariant
            i <= n,
            out@.len() == i,
            dist.wf() == old(dist).wf(),
            dist.dict == old(dist).dict,
        decreases n - i,
    {
        let b = dist.gen_u8();
        out.push(b);
        i = i + 1;
    }
    out
}

} // verus!
