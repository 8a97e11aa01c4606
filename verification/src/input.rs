//! One retained test case: the graph, what it did, and how it was found.

use vstd::prelude::*;

use crate::bitmap::{Bitmap, StorageReason};
use crate::dict::CustomDict;
use crate::exitreason::ExitReason;
use crate::mutator::MutationStrategy;
use crate::storage::VecGraph;

verus! {

/// A corpus entry's position in the queue; the all-ones value marks an
/// entry not yet assigned one.
#[derive(Clone, Copy, Debug, PartialEq, Eq, Structural, Hash)]
pub struct InputID(pub usize);

impl InputID {
    pub fn new(a: usize) -> (r: Self)
        ensures
            r.0 == a,
    {
        InputID(a)
    }

    /// The not-yet-assigned marker.
    pub fn invalid() -> (r: Self)
        ensures
            r.0 == usize::MAX,
    {
        InputID(usize::MAX)
    }

    pub fn as_usize(&self) -> (r: usize)
        ensures
            r == self.0,
    {
        self.0
    }
}

/// What the corpus still owes this entry.
#[derive(Clone, Copy, Debug, PartialEq, Eq, Structural)]
pub enum InputState {
    Minimize,
    Havoc,
}

/// One retained test case.  Immutable once stored: the corpus is
/// append-only.
#[derive(Debug)]
pub struct Input {
    pub id: InputID,
    pub data: VecGraph,
    pub bitmap: Bitmap,
    pub exit_reason: ExitReason,
    pub ops_used: usize,
    /// Wall-clock handling time, in milliseconds.
    pub time_millis: u64,
    pub storage_reasons: Vec<StorageReason>,
    pub found_by: MutationStrategy,
    pub state: InputState,
    pub custom_dict: CustomDict,
    /// The snapshot cut its parent was being replayed under.
    pub parent_snapshot_position: usize,
    pub parent_id: InputID,
}

impl Input {
    pub fn new(
        data: VecGraph,
        found_by: MutationStrategy,
        storage_reasons: Vec<StorageReason>,
        bitmap: Bitmap,
        exit_reason: ExitReason,
        ops_used: usize,
        time_millis: u64,
    ) -> (r: Self)
        ensures
            r.id == InputID(usize::MAX),
            r.data == data,
            r.found_by == found_by,
            r.storage_reasons == storage_reasons,
            r.bitmap == bitmap,
            r.exit_reason == exit_reason,
            r.ops_used == ops_used,
            r.time_millis == time_millis,
            r.state is Minimize,
            r.custom_dict.groups@.len() == 0,
            r.parent_snapshot_position == 0,
            r.parent_id == InputID(usize::MAX),
    {
        Input {
            id: InputID::invalid(),
            data,
            bitmap,
            storage_reasons,
            exit_reason,
            time_millis,
            state: InputState::Minimize,
            found_by,
            ops_used,
            custom_dict: CustomDict::new(),
            parent_snapshot_position: 0,
            parent_id: InputID::invalid(),
        }
    }
}

} // verus!
