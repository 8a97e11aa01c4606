//! The deterministic calibration sweep's stability protocol.
//!
//! VM-level execution can be nondeterministic, so every measurement is
//! re-executed until the coverage digest repeats often enough in a row;
//! only then is its dedup index trusted.  A measurement that never
//! stabilizes within the attempt budget is still recorded, flagged
//! unstable.

use vstd::prelude::*;

verus! {

/// How many identical digests in a row make a measurement stable.
pub const MIN_STABLE_RUNS: usize = 4;

/// How many executions one measurement may take at most.
pub const MAX_ATTEMPTS: usize = 10;

/// The running state of one measurement's stability loop.
pub struct StabilityTracker {
    /// Digest of the previous execution, if any.
    pub last_hash: Option<u64>,
    /// Length of the current run of identical digests.
    pub stable_count: usize,
    /// Executions spent so far.
    pub attempts: usize,
}

/// The tracker after observing one more digest: the run extends when the
/// digest repeats and restarts at one otherwise.
pub open spec fn observe_spec(t: StabilityTracker, hash: u64) -> StabilityTracker {
    StabilityTracker {
        last_hash: Some(hash),
        stable_count: if t.last_hash == Some(hash) {
            (t.stable_count + 1) as usize
        } else {
            1
        },
        attempts: (t.attempts + 1) as usize,
    }
}

/// The tracker after `n` observations of the same digest, starting fresh.
pub open spec fn observe_constant(n: nat, hash: u64) -> StabilityTracker
    decreases n,
{
    if n == 0 {
        StabilityTracker { last_hash: None, stable_count: 0, attempts: 0 }
    } else {
        observe_spec(observe_constant((n - 1) as nat, hash), hash)
    }
}

impl StabilityTracker {
    /// A fresh measurement: no digest seen, no attempts spent.
    pub fn new() -> (r: Self)
        ensures
            r.last_hash is None,
            r.stable_count == 0,
            r.attempts == 0,
    {
        StabilityTracker { last_hash: None, stable_count: 0, attempts: 0 }
    }

    /// Whether the measurement has stabilized.
    pub fn is_stable(&self) -> (r: bool)
        ensures
            r == (self.stable_count >= MIN_STABLE_RUNS),
    {
        self.stable_count >= MIN_STABLE_RUNS
    }

    /// Whether another execution may still be spent on it.
    pub fn attempts_left(&self) -> (r: bool)
        ensures
            r == (self.attempts < MAX_ATTEMPTS),
    {
        self.attempts < MAX_ATTEMPTS
    }

    /// Feed one execution's coverage digest; the result says whether the
    /// measurement is now stable.
    pub fn observe(&mut self, hash: u64) -> (r: bool)
        requires
            old(self).attempts < MAX_ATTEMPTS,
            old(self).stable_count < usize::MAX,
        ensures
            *final(self) == observe_spec(*old(self), hash),
            r == (final(self).stable_count >= MIN_STABLE_RUNS),
    {
        if self.last_hash == Some(hash) {
            self.stable_count = self.stable_count + 1;
        } else {
            self.stable_count = 1;
        }
        self.last_hash = Some(hash);
        self.attempts = self.attempts + 1;
        self.stable_count >= MIN_STABLE_RUNS
    }
}

/// Stability convergence: against an executor that always produces the
/// same coverage digest, the stability loop reports stable after exactly
/// the minimum consecutive-run threshold, using exactly that many
/// attempts — no earlier observation is stable, and the threshold-th one
/// is.
pub proof fn lemma_stability_convergence(n: nat, hash: u64)
    requires
        n <= MAX_ATTEMPTS,
    ensures
        observe_constant(n, hash).stable_count == n,
        observe_constant(n, hash).attempts == n,
        n > 0 ==> observe_constant(n, hash).last_hash == Some(hash),
        (observe_constant(n, hash).stable_count >= MIN_STABLE_RUNS) <==> n >= MIN_STABLE_RUNS,
    decreases n,
{
    if n > 0 {
        lemma_stability_convergence((n - 1) as nat, hash);
    }
}

/// One record of the calibration report: what one (node, offset, operator)
/// measurement produced.
#[derive(Clone, Debug)]
pub struct PacketCalibrationResult {
    /// Index of the node past the cut whose data byte was perturbed.
    pub packet_id: usize,
    /// Byte offset within that node's data span.
    pub offset: usize,
    /// Whether the digest stabilized within the attempt budget.
    pub stable: bool,
    /// Which perturbation ran; zero stands for the unmutated baseline.
    pub mutation_operator: u8,
    /// Dedup index of the coverage-only bitmap.
    pub cf_index: usize,
    /// Dedup index of the value-feedback buffer.
    pub vf_index: usize,
    /// Dedup index of the raw (counting) bitmap.
    pub cfc_index: usize,
}

impl PacketCalibrationResult {
    pub fn new(
        packet_id: usize,
        offset: usize,
        stable: bool,
        mutation_operator: u8,
        cf_index: usize,
        vf_index: usize,
        cfc_index: usize,
    ) -> (r: Self)
        ensures
            r.packet_id == packet_id,
            r.offset == offset,
            r.stable == stable,
            r.mutation_operator == mutation_operator,
            r.cf_index == cf_index,
            r.vf_index == vf_index,
            r.cfc_index == cfc_index,
    {
        PacketCalibrationResult {
            packet_id,
            offset,
            stable,
            mutation_operator,
            cf_index,
            vf_index,
            cfc_index,
        }
    }
}

} // verus!
