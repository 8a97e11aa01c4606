//! Classification of one target execution.

use vstd::prelude::*;

verus! {

/// How one execution of the target ended.  Crash, timeout, invalid write
/// and memory faults are first-class outcomes, not errors; only an
/// unreadable result block counts as a fuzzer-side error.
#[derive(Clone, Debug)]
pub enum ExitReason {
    Normal(i32),
    Crash(Vec<u8>),
    Asan,
    Timeout,
    InvalidWriteToPayload(Vec<u8>),
    FuzzerError,
}

impl ExitReason {
    /// The corpus-directory name for this outcome.
    pub fn name(&self) -> (r: &'static str)
        ensures
            r@ == self.spec_name(),
    {
        match *self {
            ExitReason::Normal(_) => "normal",
            ExitReason::Crash(_) => "crash",
            ExitReason::Asan => "kasan",
            ExitReason::Timeout => "timeout",
            ExitReason::InvalidWriteToPayload(_) => "invalid_write_to_payload",
            ExitReason::FuzzerError => "fuzzer_error",
        }
    }

    pub open spec fn spec_name(&self) -> Seq<char> {
        match *self {
            ExitReason::Normal(_) => "normal"@,
            ExitReason::Crash(_) => "crash"@,
            ExitReason::Asan => "kasan"@,
            ExitReason::Timeout => "timeout"@,
            ExitReason::InvalidWriteToPayload(_) => "invalid_write_to_payload"@,
            ExitReason::FuzzerError => "fuzzer_error"@,
        }
    }

    pub fn is_timeout(&self) -> (r: bool)
        ensures
            r == (self is Timeout),
    {
        match *self {
            ExitReason::Timeout => true,
            _ => false,
        }
    }

    pub fn is_crash(&self) -> (r: bool)
        ensures
            r == (self is Crash),
    {
        match *self {
            ExitReason::Crash(_) => true,
            _ => false,
        }
    }

    pub fn is_normal(&self) -> (r: bool)
        ensures
            r == (self is Normal),
    {
        match *self {
            ExitReason::Normal(_) => true,
            _ => false,
        }
    }
}

/// What one execution reported: the operation count actually exercised and
/// the classified outcome.
#[derive(Clone, Debug)]
pub struct TestInfo {
    pub ops_used: u32,
    pub exitreason: ExitReason,
}

/// Classify a finished execution from the result flags, in strict priority
/// order: crash, then invalid write to the payload, then timeout, then
/// memory fault, then success; anything else is a fuzzer-side error.
pub fn classify_result(
    crash_found: u8,
    payload_write_attempt_found: u8,
    timeout_found: u8,
    asan_found: u8,
    success: u8,
    misc: &Vec<u8>,
    ops_used: u32,
) -> (r: TestInfo)
    ensures
        r.ops_used == ops_used,
        crash_found != 0 ==> (r.exitreason matches ExitReason::Crash(d) && d@ == misc@),
        crash_found == 0 && payload_write_attempt_found != 0
            ==> (r.exitreason matches ExitReason::InvalidWriteToPayload(d) && d@ == misc@),
        crash_found == 0 && payload_write_attempt_found == 0 && timeout_found != 0
            ==> r.exitreason is Timeout,
        crash_found == 0 && payload_write_attempt_found == 0 && timeout_found == 0 && asan_found
            != 0 ==> r.exitreason is Asan,
        crash_found == 0 && payload_write_attempt_found == 0 && timeout_found == 0 && asan_found
            == 0 && success != 0 ==> r.exitreason == ExitReason::Normal(0),
        crash_found == 0 && payload_write_attempt_found == 0 && timeout_found == 0 && asan_found
            == 0 && success == 0 ==> r.exitreason is FuzzerError,
{
    let exitreason = if crash_found != 0 {
        ExitReason::Crash(misc.clone())
    } else if payload_write_attempt_found != 0 {
        ExitReason::InvalidWriteToPayload(misc.clone())
    } else if timeout_found != 0 {
        ExitReason::Timeout
    } else if asan_found != 0 {
        ExitReason::Asan
    } else if success != 0 {
        ExitReason::Normal(0)
    } else {
        ExitReason::FuzzerError
    };
    TestInfo { ops_used, exitreason }
}

} // verus!
