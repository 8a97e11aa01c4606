//! The shared feedback region's fixed layout and the handshake decisions.
//!
//! The auxiliary buffer is one page of shared memory with a fixed layout:
//! a header (magic and version, validated once), a capability block, a
//! config block the host writes, a result block the target writes, and a
//! variable-length misc block for diagnostics.  All offset arithmetic
//! lives here; the process plumbing only hands whole pages in and out.

use vstd::prelude::*;

use crate::bytes::{le16_val, le32_val, le64_val};

verus! {

/// Total size of the auxiliary buffer.
pub const AUX_BUFFER_SIZE: usize = 4096;

/// The header's magic value.
pub const AUX_MAGIC: u64 = 0x54502d554d4551;

/// The protocol version this layout describes.
pub const QEMU_PT_VERSION: u16 = 1;

/// The layout hash the header must carry.
pub const AUX_HEADER_HASH: u16 = 81;

/// Size of the header block.
pub const HEADER_SIZE: usize = 128;

/// Size of the capability block.
pub const CAP_SIZE: usize = 256;

/// Size of the config block.
pub const CONFIG_SIZE: usize = 512;

/// Size of the result block.
pub const STATE_SIZE: usize = 512;

/// Offset of the config block.
pub const CONFIG_OFFSET: usize = 384;

/// Offset of the result block.
pub const STATE_OFFSET: usize = 896;

/// Offset of the misc block.
pub const MISC_OFFSET: usize = 1408;

/// The target's boot progression, reported in the result block's first
/// byte; the last stage means the repeating execute cycle may begin.
pub const TARGET_STATE_BOOTING: u8 = 0;

/// Loader stage one.
pub const TARGET_STATE_LOADER1: u8 = 1;

/// Loader stage two.
pub const TARGET_STATE_LOADER2: u8 = 2;

/// Ready to fuzz.
pub const TARGET_STATE_READY: u8 = 3;

/// Whether the buffer's header carries the expected magic, version and
/// layout hash; nothing else of the buffer may be trusted before this.
pub fn validate_header(bytes: &[u8]) -> (r: bool)
    requires
        bytes@.len() >= 12,
    ensures
        r == (le64_val(bytes@.subrange(0, 8)) == AUX_MAGIC && le16_val(bytes@[8], bytes@[9])
            == QEMU_PT_VERSION && le16_val(bytes@[10], bytes@[11]) == AUX_HEADER_HASH),
{
    let magic = crate::bytes::read_le64(bytes, 0);
    let version = crate::bytes::read_le16(bytes[8], bytes[9]);
    let hash = crate::bytes::read_le16(bytes[10], bytes[11]);
    magic == AUX_MAGIC && version == QEMU_PT_VERSION && hash == AUX_HEADER_HASH
}

/// The result block, decoded into plain fields.
#[derive(Clone, Copy, Debug)]
pub struct AuxResult {
    pub state: u8,
    pub tmp_snapshot_created: u8,
    pub bb_coverage: u32,
    pub hprintf: u8,
    pub exec_done: u8,
    pub crash_found: u8,
    pub asan_found: u8,
    pub timeout_found: u8,
    pub reloaded: u8,
    pub pt_overflow: u8,
    pub runtime_sec: u8,
    pub page_not_found: u8,
    pub success: u8,
    pub runtime_usec: u32,
    pub page_not_found_addr: u64,
    pub dirty_pages: u32,
    pub pt_trace_size: u32,
    pub payload_write_attempt_found: u8,
}

/// Decode the result block from the whole auxiliary page.  Every field
/// sits at its fixed offset within the block.
pub fn parse_result(bytes: &[u8]) -> (r: AuxResult)
    requires
        bytes@.len() >= AUX_BUFFER_SIZE,
    ensures
        r.state == bytes@[STATE_OFFSET as int],
        r.tmp_snapshot_created == bytes@[STATE_OFFSET + 1],
        r.bb_coverage == le32_val(bytes@.subrange(STATE_OFFSET + 4, STATE_OFFSET + 8)),
        r.hprintf == bytes@[STATE_OFFSET + 10],
        r.exec_done == bytes@[STATE_OFFSET + 11],
        r.crash_found == bytes@[STATE_OFFSET + 12],
        r.asan_found == bytes@[STATE_OFFSET + 13],
        r.timeout_found == bytes@[STATE_OFFSET + 14],
        r.reloaded == bytes@[STATE_OFFSET + 15],
        r.pt_overflow == bytes@[STATE_OFFSET + 16],
        r.runtime_sec == bytes@[STATE_OFFSET + 17],
        r.page_not_found == bytes@[STATE_OFFSET + 18],
        r.success == bytes@[STATE_OFFSET + 19],
        r.runtime_usec == le32_val(bytes@.subrange(STATE_OFFSET + 20, STATE_OFFSET + 24)),
        r.page_not_found_addr == le64_val(bytes@.subrange(STATE_OFFSET + 24, STATE_OFFSET + 32)),
        r.dirty_pages == le32_val(bytes@.subrange(STATE_OFFSET + 32, STATE_OFFSET + 36)),
        r.pt_trace_size == le32_val(bytes@.subrange(STATE_OFFSET + 36, STATE_OFFSET + 40)),
        r.payload_write_attempt_found == bytes@[STATE_OFFSET + 40],
{
    AuxResult {
        state: bytes[STATE_OFFSET],
        tmp_snapshot_created: bytes[STATE_OFFSET + 1],
        bb_coverage: crate::bytes::read_le32(bytes, STATE_OFFSET + 4),
        hprintf: bytes[STATE_OFFSET + 10],
        exec_done: bytes[STATE_OFFSET + 11],
        crash_found: bytes[STATE_OFFSET + 12],
        asan_found: bytes[STATE_OFFSET + 13],
        timeout_found: bytes[STATE_OFFSET + 14],
        reloaded: bytes[STATE_OFFSET + 15],
        pt_overflow: bytes[STATE_OFFSET + 16],
        runtime_sec: bytes[STATE_OFFSET + 17],
        page_not_found: bytes[STATE_OFFSET + 18],
        success: bytes[STATE_OFFSET + 19],
        runtime_usec: crate::bytes::read_le32(bytes, STATE_OFFSET + 20),
        page_not_found_addr: crate::bytes::read_le64(bytes, STATE_OFFSET + 24),
        dirty_pages: crate::bytes::read_le32(bytes, STATE_OFFSET + 32),
        pt_trace_size: crate::bytes::read_le32(bytes, STATE_OFFSET + 36),
        payload_write_attempt_found: bytes[STATE_OFFSET + 40],
    }
}

/// The misc block's payload: its length prefix capped at the block's
/// capacity, then that many bytes.
pub fn parse_misc(bytes: &[u8]) -> (r: Vec<u8>)
    requires
        bytes@.len() >= AUX_BUFFER_SIZE,
    ensures
        r@.len() <= AUX_BUFFER_SIZE - MISC_OFFSET - 2,
{
    let len16 = crate::bytes::read_le16(bytes[MISC_OFFSET], bytes[MISC_OFFSET + 1]);
    let cap = AUX_BUFFER_SIZE - MISC_OFFSET - 2;
    let len = if (len16 as usize) < cap {
        len16 as usize
    } else {
        cap
    };
    let mut out: Vec<u8> = Vec::new();
    let mut i: usize = 0;
    while i < len
        invariant
            i <= len,
            len <= AUX_BUFFER_SIZE - MISC_OFFSET - 2,
            bytes@.len() >= AUX_BUFFER_SIZE,
            out@.len() == i,
        decreases len - i,
    {
        out.push(bytes[MISC_OFFSET + 2 + i]);
        i = i + 1;
    }
    out
}

/// Whether the target reports itself ready to fuzz.
pub fn target_ready(state: u8) -> (r: bool)
    ensures
        r == (state == TARGET_STATE_READY),
{
    state == TARGET_STATE_READY
}

/// Whether a snapshot-creation request took effect: the flag must have
/// gone from unset to set, nothing else counts.
pub fn snapshot_created(tmp_snapshot_created: u8) -> (r: bool)
    ensures
        r == (tmp_snapshot_created == 1),
{
    tmp_snapshot_created == 1
}

/// What the execution loop does after one handshake round.
#[derive(Clone, Copy, Debug, PartialEq, Eq, Structural)]
pub enum HandshakeStep {
    /// Diagnostic text arrived: log the misc block and run another round.
    LogAndContinue,
    /// The execution finished with a classifiable outcome.
    Done,
    /// The same page faulted twice in a row: abandon this attempt.
    AbandonRun,
    /// A page fault at a new address: reconfigure the page dump and run
    /// another round.
    ReconfigurePage(u64),
    /// Nothing decisive yet: run another round.
    KeepWaiting,
}

/// Decide the execution loop's next move from one result block, in the
/// fixed priority order: diagnostics first, then any final outcome, then
/// the page-fault retry rule — a first fault (or a fault at a fresh
/// address) reconfigures and retries, a second fault at the same address
/// abandons the run.
pub fn handshake_step(result: &AuxResult, old_address: u64) -> (r: HandshakeStep)
    ensures
        result.hprintf != 0 ==> r is LogAndContinue,
        result.hprintf == 0 && (result.success != 0 || result.crash_found != 0
            || result.asan_found != 0 || result.payload_write_attempt_found != 0) ==> r is Done,
        result.hprintf == 0 && result.success == 0 && result.crash_found == 0 && result.asan_found
            == 0 && result.payload_write_attempt_found == 0 && result.page_not_found != 0 ==> if result.page_not_found_addr == old_address {
            r is AbandonRun
        } else {
            r == HandshakeStep::ReconfigurePage(result.page_not_found_addr)
        },
        result.hprintf == 0 && result.success == 0 && result.crash_found == 0 && result.asan_found
            == 0 && result.payload_write_attempt_found == 0 && result.page_not_found == 0 ==> r
            is KeepWaiting,
{
    if result.hprintf != 0 {
        HandshakeStep::LogAndContinue
    } else if result.success != 0 || result.crash_found != 0 || result.asan_found != 0
        || result.payload_write_attempt_found != 0 {
        HandshakeStep::Done
    } else if result.page_not_found != 0 {
        if result.page_not_found_addr == old_address {
            HandshakeStep::AbandonRun
        } else {
            HandshakeStep::ReconfigurePage(result.page_not_found_addr)
        }
    } else {
        HandshakeStep::KeepWaiting
    }
}

/// Size of the shared feedback page that follows the coverage bitmap.
pub const FEEDBACK_SIZE: usize = 4096;

/// Offset of the interpreter's executed-operation counter in the feedback
/// page.
pub const FEEDBACK_EXEC_OPS_OFFSET: usize = 0;

/// Offset of the value-feedback maximum buffer in the feedback page.
pub const FEEDBACK_VALUE_OFFSET: usize = 2048;

/// Size of the value-feedback maximum buffer.
pub const FEEDBACK_VALUE_SIZE: usize = 2048;

/// The number of operations the target actually executed, from the
/// feedback page.
pub fn parse_executed_ops(bytes: &[u8]) -> (r: u32)
    requires
        bytes@.len() >= FEEDBACK_SIZE,
    ensures
        r == le32_val(
            bytes@.subrange(
                FEEDBACK_EXEC_OPS_OFFSET as int,
                FEEDBACK_EXEC_OPS_OFFSET + 4,
            ),
        ),
{
    crate::bytes::read_le32(bytes, FEEDBACK_EXEC_OPS_OFFSET)
}

} // verus!
