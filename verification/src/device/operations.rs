//! The plans of the destructive and read-only device operations: which bytes
//! each pass writes, in which chunks, with which pattern, and how a
//! read-back verification proceeds. Performing the I/O is left to the caller.

use crate::device::{StorageDevice};
use crate::text::{decimal, hex_byte, push_decimal, push_hex_byte};
use vstd::prelude::*;

verus! {

/// Chunk size of full-device writes (1 MiB).
pub const ERASE_BUFFER_SIZE: usize = 1048576;

/// Size of the zeroed regions a quick format writes (10 MiB).
pub const QUICK_FORMAT_BUFFER_SIZE: usize = 10485760;

/// Chunk size of the read-back verification (1 MiB).
pub const VERIFY_BUFFER_SIZE: usize = 1048576;

/// A full-device write of one byte pattern.
#[derive(Debug, Clone, Copy, PartialEq, Eq, Structural)]
pub struct ErasePlan {
    /// The byte written everywhere.
    pub pattern: u8,
    /// Number of bytes to write, from offset 0.
    pub total_bytes: u64,
}

/// Length of the chunk written at `current`: a full buffer, or what is left.
pub open spec fn chunk_len(total: nat, current: nat, buffer: nat) -> nat {
    if total - current < buffer {
        (total - current) as nat
    } else {
        buffer
    }
}

/// Offset reached after `k` chunks of an erase of `total` bytes.
pub open spec fn erase_position(total: nat, k: nat) -> nat {
    if k * (ERASE_BUFFER_SIZE as nat) < total {
        k * (ERASE_BUFFER_SIZE as nat)
    } else {
        total
    }
}

/// Number of chunks an erase of `total` bytes takes.
pub open spec fn erase_chunk_count(total: nat) -> nat {
    (total + (ERASE_BUFFER_SIZE as nat - 1) as nat) / (ERASE_BUFFER_SIZE as nat)
}

/// Erase the whole device with `pattern`.
pub fn erase_with_pattern(device: &StorageDevice, pattern: u8) -> (p: ErasePlan)
    ensures
        p.pattern == pattern,
        p.total_bytes == device.capacity,
{
    ErasePlan { pattern, total_bytes: device.capacity }
}

/// A low-level format: zero-fill the entire device.
pub fn low_level_format(device: &StorageDevice) -> (p: ErasePlan)
    ensures
        p.pattern == 0,
        p.total_bytes == device.capacity,
{
    erase_with_pattern(device, 0x00)
}

impl ErasePlan {
    /// Length of the next chunk to write when `current` bytes are written.
    pub fn next_chunk(&self, current: u64) -> (n: usize)
        requires
            current < self.total_bytes,
        ensures
            n as nat == chunk_len(self.total_bytes as nat, current as nat, ERASE_BUFFER_SIZE as nat),
            0 < n <= ERASE_BUFFER_SIZE,
    {
        let remaining = self.total_bytes - current;
        if remaining < ERASE_BUFFER_SIZE as u64 {
            remaining as usize
        } else {
            ERASE_BUFFER_SIZE
        }
    }

    /// The write buffer: `ERASE_BUFFER_SIZE` copies of the pattern.
    pub fn buffer(&self) -> (b: Vec<u8>)
        ensures
            b@.len() == ERASE_BUFFER_SIZE,
            forall|i: int| 0 <= i < b@.len() ==> b@[i] == self.pattern,
    {
        let mut b: Vec<u8> = Vec::with_capacity(ERASE_BUFFER_SIZE);
        let mut i: usize = 0;
        while i < ERASE_BUFFER_SIZE
            invariant
                i <= ERASE_BUFFER_SIZE,
                b@.len() == i,
                forall|j: int| 0 <= j < i ==> b@[j] == self.pattern,
            decreases ERASE_BUFFER_SIZE - i,
        {
            b.push(self.pattern);
            i = i + 1;
        }
        b
    }
}

/// An erase advances chunk by chunk, each chunk taking the device from the
/// `k`-th position to the next, and it has covered the whole device, no
/// byte more, after `erase_chunk_count(total)` chunks.
pub proof fn lemma_erase_covers_device(total: nat, k: nat)
    ensures
        erase_position(total, 0) == 0,
        erase_position(total, k) < total ==> erase_position(total, k) + chunk_len(
            total,
            erase_position(total, k),
            ERASE_BUFFER_SIZE as nat,
        ) == erase_position(total, k + 1),
        erase_position(total, k) <= erase_position(total, k + 1) <= total,
        erase_position(total, erase_chunk_count(total)) == total,
        erase_chunk_count(total) > 0 ==> erase_position(total, (erase_chunk_count(total) - 1) as nat) < total,
{
    let b = ERASE_BUFFER_SIZE as nat;
    assert((k + 1) * b == k * b + b) by (nonlinear_arith);
    let c = erase_chunk_count(total);
    assert(c * b >= total) by (nonlinear_arith)
        requires
            c == (total + (b - 1) as nat) / b,
            b == 1048576,
    ;
    if c > 0 {
        assert((c - 1) * b < total) by (nonlinear_arith)
            requires
                c == (total + (b - 1) as nat) / b,
                c > 0,
                b == 1048576,
        ;
    }
}

/// Offsets of the zeroed regions of a quick format: the start of the device,
/// and, when the device is larger than one region, the last region.
pub fn quick_format(device: &StorageDevice) -> (offsets: Vec<u64>)
    ensures
        device.capacity > QUICK_FORMAT_BUFFER_SIZE ==> offsets@ == seq![0u64, (device.capacity - QUICK_FORMAT_BUFFER_SIZE) as u64],
        device.capacity <= QUICK_FORMAT_BUFFER_SIZE ==> offsets@ == seq![0u64],
{
    let mut offsets: Vec<u64> = Vec::new();
    offsets.push(0);
    if device.capacity > QUICK_FORMAT_BUFFER_SIZE as u64 {
        offsets.push(device.capacity - QUICK_FORMAT_BUFFER_SIZE as u64);
    }
    assert(device.capacity > QUICK_FORMAT_BUFFER_SIZE ==> offsets@ =~= seq![0u64, (device.capacity - QUICK_FORMAT_BUFFER_SIZE) as u64]);
    assert(device.capacity <= QUICK_FORMAT_BUFFER_SIZE ==> offsets@ =~= seq![0u64]);
    offsets
}

/// The regions of a quick format lie inside the device when it is larger
/// than one region: the first starts the device, the last ends it.
pub proof fn lemma_quick_format_regions(capacity: u64)
    requires
        capacity > QUICK_FORMAT_BUFFER_SIZE,
    ensures
        0 + QUICK_FORMAT_BUFFER_SIZE <= capacity,
        (capacity - QUICK_FORMAT_BUFFER_SIZE) + QUICK_FORMAT_BUFFER_SIZE == capacity,
{
}

/// The pattern cycle of a secure erase.
pub open spec fn secure_erase_pattern_spec(pass: nat) -> u8 {
    let i = pass % 4;
    if i == 0 {
        0x00
    } else if i == 1 {
        0xFF
    } else if i == 2 {
        0xAA
    } else {
        0x55
    }
}

/// Byte pattern of pass `pass` (counted from 0): 0x00, 0xFF, 0xAA, 0x55, then
/// again from the start.
pub fn secure_erase_pattern(pass: u32) -> (b: u8)
    ensures
        b == secure_erase_pattern_spec(pass as nat),
{
    let patterns: [u8; 4] = [0x00, 0xFF, 0xAA, 0x55];
    patterns[(pass % 4) as usize]
}

/// A multi-pass secure erase of a whole device.
#[derive(Debug, Clone, Copy, PartialEq, Eq, Structural)]
pub struct SecureErasePlan {
    pub passes: u32,
    pub total_bytes: u64,
}

/// Secure erase of the whole device in `passes` passes.
pub fn secure_erase(device: &StorageDevice, passes: u32) -> (p: SecureErasePlan)
    ensures
        p.passes == passes,
        p.total_bytes == device.capacity,
{
    SecureErasePlan { passes, total_bytes: device.capacity }
}

/// Text announcing a pass: "Pass {n}/{passes}: Writing pattern 0x{XX}...".
pub open spec fn pass_banner_text(pass: u32, passes: u32, pattern: u8) -> Seq<char> {
    "Pass "@ + decimal(pass as nat + 1) + "/"@ + decimal(passes as nat) + ": Writing pattern 0x"@
        + hex_byte(pattern) + "..."@
}

/// Text closing a pass: "Pass {n} completed".
pub open spec fn pass_completed_text(pass: u32) -> Seq<char> {
    "Pass "@ + decimal(pass as nat + 1) + " completed"@
}

impl SecureErasePlan {
    /// The erase of pass `pass` (counted from 0).
    pub fn pass_plan(&self, pass: u32) -> (p: ErasePlan)
        requires
            pass < self.passes,
        ensures
            p.pattern == secure_erase_pattern_spec(pass as nat),
            p.total_bytes == self.total_bytes,
    {
        ErasePlan { pattern: secure_erase_pattern(pass), total_bytes: self.total_bytes }
    }

    /// Announcement of pass `pass` (counted from 0).
    pub fn pass_banner(&self, pass: u32) -> (s: String)
        requires
            pass < self.passes,
        ensures
            s@ == pass_banner_text(pass, self.passes, secure_erase_pattern_spec(pass as nat)),
    {
        let pattern = secure_erase_pattern(pass);
        let mut s = String::from_str("Pass ");
        push_decimal(&mut s, pass as u128 + 1);
        s.append("/");
        push_decimal(&mut s, self.passes as u128);
        s.append(": Writing pattern 0x");
        push_hex_byte(&mut s, pattern);
        s.append("...");
        assert(s@ =~= pass_banner_text(pass, self.passes, pattern));
        s
    }

    /// Closing message of pass `pass` (counted from 0).
    pub fn pass_completed(&self, pass: u32) -> (s: String)
        requires
            pass < self.passes,
        ensures
            s@ == pass_completed_text(pass),
    {
        let mut s = String::from_str("Pass ");
        push_decimal(&mut s, pass as u128 + 1);
        s.append(" completed");
        assert(s@ =~= pass_completed_text(pass));
        s
    }
}

/// Consecutive passes of a secure erase never write the same pattern, and
/// the first pass zero-fills.
pub proof fn lemma_secure_erase_patterns_alternate(pass: nat)
    ensures
        secure_erase_pattern_spec(0) == 0,
        secure_erase_pattern_spec(pass) != secure_erase_pattern_spec(pass + 1),
        secure_erase_pattern_spec(pass) == secure_erase_pattern_spec(pass + 4),
{
}

/// Result of one read during verification.
#[derive(Debug, Clone, Copy, PartialEq, Eq, Structural)]
pub enum ReadOutcome {
    /// The read returned this many bytes.
    Read(usize),
    /// The read failed.
    Failed,
}

/// What a verification does after a read.
#[derive(Debug, Clone, Copy, PartialEq, Eq, Structural)]
pub enum VerifyStep {
    /// Go on, with this many bytes read so far.
    Continue(u64),
    /// Stop: the device verified.
    Passed,
    /// Stop: a read failed.
    Failed,
}

/// Verification of a whole device by reading it back.
#[derive(Debug, Clone, Copy, PartialEq, Eq, Structural)]
pub struct VerifyPlan {
    pub total_bytes: u64,
}

/// Verify the whole device.
pub fn verify_device(device: &StorageDevice) -> (p: VerifyPlan)
    ensures
        p.total_bytes == device.capacity,
{
    VerifyPlan { total_bytes: device.capacity }
}

impl VerifyPlan {
    /// Length of the next read when `current` bytes are read: `None` when the
    /// whole device is read.
    pub fn next_read(&self, current: u64) -> (n: Option<usize>)
        ensures
            current >= self.total_bytes ==> n is None,
            current < self.total_bytes ==> n == Some(
                chunk_len(self.total_bytes as nat, current as nat, VERIFY_BUFFER_SIZE as nat) as usize,
            ),
    {
        if current >= self.total_bytes {
            return None;
        }
        let remaining = self.total_bytes - current;
        if remaining < VERIFY_BUFFER_SIZE as u64 {
            Some(remaining as usize)
        } else {
            Some(VERIFY_BUFFER_SIZE)
        }
    }

    /// The step after a read at `current`: a failed read fails the
    /// verification, and so does an empty read (the device ended before all
    /// its bytes were read); any other read advances by its length, and the
    /// verification passes once the whole device has been read.
    pub fn after_read(&self, current: u64, outcome: ReadOutcome) -> (step: VerifyStep)
        requires
            current < self.total_bytes,
            outcome matches ReadOutcome::Read(n) ==> n <= chunk_len(
                self.total_bytes as nat,
                current as nat,
                VERIFY_BUFFER_SIZE as nat,
            ),
        ensures
            step == verify_step(self.total_bytes as nat, current as nat, outcome),
            step == VerifyStep::Passed <==> (outcome matches ReadOutcome::Read(n) && current + n
                == self.total_bytes),
            step matches VerifyStep::Continue(c) ==> current < c < self.total_bytes,
    {
        match outcome {
            ReadOutcome::Failed => VerifyStep::Failed,
            ReadOutcome::Read(n) => {
                if n == 0 {
                    VerifyStep::Failed
                } else if current + n as u64 == self.total_bytes {
                    VerifyStep::Passed
                } else if current + (n as u64) < self.total_bytes {
                    VerifyStep::Continue(current + n as u64)
                } else {
                    VerifyStep::Failed
                }
            },
        }
    }
}

/// The step after a read of a verification of `total` bytes at `current`
/// (a read longer than what is left fails it).
pub open spec fn verify_step(total: nat, current: nat, outcome: ReadOutcome) -> VerifyStep {
    match outcome {
        ReadOutcome::Failed => VerifyStep::Failed,
        ReadOutcome::Read(n) => if n == 0 {
            VerifyStep::Failed
        } else if current + n == total {
            VerifyStep::Passed
        } else if current + n < total {
            VerifyStep::Continue((current + n) as u64)
        } else {
            VerifyStep::Failed
        },
    }
}

/// Where a run of reads from offset 0 leaves a verification of `total`
/// bytes: still reading at some offset, or stopped with a verdict. Reads
/// after a verdict change nothing.
pub open spec fn verify_run(total: nat, reads: Seq<ReadOutcome>) -> VerifyStep
    decreases reads.len(),
{
    if reads.len() == 0 {
        if total == 0 {
            VerifyStep::Passed
        } else {
            VerifyStep::Continue(0)
        }
    } else {
        match verify_run(total, reads.drop_last()) {
            VerifyStep::Continue(c) => verify_step(total, c as nat, reads.last()),
            other => other,
        }
    }
}

/// Bytes that a run of reads returned.
pub open spec fn bytes_read(reads: Seq<ReadOutcome>) -> nat
    decreases reads.len(),
{
    if reads.len() == 0 {
        0
    } else {
        bytes_read(reads.drop_last()) + match reads.last() {
            ReadOutcome::Read(n) => n as nat,
            ReadOutcome::Failed => 0,
        }
    }
}

/// A verification passes only when the whole device has been read: while it
/// is reading, the offset is the number of bytes read so far, stays below
/// the device size, and no read has failed or come back empty; the read that
/// makes it pass brings the bytes read to exactly the device size.
pub proof fn lemma_verify_passes_only_when_complete(total: nat, reads: Seq<ReadOutcome>)
    requires
        total < 0x1_0000_0000_0000_0000,
    ensures
        verify_run(total, reads) matches VerifyStep::Continue(c) ==> {
            &&& c == bytes_read(reads)
            &&& c < total
            &&& forall|i: int|
                0 <= i < reads.len() ==> #[trigger] reads[i] != ReadOutcome::Failed && reads[i]
                    != ReadOutcome::Read(0)
        },
        reads.len() == 0 && verify_run(total, reads) == VerifyStep::Passed ==> total == 0,
        reads.len() > 0 && verify_run(total, reads.drop_last()) is Continue && verify_run(
            total,
            reads,
        ) == VerifyStep::Passed ==> {
            &&& bytes_read(reads) == total
            &&& forall|i: int|
                0 <= i < reads.len() ==> #[trigger] reads[i] != ReadOutcome::Failed && reads[i]
                    != ReadOutcome::Read(0)
        },
    decreases reads.len(),
{
    if reads.len() > 0 {
        let prev = reads.drop_last();
        lemma_verify_passes_only_when_complete(total, prev);
        if let VerifyStep::Continue(c) = verify_run(total, prev) {
            let last = reads.last();
            assert forall|i: int| 0 <= i < prev.len() implies #[trigger] reads[i] == prev[i] by {}
            match last {
                ReadOutcome::Read(n) => {
                    assert(bytes_read(reads) == bytes_read(prev) + n);
                    if n > 0 && c + n < total {
                        assert(((c + n) as u64) as nat == c + n);
                        assert(verify_run(total, reads) == VerifyStep::Continue((c + n) as u64));
                        assert forall|i: int| 0 <= i < reads.len() implies #[trigger] reads[i]
                            != ReadOutcome::Failed && reads[i] != ReadOutcome::Read(0) by {
                            if i < prev.len() {
                                assert(reads[i] == prev[i]);
                            }
                        }
                    }
                },
                ReadOutcome::Failed => {},
            }
            assert(reads[reads.len() - 1] == last);
        }
    }
}

} // verus!
