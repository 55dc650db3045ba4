//! Per-trial bookkeeping: the outcome of a completion signal, the checksum
//! that guards downloaded data, the upload byte pattern, and the decoding of
//! the device's raw timestamp buffer.

use vstd::prelude::*;
use vstd::arithmetic::mul::lemma_mul_inequality;
use crate::errors::BenchError;

verus! {

/// One leg of a transfer.
#[derive(Clone, Copy, PartialEq, Eq, Structural, Debug)]
pub enum Direction {
    /// Host to device.
    Upload,
    /// Device-side copy.
    DeviceToDevice,
    /// Device to host.
    Download,
}

/// Position of a phase in the fixed order a trial executes its legs:
/// upload first, then the device-side copy, then the download. Results
/// indexed by it keep that order.
pub fn phase_index(d: &Direction) -> (i: usize)
    ensures
        d is Upload ==> i == 0,
        d is DeviceToDevice ==> i == 1,
        d is Download ==> i == 2,
{
    match d {
        Direction::Upload => 0,
        Direction::DeviceToDevice => 1,
        Direction::Download => 2,
    }
}

/// What the completion signal reported for one trial.
#[derive(Clone, Copy, PartialEq, Eq, Structural, Debug)]
pub enum TrialOutcome {
    /// The transfer completed; the timer measured this many nanoseconds from
    /// submission through the completion signal.
    Completed { elapsed_nanos: u64 },
    /// The completion signal reported failure. The trial is recorded as a
    /// zero duration and the sweep continues: a transient single-operation
    /// failure must not kill the run.
    SignalFailed,
}

/// Duration recorded for an outcome: the elapsed time on completion, zero on
/// a failed completion signal — never a silently wrong value.
pub open spec fn spec_outcome_duration(o: TrialOutcome) -> u64 {
    match o {
        TrialOutcome::Completed { elapsed_nanos } => elapsed_nanos,
        TrialOutcome::SignalFailed => 0,
    }
}

/// Reduces one trial's outcome to the duration that enters the statistics.
pub fn outcome_duration(o: &TrialOutcome) -> (d: u64)
    ensures
        d == spec_outcome_duration(*o),
{
    match o {
        TrialOutcome::Completed { elapsed_nanos } => *elapsed_nanos,
        TrialOutcome::SignalFailed => 0,
    }
}

/// Sum of the byte values of a buffer, as an unbounded integer.
pub open spec fn byte_sum(s: Seq<u8>) -> int
    decreases s.len(),
{
    if s.len() == 0 {
        0
    } else {
        byte_sum(s.drop_last()) + s.last()
    }
}

/// A buffer filled with one byte value sums to that value times its length.
pub proof fn lemma_constant_fill_checksum(s: Seq<u8>, b: u8)
    requires
        forall|i: int| 0 <= i < s.len() ==> s[i] == b,
    ensures
        byte_sum(s) == s.len() * b,
    decreases s.len(),
{
    if s.len() == 0 {
    } else {
        let rest = s.drop_last();
        assert(forall|i: int| 0 <= i < rest.len() ==> rest[i] == b);
        lemma_constant_fill_checksum(rest, b);
        assert(s.last() == b);
        assert(s.len() * b == (s.len() - 1) * b + b) by (nonlinear_arith);
    }
}

/// Checksum-style reduction over a download buffer: the sum of its byte
/// values as unsigned integers.
pub fn checksum(data: &Vec<u8>) -> (sum: u128)
    ensures
        sum as int == byte_sum(data@),
{
    let mut sum: u128 = 0;
    let mut i: usize = 0;
    proof {
        assert(data@.take(0) =~= Seq::<u8>::empty());
    }
    while i < data.len()
        invariant
            0 <= i <= data@.len(),
            sum as int == byte_sum(data@.take(i as int)),
            sum as int <= i as int * 255,
        decreases data@.len() - i,
    {
        proof {
            assert(data@.take(i as int + 1).drop_last() =~= data@.take(i as int));
            assert(data@.take(i as int + 1).last() == data@[i as int]);
        }
        sum = sum + data[i] as u128;
        i = i + 1;
    }
    proof {
        assert(data@.take(data@.len() as int) =~= data@);
    }
    sum
}

/// Pattern byte for a sweep iteration: the iteration index truncated to a
/// byte. Every byte of that iteration's upload buffer carries it.
pub open spec fn pattern_byte(iteration: int) -> u8 {
    (iteration % 256) as u8
}

/// Fills an upload buffer of `size` bytes with the iteration's pattern byte.
pub fn fill_pattern(iteration: usize, size: usize) -> (data: Vec<u8>)
    ensures
        data@.len() == size,
        forall|i: int| 0 <= i < size ==> data@[i] == pattern_byte(iteration as int),
{
    let b: u8 = (iteration % 256) as u8;
    let mut data: Vec<u8> = Vec::new();
    let mut i: usize = 0;
    while i < size
        invariant
            0 <= i <= size,
            b == pattern_byte(iteration as int),
            data@.len() == i,
            forall|j: int| 0 <= j < i ==> data@[j] == pattern_byte(iteration as int),
        decreases size - i,
    {
        data.push(b);
        i = i + 1;
    }
    data
}

/// Checksum expected of an intact download at `size` bytes on iteration
/// `iteration`: the pattern byte times the buffer length.
pub fn expected_checksum(iteration: usize, size: usize) -> (sum: u128)
    ensures
        sum as int == pattern_byte(iteration as int) as int * size as int,
{
    let b: u128 = (iteration % 256) as u128;
    proof {
        lemma_mul_inequality(b as int, 255, size as int);
    }
    b * (size as u128)
}

/// Checks a downloaded buffer against its expected checksum; with `verify`
/// unset nothing is checked. A mismatch is fatal — it indicates data
/// corruption, so the error identifies the size and both sums.
pub fn check_download(data: &Vec<u8>, expected: u128, verify: bool) -> (r: Result<(), BenchError>)
    ensures
        r is Ok <==> (!verify || byte_sum(data@) == expected as int),
        r matches Err(e) ==> e == (BenchError::VerificationMismatch {
            size: data@.len() as usize,
            expected,
            actual: (byte_sum(data@) as u128),
        }),
{
    if !verify {
        return Ok(());
    }
    let actual = checksum(data);
    if actual == expected {
        Ok(())
    } else {
        Err(BenchError::VerificationMismatch { size: data.len(), expected, actual })
    }
}

/// Raw device timestamps around a device-side copy, in timer ticks.
#[derive(Clone, Copy, PartialEq, Eq, Structural, Debug)]
pub struct TimestampData {
    pub start: u64,
    pub end: u64,
}

/// Length of the buffer the device resolves its two timestamps into.
pub const TIMESTAMP_BUFFER_LEN: usize = 16;

/// The little-endian 64-bit integer stored at byte offset `off`.
pub open spec fn le_u64_at(s: Seq<u8>, off: int) -> int
    recommends
        0 <= off,
        off + 8 <= s.len(),
{
    s[off] as int
        + s[off + 1] as int * 0x100
        + s[off + 2] as int * 0x1_0000
        + s[off + 3] as int * 0x100_0000
        + s[off + 4] as int * 0x1_0000_0000
        + s[off + 5] as int * 0x100_0000_0000
        + s[off + 6] as int * 0x1_0000_0000_0000
        + s[off + 7] as int * 0x100_0000_0000_0000
}

fn read_le_u64(data: &Vec<u8>, off: usize) -> (r: u64)
    requires
        off + 8 <= data@.len(),
    ensures
        r as int == le_u64_at(data@, off as int),
{
    let n: usize = data.len();
    (data[off] as u64)
        + (data[off + 1] as u64) * 0x100
        + (data[off + 2] as u64) * 0x1_0000
        + (data[off + 3] as u64) * 0x100_0000
        + (data[off + 4] as u64) * 0x1_0000_0000
        + (data[off + 5] as u64) * 0x100_0000_0000
        + (data[off + 6] as u64) * 0x1_0000_0000_0000
        + (data[off + 7] as u64) * 0x100_0000_0000_0000
}

/// Decodes the mapped timing buffer: two little-endian 64-bit timestamps,
/// start then end. A buffer of any other length is rejected.
pub fn decode_timestamps(data: &Vec<u8>) -> (r: Option<TimestampData>)
    ensures
        r is Some <==> data@.len() == TIMESTAMP_BUFFER_LEN,
        r matches Some(t) ==> t.start as int == le_u64_at(data@, 0)
            && t.end as int == le_u64_at(data@, 8),
{
    if data.len() != TIMESTAMP_BUFFER_LEN {
        None
    } else {
        Some(TimestampData { start: read_le_u64(data, 0), end: read_le_u64(data, 8) })
    }
}

/// Elapsed ticks between the two timestamps. A pair whose end precedes its
/// start (a device anomaly) yields zero rather than a wrapped value.
pub open spec fn spec_timestamp_duration(t: TimestampData) -> u64 {
    if t.end >= t.start {
        (t.end - t.start) as u64
    } else {
        0
    }
}

/// Reduces a decoded timestamp pair to the trial's device-side duration.
pub fn timestamp_duration(t: &TimestampData) -> (d: u64)
    ensures
        d == spec_timestamp_duration(*t),
{
    if t.end >= t.start {
        t.end - t.start
    } else {
        0
    }
}

} // verus!
