//! The failures the benchmark distinguishes, and the sweep's policy on each.

use vstd::prelude::*;

verus! {

/// Failures surfaced by the benchmark core.
///
/// A transient completion-signal failure is deliberately not here: it is
/// recorded as a zero-duration trial (`TrialOutcome::SignalFailed`) and never
/// aborts a sweep.
#[derive(Clone, Copy, PartialEq, Eq, Structural, Debug)]
pub enum BenchError {
    /// Downloaded bytes did not sum to the expected checksum: the data was
    /// corrupted in transfer, so the measurement itself is untrustworthy.
    VerificationMismatch { size: usize, expected: u128, actual: u128 },
    /// The sweep configuration admits no trials.
    ScheduleConfiguration,
    /// The accelerator layer could not allocate a buffer of the given size.
    ResourceExhaustion { size: usize },
}

/// What the sweep does when an error surfaces.
#[derive(Clone, Copy, PartialEq, Eq, Structural, Debug)]
pub enum ErrorDisposition {
    /// The whole run stops at once.
    AbortRun,
    /// Only the current size's measurement is dropped; the sweep continues
    /// with the next size.
    SkipSize,
}

/// The sweep's error policy: a verification mismatch aborts the run, since
/// it means the measurements cannot be trusted, and so does a configuration
/// that admits no trials; an allocation failure only skips the affected size.
pub fn error_disposition(e: &BenchError) -> (d: ErrorDisposition)
    ensures
        e is ResourceExhaustion ==> d == ErrorDisposition::SkipSize,
        !(e is ResourceExhaustion) ==> d == ErrorDisposition::AbortRun,
{
    match e {
        BenchError::ResourceExhaustion { .. } => ErrorDisposition::SkipSize,
        BenchError::VerificationMismatch { .. } => ErrorDisposition::AbortRun,
        BenchError::ScheduleConfiguration => ErrorDisposition::AbortRun,
    }
}

} // verus!
