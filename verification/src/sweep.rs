//! Composition of the sweep: the immutable run configuration, the per-size
//! collection of trial durations, and the reduction of a measurement into
//! one report row per phase.

use vstd::prelude::*;
use crate::errors::BenchError;
use crate::stats::bandwidth_bytes_per_sec;
use crate::stats::get_min_max_avg;
use crate::stats::max_of;
use crate::stats::mean_of;
use crate::stats::min_of;
use crate::stats::spec_bandwidth;
use crate::trial::byte_sum;
use crate::trial::expected_checksum;
use crate::trial::fill_pattern;
use crate::trial::lemma_constant_fill_checksum;
use crate::trial::pattern_byte;
use crate::trial::spec_outcome_duration;
use crate::trial::outcome_duration;
use crate::trial::TrialOutcome;

verus! {

/// Immutable configuration of one sweep.
#[derive(Clone, Copy, PartialEq, Eq, Structural, Debug)]
pub struct Configuration {
    /// Exponent at which a power-of-two sweep stops.
    pub end_power: usize,
    /// Number of trials per data size.
    pub tries: u32,
    /// Whether downloaded data is checked against its expected checksum.
    pub verify: bool,
}

/// Rejects, before any trial runs, a configuration that admits no trials.
pub fn validate_config(c: &Configuration) -> (r: Result<(), BenchError>)
    ensures
        r is Ok <==> c.tries >= 1,
        r is Err ==> r == Err::<(), BenchError>(BenchError::ScheduleConfiguration),
{
    if c.tries >= 1 {
        Ok(())
    } else {
        Err(BenchError::ScheduleConfiguration)
    }
}

/// The ordered durations recorded for one phase at one size. Created fresh
/// per size, fed to the aggregator, not retained.
pub struct Measurement {
    /// Size of the buffers moved in every trial, in bytes.
    pub size: usize,
    /// One duration per finished trial, in nanoseconds, in program order.
    pub durations: Vec<u64>,
}

impl Measurement {
    /// An empty measurement for one size.
    pub fn new(size: usize) -> (m: Measurement)
        ensures
            m.size == size,
            m.durations@ == Seq::<u64>::empty(),
    {
        Measurement { size, durations: Vec::new() }
    }

    /// Records one trial: the outcome's duration is appended, a failed
    /// completion signal as zero. No outcome aborts the measurement, so a
    /// transient failure cannot kill the sweep.
    pub fn record_trial(&mut self, outcome: &TrialOutcome)
        ensures
            final(self).size == old(self).size,
            final(self).durations@ == old(self).durations@.push(spec_outcome_duration(*outcome)),
    {
        let d = outcome_duration(outcome);
        self.durations.push(d);
    }

    /// Number of trials recorded so far.
    pub fn trial_count(&self) -> (n: usize)
        ensures
            n == self.durations@.len(),
    {
        self.durations.len()
    }
}

/// One reported row: the statistics of one phase at one size. Durations are
/// nanoseconds; bandwidth is bytes per second, absent when the mean duration
/// is zero.
pub struct ReportRow {
    pub iteration: usize,
    pub size_bytes: usize,
    pub min_nanos: u64,
    pub max_nanos: u64,
    pub mean_nanos: u64,
    pub bandwidth_bytes_per_sec: Option<u128>,
}

/// Reduces one non-empty measurement to its report row.
pub fn summarize_phase(iteration: usize, m: &Measurement) -> (row: ReportRow)
    requires
        m.durations@.len() >= 1,
    ensures
        row.iteration == iteration,
        row.size_bytes == m.size,
        row.min_nanos as int == min_of(m.durations@),
        row.max_nanos as int == max_of(m.durations@),
        row.mean_nanos as int == mean_of(m.durations@),
        row.bandwidth_bytes_per_sec is None <==> mean_of(m.durations@) == 0,
        mean_of(m.durations@) > 0 ==> (row.bandwidth_bytes_per_sec matches Some(b)
            && b as int == spec_bandwidth(m.size as int, mean_of(m.durations@))),
{
    let (mn, mx, avg) = get_min_max_avg(&m.durations);
    let bw = bandwidth_bytes_per_sec(m.size, avg);
    ReportRow {
        iteration,
        size_bytes: m.size,
        min_nanos: mn,
        max_nanos: mx,
        mean_nanos: avg,
        bandwidth_bytes_per_sec: bw,
    }
}

/// Builds the upload buffer for one `(iteration, size)` pair, together with
/// the checksum an intact download of it must reproduce: the buffer is
/// filled with the iteration's pattern byte, and the expected checksum is
/// exactly the buffer's own byte sum, so an uncorrupted round trip always
/// passes verification.
pub fn prepare_upload(iteration: usize, size: usize) -> (r: (Vec<u8>, u128))
    ensures
        r.0@.len() == size,
        forall|i: int| 0 <= i < size ==> r.0@[i] == pattern_byte(iteration as int),
        r.1 as int == byte_sum(r.0@),
{
    let data = fill_pattern(iteration, size);
    let expected = expected_checksum(iteration, size);
    proof {
        lemma_constant_fill_checksum(data@, pattern_byte(iteration as int));
        assert(data@.len() * pattern_byte(iteration as int)
            == pattern_byte(iteration as int) as int * size as int) by (nonlinear_arith)
            requires data@.len() == size;
    }
    (data, expected)
}

} // verus!
