use gpu_bandwidth::errors::BenchError;
use gpu_bandwidth::errors::error_disposition;
use gpu_bandwidth::errors::ErrorDisposition;
use gpu_bandwidth::sweep::Configuration;
use gpu_bandwidth::sweep::Measurement;
use gpu_bandwidth::sweep::prepare_upload;
use gpu_bandwidth::sweep::summarize_phase;
use gpu_bandwidth::sweep::validate_config;
use gpu_bandwidth::trial::check_download;
use gpu_bandwidth::trial::TrialOutcome;

#[test]
fn test_transient_failure_does_not_abort_sweep() {
    // One completion-signal failure out of 10 trials: the sweep records all
    // 10 durations, exactly one of them zero.
    let mut m = Measurement::new(4096);
    for trial in 0..10u32 {
        let outcome = if trial == 6 {
            TrialOutcome::SignalFailed
        } else {
            TrialOutcome::Completed { elapsed_nanos: 1_000_000 }
        };
        m.record_trial(&outcome);
    }
    assert_eq!(m.trial_count(), 10);
    assert_eq!(m.durations.len(), 10);
    assert_eq!(m.durations.iter().filter(|d| **d == 0).count(), 1);
    let row = summarize_phase(3, &m);
    assert_eq!(row.iteration, 3);
    assert_eq!(row.size_bytes, 4096);
    assert_eq!(row.min_nanos, 0);
    assert_eq!(row.max_nanos, 1_000_000);
    assert_eq!(row.mean_nanos, 900_000);
    assert!(row.bandwidth_bytes_per_sec.is_some());
}

#[test]
fn test_all_failed_trials_leave_bandwidth_undefined() {
    let mut m = Measurement::new(1024);
    for _ in 0..5 {
        m.record_trial(&TrialOutcome::SignalFailed);
    }
    let row = summarize_phase(0, &m);
    assert_eq!(row.min_nanos, 0);
    assert_eq!(row.max_nanos, 0);
    assert_eq!(row.mean_nanos, 0);
    assert_eq!(row.bandwidth_bytes_per_sec, None);
}

#[test]
fn test_summarize_phase_statistics() {
    let mut m = Measurement::new(2048);
    for nanos in [10_000_000u64, 20_000_000, 30_000_000] {
        m.record_trial(&TrialOutcome::Completed { elapsed_nanos: nanos });
    }
    let row = summarize_phase(1, &m);
    assert_eq!(row.min_nanos, 10_000_000);
    assert_eq!(row.max_nanos, 30_000_000);
    assert_eq!(row.mean_nanos, 20_000_000);
    // 2048 bytes in 20 ms is 102400 bytes per second.
    assert_eq!(row.bandwidth_bytes_per_sec, Some(102_400));
}

#[test]
fn test_validate_config_rejects_zero_tries() {
    let bad = Configuration { end_power: 25, tries: 0, verify: false };
    assert_eq!(validate_config(&bad), Err(BenchError::ScheduleConfiguration));
    let good = Configuration { end_power: 25, tries: 50, verify: true };
    assert_eq!(validate_config(&good), Ok(()));
}

#[test]
fn test_error_disposition_policy() {
    let mismatch = BenchError::VerificationMismatch { size: 100, expected: 300, actual: 299 };
    assert_eq!(error_disposition(&mismatch), ErrorDisposition::AbortRun);
    assert_eq!(
        error_disposition(&BenchError::ScheduleConfiguration),
        ErrorDisposition::AbortRun
    );
    assert_eq!(
        error_disposition(&BenchError::ResourceExhaustion { size: 1 << 26 }),
        ErrorDisposition::SkipSize
    );
}

#[test]
fn test_prepare_upload_round_trips_through_verification() {
    let (data, expected) = prepare_upload(5, 64);
    assert_eq!(data.len(), 64);
    assert!(data.iter().all(|b| *b == 5));
    assert_eq!(expected, 5 * 64);
    // An intact download of the prepared buffer always verifies.
    assert_eq!(check_download(&data, expected, true), Ok(()));
}
