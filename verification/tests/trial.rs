use gpu_bandwidth::errors::BenchError;
use gpu_bandwidth::trial::check_download;
use gpu_bandwidth::trial::checksum;
use gpu_bandwidth::trial::decode_timestamps;
use gpu_bandwidth::trial::expected_checksum;
use gpu_bandwidth::trial::fill_pattern;
use gpu_bandwidth::trial::outcome_duration;
use gpu_bandwidth::trial::phase_index;
use gpu_bandwidth::trial::Direction;
use gpu_bandwidth::trial::timestamp_duration;
use gpu_bandwidth::trial::TrialOutcome;

#[test]
fn test_outcome_duration() {
    assert_eq!(outcome_duration(&TrialOutcome::Completed { elapsed_nanos: 5 }), 5);
    assert_eq!(outcome_duration(&TrialOutcome::SignalFailed), 0);
}

#[test]
fn test_phase_order_is_fixed() {
    assert_eq!(phase_index(&Direction::Upload), 0);
    assert_eq!(phase_index(&Direction::DeviceToDevice), 1);
    assert_eq!(phase_index(&Direction::Download), 2);
}

#[test]
fn test_checksum_sums_byte_values() {
    assert_eq!(checksum(&vec![]), 0);
    assert_eq!(checksum(&vec![1, 2, 3]), 6);
    assert_eq!(checksum(&vec![255; 4]), 4 * 255);
}

#[test]
fn test_verification_size_100_iteration_3() {
    // A download buffer holding byte value 3 at 100 positions sums to 300
    // and passes verification.
    let expected = expected_checksum(3, 100);
    assert_eq!(expected, 300);
    let download = fill_pattern(3, 100);
    assert_eq!(download.len(), 100);
    assert!(download.iter().all(|b| *b == 3));
    assert_eq!(checksum(&download), 300);
    assert_eq!(check_download(&download, expected, true), Ok(()));
}

#[test]
fn test_verification_rejects_single_corrupted_byte() {
    let expected = expected_checksum(3, 100);
    let mut download = fill_pattern(3, 100);
    download[57] = 4;
    let r = check_download(&download, expected, true);
    assert_eq!(
        r,
        Err(BenchError::VerificationMismatch { size: 100, expected: 300, actual: 301 })
    );
}

#[test]
fn test_verification_skipped_when_disabled() {
    let mut download = fill_pattern(3, 100);
    download[0] = 99;
    assert_eq!(check_download(&download, 300, false), Ok(()));
}

#[test]
fn test_pattern_byte_wraps_at_256() {
    let data = fill_pattern(258, 10);
    assert!(data.iter().all(|b| *b == 2));
    assert_eq!(expected_checksum(258, 10), 20);
    assert_eq!(checksum(&data), 20);
}

#[test]
fn test_decode_timestamps_little_endian() {
    let mut buf: Vec<u8> = vec![0; 16];
    buf[0] = 100; // start = 100
    buf[8] = 0x5e; // end = 0x15e = 350
    buf[9] = 0x01;
    let t = decode_timestamps(&buf).unwrap();
    assert_eq!(t.start, 100);
    assert_eq!(t.end, 350);
    assert_eq!(timestamp_duration(&t), 250);
}

#[test]
fn test_decode_timestamps_rejects_other_lengths() {
    assert!(decode_timestamps(&vec![0; 15]).is_none());
    assert!(decode_timestamps(&vec![0; 17]).is_none());
    assert!(decode_timestamps(&vec![]).is_none());
}

#[test]
fn test_timestamp_duration_clamps_reversed_pair() {
    let mut buf: Vec<u8> = vec![0; 16];
    buf[0] = 9; // start = 9, end = 0
    let t = decode_timestamps(&buf).unwrap();
    assert_eq!(timestamp_duration(&t), 0);
}
