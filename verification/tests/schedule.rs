use gpu_bandwidth::schedule::get_default_sizes;
use gpu_bandwidth::schedule::get_power_two_sizes;
use gpu_bandwidth::schedule::piecewise_sizes;

#[test]
fn test_piecewise_bound_25000() {
    let sizes = piecewise_sizes(25_000);
    let mut expected: Vec<usize> = Vec::new();
    let mut s: usize = 1024;
    while s <= 20_480 {
        expected.push(s);
        s += 1024;
    }
    expected.push(22_528);
    expected.push(24_576);
    assert_eq!(sizes, expected);
    assert_eq!(*sizes.first().unwrap(), 1024);
    assert_eq!(*sizes.last().unwrap(), 24_576);
}

#[test]
fn test_piecewise_bound_below_start_is_empty() {
    assert!(piecewise_sizes(0).is_empty());
    assert!(piecewise_sizes(1023).is_empty());
    assert_eq!(piecewise_sizes(1024), vec![1024]);
}

#[test]
fn test_default_sizes_strictly_increasing_and_bounded() {
    let sizes = get_default_sizes();
    assert!(!sizes.is_empty());
    assert_eq!(sizes[0], 1024);
    for w in sizes.windows(2) {
        assert!(w[0] < w[1]);
    }
    for s in &sizes {
        assert!(*s <= 67_186_688);
    }
}

#[test]
fn test_default_sizes_match_piecewise_ceiling() {
    assert_eq!(get_default_sizes(), piecewise_sizes(67_186_688));
}

#[test]
fn test_power_two_sizes_2_to_4() {
    assert_eq!(get_power_two_sizes(4), vec![4, 8, 16]);
}

#[test]
fn test_power_two_sizes_edges() {
    assert!(get_power_two_sizes(0).is_empty());
    assert!(get_power_two_sizes(1).is_empty());
    assert_eq!(get_power_two_sizes(2), vec![4]);
    let sizes = get_power_two_sizes(20);
    assert_eq!(sizes.len(), 19);
    for w in sizes.windows(2) {
        assert!(w[0] < w[1]);
        assert_eq!(w[1], w[0] * 2);
    }
    assert_eq!(*sizes.last().unwrap(), 1 << 20);
}
