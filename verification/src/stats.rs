//! Reduction of raw per-trial durations into reportable statistics, and the
//! bandwidth derived from them. Durations are nanoseconds held in `u64`.

use vstd::prelude::*;
use vstd::arithmetic::div_mod::lemma_div_is_ordered;
use vstd::arithmetic::div_mod::lemma_div_plus_one;
use vstd::arithmetic::div_mod::lemma_div_multiples_vanish;
use vstd::arithmetic::mul::lemma_mul_inequality;

verus! {

/// Nanoseconds per second: the scale between a duration and a bandwidth.
pub const NANOS_PER_SEC: u64 = 1_000_000_000;

/// Sum of a duration sequence, as an unbounded integer.
pub open spec fn sum_of(s: Seq<u64>) -> int
    decreases s.len(),
{
    if s.len() == 0 {
        0
    } else {
        sum_of(s.drop_last()) + s.last()
    }
}

/// Smallest element of a non-empty duration sequence (zero when empty).
pub open spec fn min_of(s: Seq<u64>) -> int
    decreases s.len(),
{
    if s.len() == 0 {
        0
    } else if s.len() == 1 {
        s.last() as int
    } else if s.last() as int <= min_of(s.drop_last()) {
        s.last() as int
    } else {
        min_of(s.drop_last())
    }
}

/// Largest element of a non-empty duration sequence (zero when empty).
pub open spec fn max_of(s: Seq<u64>) -> int
    decreases s.len(),
{
    if s.len() == 0 {
        0
    } else if s.len() == 1 {
        s.last() as int
    } else if s.last() as int >= max_of(s.drop_last()) {
        s.last() as int
    } else {
        max_of(s.drop_last())
    }
}

/// Mean of a non-empty duration sequence, rounded down.
pub open spec fn mean_of(s: Seq<u64>) -> int
    recommends
        s.len() > 0,
{
    sum_of(s) / (s.len() as int)
}

proof fn lemma_sum_bounds(s: Seq<u64>)
    requires
        s.len() >= 1,
    ensures
        s.len() * min_of(s) <= sum_of(s),
        sum_of(s) <= s.len() * max_of(s),
        0 <= min_of(s) <= max_of(s) <= u64::MAX as int,
    decreases s.len(),
{
    if s.len() == 1 {
        assert(sum_of(s) == sum_of(s.drop_last()) + s.last());
        assert(sum_of(s.drop_last()) == 0);
    } else {
        lemma_sum_bounds(s.drop_last());
        let n = s.len() as int;
        let rest = s.drop_last();
        assert(n * min_of(s) <= sum_of(s)) by (nonlinear_arith)
            requires
                n == rest.len() + 1,
                n >= 2,
                (n - 1) * min_of(rest) <= sum_of(rest),
                min_of(s) <= min_of(rest),
                min_of(s) <= s.last() as int,
                sum_of(s) == sum_of(rest) + s.last(),
        ;
        assert(sum_of(s) <= n * max_of(s)) by (nonlinear_arith)
            requires
                n == rest.len() + 1,
                n >= 2,
                sum_of(rest) <= (n - 1) * max_of(rest),
                max_of(rest) <= max_of(s),
                s.last() as int <= max_of(s),
                sum_of(s) == sum_of(rest) + s.last(),
        ;
    }
}

/// For every non-empty duration sequence, the mean lies between the minimum
/// and the maximum.
pub proof fn lemma_min_le_mean_le_max(s: Seq<u64>)
    requires
        s.len() >= 1,
    ensures
        min_of(s) <= mean_of(s) <= max_of(s),
        0 <= min_of(s) <= max_of(s) <= u64::MAX as int,
{
    lemma_sum_bounds(s);
    let n = s.len() as int;
    lemma_div_multiples_vanish(min_of(s), n);
    lemma_div_is_ordered(n * min_of(s), sum_of(s), n);
    lemma_div_multiples_vanish(max_of(s), n);
    lemma_div_is_ordered(sum_of(s), n * max_of(s), n);
}

/// A sequence of identical durations `d` has minimum, maximum and mean all
/// equal to `d`.
pub proof fn lemma_constant_stats(s: Seq<u64>, d: u64)
    requires
        s.len() >= 1,
        forall|i: int| 0 <= i < s.len() ==> s[i] == d,
    ensures
        min_of(s) == d,
        max_of(s) == d,
        sum_of(s) == s.len() * d,
        mean_of(s) == d,
    decreases s.len(),
{
    let n = s.len() as int;
    if s.len() == 1 {
        assert(s.last() == d);
        assert(sum_of(s.drop_last()) == 0);
    } else {
        let rest = s.drop_last();
        assert(forall|i: int| 0 <= i < rest.len() ==> rest[i] == d);
        lemma_constant_stats(rest, d);
        assert(s.last() == d);
        assert(n * d == (n - 1) * d + d) by (nonlinear_arith);
    }
    lemma_div_multiples_vanish(d as int, n);
    assert(n * (d as int) == s.len() * d);
}

/// The aggregator is a pure function of its input: any two results that both
/// meet its contract on the same duration sequence are identical, so running
/// it twice on the same sequence yields the same statistics.
pub proof fn lemma_aggregate_deterministic(s: Seq<u64>, r1: (u64, u64, u64), r2: (u64, u64, u64))
    requires
        r1.0 as int == min_of(s) && r1.1 as int == max_of(s) && r1.2 as int == mean_of(s),
        r2.0 as int == min_of(s) && r2.1 as int == max_of(s) && r2.2 as int == mean_of(s),
    ensures
        r1 == r2,
{
}

/// Reduces a non-empty sequence of per-trial durations to
/// `(min, max, mean)`, the mean rounded down.
pub fn get_min_max_avg(values: &Vec<u64>) -> (r: (u64, u64, u64))
    requires
        values@.len() >= 1,
    ensures
        r.0 as int == min_of(values@),
        r.1 as int == max_of(values@),
        r.2 as int == mean_of(values@),
{
    let mut mn: u64 = values[0];
    let mut mx: u64 = values[0];
    let mut sum: u128 = values[0] as u128;
    let mut i: usize = 1;
    proof {
        assert(values@.take(1).drop_last() =~= Seq::<u64>::empty());
        assert(values@.take(1).last() == values@[0]);
        assert(sum_of(Seq::<u64>::empty()) == 0);
    }
    while i < values.len()
        invariant
            1 <= i <= values@.len(),
            mn as int == min_of(values@.take(i as int)),
            mx as int == max_of(values@.take(i as int)),
            sum as int == sum_of(values@.take(i as int)),
            sum as int <= i as int * (u64::MAX as int),
        decreases values@.len() - i,
    {
        let v = values[i];
        proof {
            assert(values@.take(i as int + 1).drop_last() =~= values@.take(i as int));
            assert(values@.take(i as int + 1).last() == values@[i as int]);
        }
        if v < mn {
            mn = v;
        }
        if v > mx {
            mx = v;
        }
        sum = sum + v as u128;
        i = i + 1;
    }
    proof {
        assert(values@.take(values@.len() as int) =~= values@);
        lemma_sum_bounds(values@);
        let n = values@.len() as int;
        lemma_div_multiples_vanish(max_of(values@), n);
        lemma_div_is_ordered(sum_of(values@), n * max_of(values@), n);
        lemma_div_multiples_vanish(min_of(values@), n);
        lemma_div_is_ordered(n * min_of(values@), sum_of(values@), n);
    }
    let avg = (sum / (values.len() as u128)) as u64;
    (mn, mx, avg)
}

/// Bandwidth, in bytes per second, of moving `size_bytes` bytes in
/// `mean_nanos` nanoseconds, rounded down.
pub open spec fn spec_bandwidth(size_bytes: int, mean_nanos: int) -> int
    recommends
        mean_nanos > 0,
{
    size_bytes * (NANOS_PER_SEC as int) / mean_nanos
}

/// Derives the bandwidth of a measured mean duration. A zero mean — every
/// trial failed and was recorded as zero — has no bandwidth: the result is
/// `None`, never a fault or a silently wrong number.
pub fn bandwidth_bytes_per_sec(size_bytes: usize, mean_nanos: u64) -> (r: Option<u128>)
    ensures
        r is None <==> mean_nanos == 0,
        mean_nanos > 0 ==> (r matches Some(b)
            && b as int == spec_bandwidth(size_bytes as int, mean_nanos as int)),
{
    if mean_nanos == 0 {
        None
    } else {
        let s128: u128 = size_bytes as u128;
        proof {
            lemma_mul_inequality(s128 as int, u64::MAX as int, NANOS_PER_SEC as int);
        }
        let num: u128 = s128 * (NANOS_PER_SEC as u128);
        Some(num / (mean_nanos as u128))
    }
}

/// With the mean latency held fixed, bandwidth never decreases as the
/// transferred size grows.
pub proof fn lemma_bandwidth_monotone_in_size(size1: int, size2: int, mean_nanos: int)
    requires
        0 <= size1 <= size2,
        0 < mean_nanos,
    ensures
        spec_bandwidth(size1, mean_nanos) <= spec_bandwidth(size2, mean_nanos),
{
    lemma_mul_inequality(size1, size2, NANOS_PER_SEC as int);
    lemma_div_is_ordered(size1 * (NANOS_PER_SEC as int), size2 * (NANOS_PER_SEC as int), mean_nanos);
}

/// With the mean latency held fixed, bandwidth grows strictly once the size
/// gap is large enough to survive the rounding: as soon as
/// `(size2 - size1) * NANOS_PER_SEC` reaches `mean_nanos`, the larger size
/// has strictly greater bandwidth.
pub proof fn lemma_bandwidth_strict_increase(size1: int, size2: int, mean_nanos: int)
    requires
        0 <= size1 <= size2,
        0 < mean_nanos,
        (size2 - size1) * (NANOS_PER_SEC as int) >= mean_nanos,
    ensures
        spec_bandwidth(size1, mean_nanos) < spec_bandwidth(size2, mean_nanos),
{
    lemma_div_plus_one(size1 * (NANOS_PER_SEC as int), mean_nanos);
    lemma_div_is_ordered(
        size1 * (NANOS_PER_SEC as int) + mean_nanos,
        size2 * (NANOS_PER_SEC as int),
        mean_nanos,
    );
}

} // verus!
