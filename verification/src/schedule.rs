//! Size schedules: the ordered sequences of buffer sizes that a sweep tests.

use vstd::prelude::*;
use vstd::arithmetic::power2::pow2;
use vstd::arithmetic::power2::lemma_pow2_strictly_increases;
use vstd::arithmetic::power2::lemma_pow2_unfold;

verus! {

/// First size that the piecewise schedule emits, in bytes.
pub const PIECEWISE_START: usize = 1024;

/// Ceiling of the default schedule, in bytes: no emitted size exceeds it.
pub const DEFAULT_SIZE_CEILING: usize = 67_186_688;

/// Largest increment the piecewise schedule ever takes between two sizes.
pub const MAX_PIECEWISE_STEP: usize = 4_194_304;

/// Increment applied to a cursor standing at `size`: the step grows in stages
/// as the cursor crosses six fixed thresholds.
pub open spec fn piecewise_step(size: int) -> int {
    if size < 20_480 {
        1_024
    } else if size < 51_200 {
        2_048
    } else if size < 102_400 {
        10_240
    } else if size < 1_126_400 {
        102_400
    } else if size < 16_855_040 {
        1_048_576
    } else if size < 33_632_256 {
        2_097_152
    } else {
        4_194_304
    }
}

/// The piecewise schedule from `cursor` up to `bound`: the cursor is emitted,
/// then advanced by `piecewise_step`, until it exceeds the bound.
pub open spec fn piecewise_from(cursor: int, bound: int) -> Seq<int>
    decreases (if cursor <= bound { bound + 1 - cursor } else { 0 }),
{
    if cursor > bound {
        Seq::empty()
    } else {
        seq![cursor] + piecewise_from(cursor + piecewise_step(cursor), bound)
    }
}

/// A vector of sizes seen as a sequence of mathematical integers.
pub open spec fn sizes_as_ints(v: Seq<usize>) -> Seq<int> {
    v.map_values(|s: usize| s as int)
}

/// The power-of-two schedule for exponents 2 through `max_power`.
pub open spec fn power_two_seq(max_power: int) -> Seq<int> {
    if max_power < 2 {
        Seq::empty()
    } else {
        Seq::new((max_power - 1) as nat, |i: int| pow2((i + 2) as nat) as int)
    }
}

proof fn lemma_piecewise_from_props(cursor: int, bound: int)
    ensures
        forall|i: int| 0 <= i < piecewise_from(cursor, bound).len()
            ==> cursor <= #[trigger] piecewise_from(cursor, bound)[i] <= bound,
        forall|i: int, j: int| 0 <= i < j < piecewise_from(cursor, bound).len()
            ==> #[trigger] piecewise_from(cursor, bound)[i]
                < #[trigger] piecewise_from(cursor, bound)[j],
        piecewise_from(cursor, bound).len() > 0 <==> cursor <= bound,
    decreases (if cursor <= bound { bound + 1 - cursor } else { 0 }),
{
    if cursor <= bound {
        let next = cursor + piecewise_step(cursor);
        lemma_piecewise_from_props(next, bound);
        let s = piecewise_from(cursor, bound);
        let tail = piecewise_from(next, bound);
        assert(s == seq![cursor] + tail);
        assert(s[0] == cursor);
        assert(forall|i: int| 1 <= i < s.len() ==> #[trigger] s[i] == tail[i - 1]);
    }
}

/// Every piecewise schedule is strictly increasing, stays between the
/// starting size and the bound, and is non-empty exactly when the bound
/// admits the starting size.
pub proof fn lemma_piecewise_schedule_bounds(bound: int)
    ensures
        forall|i: int| 0 <= i < piecewise_from(PIECEWISE_START as int, bound).len()
            ==> PIECEWISE_START as int
                <= #[trigger] piecewise_from(PIECEWISE_START as int, bound)[i]
                <= bound,
        forall|i: int, j: int| 0 <= i < j < piecewise_from(PIECEWISE_START as int, bound).len()
            ==> #[trigger] piecewise_from(PIECEWISE_START as int, bound)[i]
                < #[trigger] piecewise_from(PIECEWISE_START as int, bound)[j],
        piecewise_from(PIECEWISE_START as int, bound).len() > 0 <==> bound >= PIECEWISE_START as int,
{
    lemma_piecewise_from_props(PIECEWISE_START as int, bound);
}

/// Every power-of-two schedule is strictly increasing, and every element lies
/// between the smallest emitted size and `2^max_power`.
pub proof fn lemma_power_two_schedule_bounds(max_power: int)
    requires
        max_power <= 63,
    ensures
        forall|i: int| 0 <= i < power_two_seq(max_power).len()
            ==> 4 <= #[trigger] power_two_seq(max_power)[i] <= pow2(max_power as nat) as int,
        forall|i: int, j: int| 0 <= i < j < power_two_seq(max_power).len()
            ==> #[trigger] power_two_seq(max_power)[i] < #[trigger] power_two_seq(max_power)[j],
        power_two_seq(max_power).len() > 0 <==> max_power >= 2,
{
    vstd::arithmetic::power2::lemma2_to64();
    if max_power >= 2 {
        let s = power_two_seq(max_power);
        assert forall|i: int| 0 <= i < s.len()
            implies 4 <= #[trigger] s[i] <= pow2(max_power as nat) as int by {
            assert(s[i] == pow2((i + 2) as nat) as int);
            if i > 0 {
                lemma_pow2_strictly_increases(2, (i + 2) as nat);
            }
            if i + 2 < max_power {
                lemma_pow2_strictly_increases((i + 2) as nat, max_power as nat);
            }
        }
        assert forall|i: int, j: int| 0 <= i < j < s.len()
            implies #[trigger] s[i] < #[trigger] s[j] by {
            lemma_pow2_strictly_increases((i + 2) as nat, (j + 2) as nat);
        }
    }
}

/// Emits the piecewise-growing schedule: sizes from `PIECEWISE_START` upward,
/// stepped by `piecewise_step`, stopping once the cursor exceeds `bound`.
/// A bound below the starting size yields an empty schedule.
pub fn piecewise_sizes(bound: usize) -> (sizes: Vec<usize>)
    requires
        bound <= usize::MAX - MAX_PIECEWISE_STEP,
    ensures
        sizes_as_ints(sizes@) == piecewise_from(PIECEWISE_START as int, bound as int),
{
    let mut sizes: Vec<usize> = Vec::new();
    let mut next_size: usize = PIECEWISE_START;
    while next_size <= bound
        invariant
            PIECEWISE_START <= next_size,
            bound <= usize::MAX - MAX_PIECEWISE_STEP,
            next_size <= bound + MAX_PIECEWISE_STEP,
            sizes_as_ints(sizes@) + piecewise_from(next_size as int, bound as int)
                == piecewise_from(PIECEWISE_START as int, bound as int),
        decreases (if next_size <= bound { bound + 1 - next_size } else { 0 }),
    {
        let step: usize = if next_size < 20_480 {
            1_024
        } else if next_size < 51_200 {
            2_048
        } else if next_size < 102_400 {
            10_240
        } else if next_size < 1_126_400 {
            102_400
        } else if next_size < 16_855_040 {
            1_048_576
        } else if next_size < 33_632_256 {
            2_097_152
        } else {
            4_194_304
        };
        let ghost old_sizes = sizes@;
        sizes.push(next_size);
        proof {
            assert(sizes_as_ints(sizes@)
                =~= sizes_as_ints(old_sizes) + seq![next_size as int]);
            assert(sizes_as_ints(sizes@) + piecewise_from(next_size as int + step as int, bound as int)
                =~= sizes_as_ints(old_sizes) + piecewise_from(next_size as int, bound as int));
        }
        next_size = next_size + step;
    }
    proof {
        assert(piecewise_from(next_size as int, bound as int) == Seq::<int>::empty());
        assert(sizes_as_ints(sizes@) + Seq::<int>::empty() =~= sizes_as_ints(sizes@));
    }
    sizes
}

/// The default sweep: the piecewise schedule up to `DEFAULT_SIZE_CEILING`.
pub fn get_default_sizes() -> (sizes: Vec<usize>)
    ensures
        sizes_as_ints(sizes@) == piecewise_from(PIECEWISE_START as int, DEFAULT_SIZE_CEILING as int),
{
    piecewise_sizes(DEFAULT_SIZE_CEILING)
}

/// Emits `2^k` for each exponent `k` in `2..=max_power`. The bound on
/// `max_power` only keeps every emitted size within the machine word.
pub fn get_power_two_sizes(max_power: u32) -> (sizes: Vec<usize>)
    requires
        max_power <= 63,
        pow2(max_power as nat) <= usize::MAX as nat,
    ensures
        sizes_as_ints(sizes@) == power_two_seq(max_power as int),
{
    let mut sizes: Vec<usize> = Vec::new();
    if max_power < 2 {
        proof {
            assert(sizes_as_ints(sizes@) =~= power_two_seq(max_power as int));
        }
        return sizes;
    }
    let mut k: u32 = 2;
    let mut cur: usize = 4;
    proof {
        vstd::arithmetic::power2::lemma2_to64();
    }
    while k <= max_power
        invariant
            2 <= k <= max_power + 1,
            max_power <= 63,
            pow2(max_power as nat) <= usize::MAX as nat,
            k <= max_power ==> cur as nat == pow2(k as nat),
            sizes_as_ints(sizes@) == power_two_seq(max_power as int).take(k - 2),
        decreases max_power + 1 - k,
    {
        let ghost old_sizes = sizes@;
        sizes.push(cur);
        proof {
            assert(power_two_seq(max_power as int)[k - 2] == pow2(k as nat) as int);
            assert(sizes_as_ints(sizes@)
                =~= power_two_seq(max_power as int).take(k - 2).push(pow2(k as nat) as int));
            assert(power_two_seq(max_power as int).take(k - 1)
                =~= power_two_seq(max_power as int).take(k - 2).push(pow2(k as nat) as int));
        }
        if k < max_power {
            proof {
                lemma_pow2_unfold((k + 1) as nat);
                if k + 1 < max_power {
                    lemma_pow2_strictly_increases((k + 1) as nat, max_power as nat);
                }
                assert(pow2((k + 1) as nat) <= pow2(max_power as nat));
            }
            cur = cur * 2;
        }
        k = k + 1;
    }
    proof {
        assert(power_two_seq(max_power as int).take(k - 2)
            =~= power_two_seq(max_power as int));
    }
    sizes
}

} // verus!
