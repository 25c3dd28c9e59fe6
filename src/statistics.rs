//! Summary of a generation's satiation: least, greatest, total and count.
use vstd::prelude::*;

verus! {

/// The smallest, largest and summed satiation of a population of `count`
/// animals. The average is `total / count`.
#[derive(Clone, Copy, Debug, PartialEq, Eq, Structural)]
pub struct Statistics {
    min: u32,
    max: u32,
    total: u64,
    count: u32,
}

/// The sum of the first `i` values.
pub open spec fn sum_before(values: Seq<u32>, i: int) -> int
    decreases i,
{
    if i <= 0 {
        0
    } else {
        sum_before(values, i - 1) + values[i - 1]
    }
}

pub open spec fn is_min_of(m: u32, values: Seq<u32>) -> bool {
    &&& exists|i: int| 0 <= i < values.len() && values[i] == m
    &&& forall|i: int| 0 <= i < values.len() ==> m <= #[trigger] values[i]
}

pub open spec fn is_max_of(m: u32, values: Seq<u32>) -> bool {
    &&& exists|i: int| 0 <= i < values.len() && values[i] == m
    &&& forall|i: int| 0 <= i < values.len() ==> #[trigger] values[i] <= m
}

proof fn lemma_sum_before_bound(values: Seq<u32>, i: int)
    requires
        0 <= i <= values.len(),
    ensures
        0 <= sum_before(values, i) <= i * 0xffff_ffff,
    decreases i,
{
    if i > 0 {
        lemma_sum_before_bound(values, i - 1);
        assert((i - 1) * 0xffff_ffff + 0xffff_ffff == i * 0xffff_ffff) by (nonlinear_arith);
    }
}

impl Statistics {
    pub closed spec fn min_spec(&self) -> u32 {
        self.min
    }

    pub closed spec fn max_spec(&self) -> u32 {
        self.max
    }

    pub closed spec fn total_spec(&self) -> u64 {
        self.total
    }

    pub closed spec fn count_spec(&self) -> u32 {
        self.count
    }

    /// The statistics of a population with the given satiation values.
    pub fn find_stats(satiation: &Vec<u32>) -> (r: Statistics)
        requires
            satiation@.len() > 0,
            satiation@.len() <= u32::MAX,
        ensures
            is_min_of(r.min_spec(), satiation@),
            is_max_of(r.max_spec(), satiation@),
            r.total_spec() == sum_before(satiation@, satiation@.len() as int),
            r.count_spec() == satiation@.len(),
    {
        let mut min = satiation[0];
        let mut max = satiation[0];
        let mut total: u64 = 0;
        let mut i: usize = 0;
        while i < satiation.len()
            invariant
                0 < satiation@.len() <= u32::MAX,
                i <= satiation@.len(),
                total == sum_before(satiation@, i as int),
                exists|j: int| 0 <= j < satiation@.len() && satiation@[j] == min,
                exists|j: int| 0 <= j < satiation@.len() && satiation@[j] == max,
                forall|j: int| 0 <= j < i ==> min <= #[trigger] satiation@[j],
                forall|j: int| 0 <= j < i ==> #[trigger] satiation@[j] <= max,
            decreases satiation@.len() - i,
        {
            let v = satiation[i];
            proof {
                lemma_sum_before_bound(satiation@, i + 1);
                assert((i + 1) * 0xffff_ffff <= 0xffff_ffff * 0xffff_ffff) by (nonlinear_arith)
                    requires i + 1 <= 0xffff_ffff;
            }
            total = total + v as u64;
            if v < min {
                min = v;
            }
            if v > max {
                max = v;
            }
            i = i + 1;
        }
        Statistics { min, max, total, count: satiation.len() as u32 }
    }

    pub fn get_min(self) -> (r: u32)
        ensures
            r == self.min_spec(),
    {
        self.min
    }

    pub fn get_max(self) -> (r: u32)
        ensures
            r == self.max_spec(),
    {
        self.max
    }

    /// The summed satiation; the average is this over `get_count`.
    pub fn get_total(self) -> (r: u64)
        ensures
            r == self.total_spec(),
    {
        self.total
    }

    pub fn get_count(self) -> (r: u32)
        ensures
            r == self.count_spec(),
    {
        self.count
    }

    /// `0.25 * min + 0.5 * average + 0.25 * max`, as a fraction
    /// `(numerator, denominator)`; an empty summary averages zero.
    pub open spec fn weighted_score(&self) -> (int, int) {
        if self.count_spec() == 0 {
            (self.min_spec() + self.max_spec(), 4)
        } else {
            (
                self.count_spec() * (self.min_spec() + self.max_spec()) + 2 * self.total_spec(),
                4 * self.count_spec(),
            )
        }
    }

    /// The weighted score in millionths, rounded down.
    pub open spec fn score_millionths(&self) -> int {
        (self.weighted_score().0 * 1_000_000) / self.weighted_score().1
    }

    /// The weighted score `0.25 * min + 0.5 * average + 0.25 * max`, in
    /// millionths, rounded down.
    pub fn weighted_score_millionths(self) -> (r: u128)
        ensures
            r == self.score_millionths(),
    {
        let min = self.min as u128;
        let max = self.max as u128;
        if self.count == 0 {
            (min + max) * 1_000_000 / 4
        } else {
            let count = self.count as u128;
            proof {
                assert(count * (min + max) <= 0xffff_ffff * 0x1_ffff_fffe) by (nonlinear_arith)
                    requires count <= 0xffff_ffff, min + max <= 0x1_ffff_fffe;
            }
            let numerator = count * (min + max) + 2 * (self.total as u128);
            numerator * 1_000_000 / (4 * count)
        }
    }
}

impl Statistics {
    /// The neutral summary of no animals: every figure is zero.
    pub closed spec fn default_spec() -> Statistics {
        Statistics { min: 0, max: 0, total: 0, count: 0 }
    }
}

impl Default for Statistics {
    /// The neutral summary of no animals: every figure is zero.
    fn default() -> (r: Statistics)
        ensures
            r == Statistics::default_spec(),
    {
        Statistics { min: 0, max: 0, total: 0, count: 0 }
    }
}

} // verus!
