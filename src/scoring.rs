use vstd::prelude::*;
use crate::nation::{ScoringError, NATION_COUNT};
use crate::normalize::{RATIO_SCALE, ratios_ok, max_ratio};
use crate::grouping::{
    Grouping, impunity, is_impunity, sorted_desc, chain_holds, prev_of, joins, descending,
    lemma_descending_total, CLUSTER_GAP,
};
use vstd::seq_lib::lemma_sorted_unique;

verus! {

/// Exponent of the power-law weighting.
#[derive(Debug, Clone, Copy, PartialEq, Eq, Structural)]
pub enum Exponent {
    /// Weight `x^(3/2)`, rounded down to an integer.
    ThreeHalves,
    /// Weight `x^2`.
    Two,
}

/// Raw scores of one scenario: faction `i` scores `nums[i] / den`.
#[derive(Debug)]
pub struct Scores {
    pub nums: Vec<u128>,
    pub den: u128,
}

/// `r` is the integer square root of `n`, rounded down.
pub open spec fn is_isqrt(n: int, r: int) -> bool {
    0 <= r && r * r <= n < (r + 1) * (r + 1)
}

/// The integer square root of `n`, rounded down.
pub open spec fn isqrt_spec(n: int) -> int {
    choose|r: int| is_isqrt(n, r)
}

proof fn lemma_isqrt_unique(n: int, a: int, b: int)
    requires
        is_isqrt(n, a),
        is_isqrt(n, b),
    ensures
        a == b,
{
    if a < b {
        assert((a + 1) * (a + 1) <= b * b) by (nonlinear_arith)
            requires
                0 <= a,
                a + 1 <= b,
        ;
    } else if b < a {
        assert((b + 1) * (b + 1) <= a * a) by (nonlinear_arith)
            requires
                0 <= b,
                b + 1 <= a,
        ;
    }
}

proof fn lemma_isqrt_pos(n: int, r: int)
    requires
        is_isqrt(n, r),
        n >= 1,
    ensures
        r > 0,
{
    if r == 0 {
        assert((r + 1) * (r + 1) == 1) by (nonlinear_arith)
            requires
                r == 0,
        ;
    }
}

/// The integer square root of a value below `2^106`.
fn isqrt(n: u128) -> (r: u128)
    requires
        n < 0x400_0000_0000_0000_0000_0000_0000,
    ensures
        is_isqrt(n as int, r as int),
        r == isqrt_spec(n as int),
        r < 0x20_0000_0000_0000,
{
    let mut lo: u128 = 0;
    let mut hi: u128 = 0x20_0000_0000_0000;
    assert(hi * hi == 0x400_0000_0000_0000_0000_0000_0000);
    while hi - lo > 1
        invariant
            lo < hi <= 0x20_0000_0000_0000,
            lo * lo <= n < hi * hi,
        decreases hi - lo,
    {
        let mid = lo + (hi - lo) / 2;
        assert(mid * mid <= 0x20_0000_0000_0000 * 0x20_0000_0000_0000) by (nonlinear_arith)
            requires
                mid <= 0x20_0000_0000_0000,
        ;
        if mid * mid <= n {
            lo = mid;
        } else {
            hi = mid;
        }
    }
    assert(is_isqrt(n as int, lo as int));
    proof {
        lemma_isqrt_unique(n as int, lo as int, isqrt_spec(n as int));
    }
    lo
}

/// Power-law weight of a ratio: zero unless the ratio is positive.
/// Scaling a ratio by a constant scales every weight by the same factor,
/// so the integer ratio itself is weighted.
pub open spec fn weight_spec(v: i64, exponent: Exponent) -> int {
    if v <= 0 {
        0
    } else {
        match exponent {
            Exponent::Two => v * v,
            Exponent::ThreeHalves => isqrt_spec(v * v * v),
        }
    }
}

/// Largest weight (exclusive) of a ratio in bounds.
pub open spec fn weight_cap() -> int {
    0x40_0000_0000_0000_0000
}

proof fn lemma_mul_le(a: int, b: int, x: int, y: int)
    requires
        0 <= a <= x,
        0 <= b <= y,
    ensures
        a * b <= x * y,
{
    assert(a * b <= x * y) by (nonlinear_arith)
        requires
            0 <= a <= x,
            0 <= b <= y,
    ;
}

/// Power-law weight of one ratio.
fn weight(v: i64, exponent: Exponent) -> (r: u128)
    requires
        -RATIO_SCALE <= v <= max_ratio(),
    ensures
        r == weight_spec(v, exponent),
        r < weight_cap(),
        v > 0 ==> r > 0,
{
    if v <= 0 {
        return 0;
    }
    let x = v as u128;
    proof {
        let xi = x as int;
        lemma_mul_le(xi, xi, 0x7_FFFF_FFFFint, 0x7_FFFF_FFFFint);
        assert(0x7_FFFF_FFFFint * 0x7_FFFF_FFFFint < weight_cap());
        lemma_mul_le(xi * xi, xi, 0x40_0000_0000_0000_0000int, 0x8_0000_0000int);
        assert(x * x >= 1) by (nonlinear_arith)
            requires
                x >= 1,
        ;
        lemma_mul_le(1, xi, xi * xi, xi);
    }
    match exponent {
        Exponent::Two => x * x,
        Exponent::ThreeHalves => {
            let n = x * x * x;
            assert(n >= 1);
            let r = isqrt(n);
            proof {
                lemma_isqrt_pos(n as int, r as int);
            }
            r
        },
    }
}

/// Sum of the weights of a sequence of ratios.
pub open spec fn weight_sum(s: Seq<i64>, exponent: Exponent) -> int
    decreases s.len(),
{
    if s.len() == 0 {
        0
    } else {
        weight_sum(s.drop_last(), exponent) + weight_spec(s.last(), exponent)
    }
}

/// Sum of the weights of all ratios of a scenario.
fn total_weight(ratios: &Vec<i64>, exponent: Exponent) -> (r: u128)
    requires
        ratios_ok(ratios@),
    ensures
        r == weight_sum(ratios@, exponent),
        r < NATION_COUNT * weight_cap(),
        r == 0 <==> forall|i: int| 0 <= i < ratios@.len() ==> ratios@[i] <= 0,
{
    let mut acc: u128 = 0;
    let mut i: usize = 0;
    while i < ratios.len()
        invariant
            ratios_ok(ratios@),
            i <= ratios@.len(),
            acc == weight_sum(ratios@.subrange(0, i as int), exponent),
            acc <= i * (weight_cap() - 1),
            acc == 0 <==> forall|j: int| 0 <= j < i ==> ratios@[j] <= 0,
        decreases ratios@.len() - i,
    {
        let w = weight(ratios[i], exponent);
        proof {
            let c = weight_cap() - 1;
            lemma_mul_le(i as int, c, 24, c);
            assert((i + 1) * c == i * c + c) by (nonlinear_arith);
            let s = ratios@.subrange(0, i + 1);
            assert(s.drop_last() =~= ratios@.subrange(0, i as int));
        }
        acc = acc + w;
        i = i + 1;
    }
    assert(ratios@.subrange(0, i as int) =~= ratios@);
    assert(i == 25);
    assert(acc <= 25 * (weight_cap() - 1));
    acc
}

/// The top cluster of a scenario: its size and the first ratio outside it.
pub open spec fn impunity_spec(ratios: Seq<i64>, grouping: Grouping) -> (int, i64) {
    choose|p: (int, i64)| is_impunity(sorted_desc(ratios), p.0, p.1, grouping)
}

proof fn lemma_impunity_unique(s: Seq<i64>, a: (int, i64), b: (int, i64), grouping: Grouping)
    requires
        is_impunity(s, a.0, a.1, grouping),
        is_impunity(s, b.0, b.1, grouping),
    ensures
        a == b,
{
    if a.0 < b.0 {
        assert(joins(prev_of(s, a.0), s[a.0], grouping));
    } else if b.0 < a.0 {
        assert(joins(prev_of(s, b.0), s[b.0], grouping));
    }
}

/// Computes the top cluster and ties it to its specification.
fn impunity_of(ratios: &Vec<i64>, grouping: Grouping) -> (r: (usize, i64))
    requires
        ratios@.len() >= 1,
    ensures
        r.0 == impunity_spec(ratios@, grouping).0,
        r.1 == impunity_spec(ratios@, grouping).1,
        is_impunity(sorted_desc(ratios@), r.0 as int, r.1, grouping),
        r.0 <= ratios@.len(),
{
    let r = impunity(ratios, grouping);
    proof {
        lemma_impunity_is(ratios@, grouping, (r.0 as int, r.1));
        crate::grouping::lemma_sorted_len(ratios@);
    }
    r
}

/// Every raw score numerator stays below this bound.
pub open spec fn score_cap() -> int {
    0x400_0000_0000_0000_0000_0000
}

/// The cluster size used as a divisor: an empty cluster gives no bonus, so
/// it divides by one.
pub open spec fn effective(size: int) -> int {
    if size <= 0 {
        1
    } else {
        size
    }
}

/// Score numerator of a ratio under the current rule, over the denominator
/// `RATIO_SCALE * effective(size)`: a hundred points per unit of ratio above
/// zero, 500 split over the top cluster, and 15 for not being eliminated.
pub open spec fn current_num(v: i64, cluster: (int, i64)) -> int {
    100 * (if v > 0 {
        v as int
    } else {
        0
    }) * effective(cluster.0) + (if v > cluster.1 {
        500 * RATIO_SCALE
    } else {
        0
    }) + (if v > -RATIO_SCALE {
        15 * RATIO_SCALE * effective(cluster.0)
    } else {
        0
    })
}

/// Score numerator of a ratio under the power-law rule, over the denominator
/// `total * effective(size)`: a thousand points shared in proportion to the
/// weights, 300 split over the top cluster, and 15 for not being eliminated.
pub open spec fn proposed_num(v: i64, exponent: Exponent, total: int, cluster: (int, i64)) -> int {
    1000 * weight_spec(v, exponent) * effective(cluster.0) + (if v > cluster.1 {
        300 * total
    } else {
        0
    }) + (if v > -RATIO_SCALE {
        15 * total * effective(cluster.0)
    } else {
        0
    })
}

/// The current rule, scoring with the cluster found by `grouping`.
#[derive(Debug, Clone, Copy, PartialEq, Eq, Structural)]
pub struct Current {
    pub grouping: Grouping,
}

impl Current {
    /// The current rule as it is played: the cluster only holds ratios of at
    /// least one.
    pub fn new() -> (r: Current)
        ensures
            r.grouping == Grouping::Floored,
    {
        Current { grouping: Grouping::Floored }
    }

    /// Raw scores of a scenario under the current rule.
    pub fn score(&self, ratios: &Vec<i64>) -> (r: Scores)
        requires
            ratios_ok(ratios@),
        ensures
            r.den == RATIO_SCALE * effective(impunity_spec(ratios@, self.grouping).0),
            r.nums@.len() == ratios@.len(),
            forall|i: int| 0 <= i < r.nums@.len() ==> #[trigger] r.nums@[i] < score_cap(),
            forall|i: int|
                0 <= i < ratios@.len() ==> r.nums@[i] == current_num(
                    #[trigger] ratios@[i],
                    impunity_spec(ratios@, self.grouping),
                ),
    {
        let (size, boundary) = impunity_of(ratios, self.grouping);
        let eff: u128 = if size == 0 {
            1
        } else {
            size as u128
        };
        let scale: u128 = RATIO_SCALE as u128;
        let mut nums: Vec<u128> = Vec::new();
        let mut i: usize = 0;
        while i < ratios.len()
            invariant
                ratios_ok(ratios@),
                size == impunity_spec(ratios@, self.grouping).0,
                boundary == impunity_spec(ratios@, self.grouping).1,
                eff == effective(size as int),
                1 <= eff <= 25,
                scale == RATIO_SCALE,
                i <= ratios@.len(),
                nums@.len() == i,
                forall|j: int| 0 <= j < i ==> #[trigger] nums@[j] < score_cap(),
                forall|j: int|
                    0 <= j < i ==> nums@[j] == current_num(
                        #[trigger] ratios@[j],
                        impunity_spec(ratios@, self.grouping),
                    ),
            decreases ratios@.len() - i,
        {
            let v = ratios[i];
            let perf: u128 = if v > 0 {
                v as u128
            } else {
                0
            };
            proof {
                assert(perf <= 0x8_0000_0000);
                lemma_mul_le(100 * perf, eff as int, 100 * 0x8_0000_0000int, 25);
                lemma_mul_le(15 * scale, eff as int, 15 * RATIO_SCALE, 25);
            }
            let bonus: u128 = if v > boundary {
                500 * scale
            } else {
                0
            };
            let alive: u128 = if v > -RATIO_SCALE {
                15 * scale * eff
            } else {
                0
            };
            nums.push(100 * perf * eff + bonus + alive);
            i = i + 1;
        }
        Scores { nums, den: scale * eff }
    }
}

/// The power-law rule with the given exponent, scoring with the cluster
/// found by `grouping`.
#[derive(Debug, Clone, Copy, PartialEq, Eq, Structural)]
pub struct Proposed {
    pub exponent: Exponent,
    pub grouping: Grouping,
}

impl Proposed {
    /// The power-law rule as it is proposed: the cluster is found by
    /// closeness alone.
    pub fn new(exponent: Exponent) -> (r: Proposed)
        ensures
            r.exponent == exponent,
            r.grouping == Grouping::Relative,
    {
        Proposed { exponent, grouping: Grouping::Relative }
    }

    /// Raw scores of a scenario under the power-law rule. A scenario in
    /// which no faction has a positive ratio has no weight to share and is
    /// refused.
    pub fn score(&self, ratios: &Vec<i64>) -> (r: Result<Scores, ScoringError>)
        requires
            ratios_ok(ratios@),
        ensures
            r is Err <==> weight_sum(ratios@, self.exponent) == 0,
            r is Err <==> forall|i: int| 0 <= i < ratios@.len() ==> ratios@[i] <= 0,
            r is Err ==> r == Err::<Scores, ScoringError>(ScoringError::DegenerateScenario),
            r matches Ok(sc) ==> {
                &&& sc.den == weight_sum(ratios@, self.exponent) * effective(
                    impunity_spec(ratios@, self.grouping).0,
                )
                &&& sc.nums@.len() == ratios@.len()
                &&& forall|i: int| 0 <= i < sc.nums@.len() ==> #[trigger] sc.nums@[i] < score_cap()
                &&& forall|i: int|
                    0 <= i < ratios@.len() ==> sc.nums@[i] == proposed_num(
                        #[trigger] ratios@[i],
                        self.exponent,
                        weight_sum(ratios@, self.exponent),
                        impunity_spec(ratios@, self.grouping),
                    )
            },
    {
        let total = total_weight(ratios, self.exponent);
        if total == 0 {
            return Err(ScoringError::DegenerateScenario);
        }
        let (size, boundary) = impunity_of(ratios, self.grouping);
        let eff: u128 = if size == 0 {
            1
        } else {
            size as u128
        };
        proof {
            lemma_mul_le(total as int, eff as int, 25 * weight_cap(), 25);
        }
        let mut nums: Vec<u128> = Vec::new();
        let mut i: usize = 0;
        while i < ratios.len()
            invariant
                ratios_ok(ratios@),
                total == weight_sum(ratios@, self.exponent),
                total < 25 * weight_cap(),
                size == impunity_spec(ratios@, self.grouping).0,
                boundary == impunity_spec(ratios@, self.grouping).1,
                eff == effective(size as int),
                1 <= eff <= 25,
                total * eff <= 25 * weight_cap() * 25,
                i <= ratios@.len(),
                nums@.len() == i,
                forall|j: int| 0 <= j < i ==> #[trigger] nums@[j] < score_cap(),
                forall|j: int|
                    0 <= j < i ==> nums@[j] == proposed_num(
                        #[trigger] ratios@[j],
                        self.exponent,
                        total as int,
                        impunity_spec(ratios@, self.grouping),
                    ),
            decreases ratios@.len() - i,
        {
            let v = ratios[i];
            let w = weight(v, self.exponent);
            proof {
                lemma_mul_le(1000 * w, eff as int, 1000 * weight_cap(), 25);
            }
            let bonus: u128 = if v > boundary {
                300 * total
            } else {
                0
            };
            let alive: u128 = if v > -RATIO_SCALE {
                15 * (total * eff)
            } else {
                0
            };
            proof {
                assert(15 * (total * eff) == 15 * total * eff) by (nonlinear_arith);
            }
            nums.push(1000 * w * eff + bonus + alive);
            i = i + 1;
        }
        Ok(Scores { nums, den: total * eff })
    }
}

proof fn lemma_impunity_is(ratios: Seq<i64>, grouping: Grouping, p: (int, i64))
    requires
        is_impunity(sorted_desc(ratios), p.0, p.1, grouping),
    ensures
        impunity_spec(ratios, grouping) == p,
{
    lemma_impunity_unique(sorted_desc(ratios), p, impunity_spec(ratios, grouping), grouping);
}

/// When the ratios rise strictly and no two lie within a quarter of each
/// other, the best faction forms a cluster of its own. Under the floored
/// grouping this needs the best ratio to reach one; below that the cluster
/// is empty.
pub proof fn lemma_spread_leader_alone(ratios: Seq<i64>, grouping: Grouping)
    requires
        ratios.len() >= 2,
        forall|i: int, j: int| 0 <= i < j < ratios.len() ==> #[trigger] ratios[j] - #[trigger] ratios[i] > CLUSTER_GAP,
        grouping == Grouping::Relative || ratios.last() >= RATIO_SCALE,
    ensures
        impunity_spec(ratios, grouping).0 == 1,
        impunity_spec(ratios, grouping).1 == ratios[ratios.len() - 2],
{
    let n = ratios.len();
    let rev = ratios.reverse();
    let leq = |a: i64, b: i64| descending(a, b);
    assert forall|a: int, b: int| 0 <= a < b < rev.len() implies #[trigger] leq(rev[a], rev[b]) by {
        assert(ratios[n - 1 - a] - ratios[n - 1 - b] > CLUSTER_GAP);
    }
    ratios.lemma_reverse_to_multiset();
    lemma_descending_total();
    ratios.lemma_sort_by_ensures(leq);
    lemma_sorted_unique(rev, sorted_desc(ratios), leq);
    let s = sorted_desc(ratios);
    assert(s[1] == ratios[n - 2]);
    assert(ratios[n - 1] - ratios[n - 2] > CLUSTER_GAP);
    assert(prev_of(s, 0) == s[0]);
    assert(chain_holds(s, 1, grouping));
    lemma_impunity_is(ratios, grouping, (1, s[1]));
}

/// Ratios that are all equal are already sorted.
proof fn lemma_constant_sorted(ratios: Seq<i64>)
    requires
        forall|i: int| 0 <= i < ratios.len() ==> #[trigger] ratios[i] == ratios[0],
    ensures
        sorted_desc(ratios) == ratios,
{
    let leq = |a: i64, b: i64| descending(a, b);
    assert forall|a: int, b: int| 0 <= a < b < ratios.len() implies #[trigger] leq(
        ratios[a],
        ratios[b],
    ) by {
        assert(ratios[a] == ratios[0]);
        assert(ratios[b] == ratios[0]);
    }
    lemma_descending_total();
    ratios.lemma_sort_by_ensures(leq);
    lemma_sorted_unique(ratios, sorted_desc(ratios), leq);
}

/// When every faction has the same ratio, all of them form the cluster and
/// the boundary is that ratio, so no faction gets a cluster bonus and all
/// are treated alike. Under the floored grouping this needs the ratio to
/// reach one; below that the cluster is empty.
pub proof fn lemma_equal_ratios_one_cluster(ratios: Seq<i64>, grouping: Grouping)
    requires
        ratios.len() >= 1,
        forall|i: int| 0 <= i < ratios.len() ==> #[trigger] ratios[i] == ratios[0],
        grouping == Grouping::Relative || ratios[0] >= RATIO_SCALE,
    ensures
        impunity_spec(ratios, grouping).0 == ratios.len(),
        impunity_spec(ratios, grouping).1 == ratios[0],
        forall|i: int|
            0 <= i < ratios.len() ==> !(#[trigger] ratios[i] > impunity_spec(ratios, grouping).1),
{
    lemma_constant_sorted(ratios);
    let s = sorted_desc(ratios);
    assert forall|j: int| 0 <= j < s.len() implies joins(#[trigger] prev_of(s, j), s[j], grouping) by {
        assert(s[j] == ratios[0]);
        if j > 0 {
            assert(s[j - 1] == ratios[0]);
        }
    }
    lemma_impunity_is(ratios, grouping, (s.len() as int, s[s.len() - 1]));
}

/// When every faction has the same ratio below one, the floored cluster is
/// empty and its boundary is that ratio, so no faction gets a cluster bonus.
pub proof fn lemma_equal_ratios_below_one(ratios: Seq<i64>)
    requires
        ratios.len() >= 1,
        forall|i: int| 0 <= i < ratios.len() ==> #[trigger] ratios[i] == ratios[0],
        ratios[0] < RATIO_SCALE,
    ensures
        impunity_spec(ratios, Grouping::Floored) == (0int, ratios[0]),
{
    lemma_constant_sorted(ratios);
    lemma_impunity_is(ratios, Grouping::Floored, (0int, ratios[0]));
}

proof fn lemma_isqrt_exists(n: int)
    requires
        n >= 0,
    ensures
        is_isqrt(n, isqrt_spec(n)),
    decreases n,
{
    if n == 0 {
        assert(is_isqrt(0, 0));
    } else {
        lemma_isqrt_exists(n - 1);
        let r = isqrt_spec(n - 1);
        if (r + 1) * (r + 1) <= n {
            assert(n < (r + 2) * (r + 2)) by (nonlinear_arith)
                requires
                    n - 1 < (r + 1) * (r + 1),
                    (r + 1) * (r + 1) <= n,
                    r >= 0,
            ;
            assert(is_isqrt(n, r + 1));
        } else {
            assert(is_isqrt(n, r));
        }
    }
}

proof fn lemma_isqrt_monotone(small: int, large: int)
    requires
        0 <= small <= large,
    ensures
        isqrt_spec(small) <= isqrt_spec(large),
{
    lemma_isqrt_exists(small);
    lemma_isqrt_exists(large);
    let a = isqrt_spec(small);
    let b = isqrt_spec(large);
    if b < a {
        assert((b + 1) * (b + 1) <= a * a) by (nonlinear_arith)
            requires
                0 <= b,
                b + 1 <= a,
        ;
    }
}

/// Weights never decrease as the ratio grows, and are never negative.
pub proof fn lemma_weight_monotone(low: i64, high: i64, exponent: Exponent)
    requires
        low <= high,
    ensures
        0 <= weight_spec(low, exponent) <= weight_spec(high, exponent),
{
    if high > 0 {
        let h = high as int;
        assert(h * h >= 0 && h * h * h >= 0) by (nonlinear_arith)
            requires
                h > 0,
        ;
        lemma_isqrt_exists(h * h * h);
        if low > 0 {
            let l = low as int;
            assert(l * l <= h * h && l * l * l <= h * h * h && l * l * l >= 0) by (nonlinear_arith)
                requires
                    0 < l <= h,
            ;
            lemma_isqrt_monotone(l * l * l, h * h * h);
            lemma_isqrt_exists(l * l * l);
        }
    }
}

/// The weights of a scenario never sum below zero.
pub proof fn lemma_weight_sum_nonneg(s: Seq<i64>, exponent: Exponent)
    ensures
        weight_sum(s, exponent) >= 0,
    decreases s.len(),
{
    if s.len() > 0 {
        lemma_weight_sum_nonneg(s.drop_last(), exponent);
        lemma_weight_monotone(s.last(), s.last(), exponent);
    }
}

} // verus!
