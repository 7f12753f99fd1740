use vstd::prelude::*;
use crate::nation::{ScoringError, NATION_COUNT};
use crate::normalize::{
    Normalization, normalize_scenario, ratios_ok, scenario_ok, scenario_ratios_spec,
};
use crate::scoring::{
    Current, Proposed, Scores, current_num, proposed_num, impunity_spec, weight_sum, score_cap,
    effective, weight_spec, lemma_weight_monotone, lemma_weight_sum_nonneg,
    lemma_equal_ratios_one_cluster, lemma_equal_ratios_below_one,
};
use crate::grouping::Grouping;
use crate::normalize::RATIO_SCALE;

verus! {

/// Rating points shared out by one game.
pub const RATING_POOL_PER_GAME: i128 = 2625;

/// Break-even share of one faction: the pool over the number of factions.
pub const BASELINE: i128 = 105;

/// Sum of a sequence of integers.
pub open spec fn total(s: Seq<int>) -> int
    decreases s.len(),
{
    if s.len() == 0 {
        0
    } else {
        total(s.drop_last()) + s.last()
    }
}

/// The unsigned values as integers.
pub open spec fn as_ints(s: Seq<u128>) -> Seq<int> {
    s.map_values(|x: u128| x as int)
}

/// The signed values as integers.
pub open spec fn signed_ints(s: Seq<i128>) -> Seq<int> {
    s.map_values(|x: i128| x as int)
}

/// Shares of the pool: faction `i` receives `parts[i] / whole` of it.
#[derive(Debug)]
pub struct Proportions {
    pub parts: Vec<u128>,
    pub whole: u128,
}

/// Net rating changes: faction `i` gains `nums[i] / den` points.
#[derive(Debug)]
pub struct RatingChanges {
    pub nums: Vec<i128>,
    pub den: u128,
}

/// Numerator, over the total score, of the net change of a faction whose
/// score is `part` out of `whole`: its share of the pool less the baseline.
pub open spec fn rating_num(part: int, whole: int) -> int {
    RATING_POOL_PER_GAME * part - BASELINE * whole
}

/// The net change numerators of every faction.
pub open spec fn rating_nums(parts: Seq<int>) -> Seq<int> {
    Seq::new(parts.len(), |i: int| rating_num(parts[i], total(parts)))
}

/// Each faction's score as a share of the scenario's total score. A total of
/// zero leaves nothing to share and is refused.
pub fn scores_to_proportions(scores: &Scores) -> (r: Result<Proportions, ScoringError>)
    requires
        scores.nums@.len() == NATION_COUNT,
        forall|i: int| 0 <= i < scores.nums@.len() ==> #[trigger] scores.nums@[i] < score_cap(),
    ensures
        r is Err <==> total(as_ints(scores.nums@)) == 0,
        r is Err ==> r == Err::<Proportions, ScoringError>(ScoringError::DegenerateScenario),
        r matches Ok(p) ==> p.parts@ == scores.nums@ && p.whole == total(as_ints(scores.nums@)),
        r matches Ok(p) ==> p.whole < NATION_COUNT * score_cap(),
{
    let mut sum: u128 = 0;
    let mut i: usize = 0;
    while i < scores.nums.len()
        invariant
            scores.nums@.len() == NATION_COUNT,
            forall|j: int|
                0 <= j < scores.nums@.len() ==> #[trigger] scores.nums@[j] < score_cap(),
            i <= scores.nums@.len(),
            sum == total(as_ints(scores.nums@.subrange(0, i as int))),
            sum <= i * (score_cap() - 1),
        decreases scores.nums@.len() - i,
    {
        proof {
            let c = score_cap() - 1;
            assert((i + 1) * c == i * c + c) by (nonlinear_arith);
            assert(i * c <= 24 * c) by (nonlinear_arith)
                requires
                    i <= 24,
                    c > 0,
            ;
            let s = as_ints(scores.nums@.subrange(0, i + 1));
            assert(s.drop_last() =~= as_ints(scores.nums@.subrange(0, i as int)));
        }
        sum = sum + scores.nums[i];
        i = i + 1;
    }
    assert(scores.nums@.subrange(0, i as int) =~= scores.nums@);
    assert(i == 25);
    assert(sum <= 25 * (score_cap() - 1));
    if sum == 0 {
        return Err(ScoringError::DegenerateScenario);
    }
    let parts = scores.nums.clone();
    Ok(Proportions { parts, whole: sum })
}

/// The sum of the net change numerators is the pool times the total less
/// the baseline times the total once per faction.
proof fn lemma_rating_total(parts: Seq<int>, whole: int)
    ensures
        total(Seq::new(parts.len(), |i: int| rating_num(parts[i], whole))) == RATING_POOL_PER_GAME
            * total(parts) - BASELINE * whole * parts.len(),
    decreases parts.len(),
{
    let f = Seq::new(parts.len(), |i: int| rating_num(parts[i], whole));
    if parts.len() > 0 {
        let p = parts.drop_last();
        lemma_rating_total(p, whole);
        assert(f.drop_last() =~= Seq::new(p.len(), |i: int| rating_num(p[i], whole)));
        assert(BASELINE * whole * parts.len() == BASELINE * whole * p.len() + BASELINE * whole)
            by (nonlinear_arith)
            requires
                parts.len() == p.len() + 1,
        ;
    }
}

/// Net rating changes sum to zero: the pool is shared out in full and the
/// baseline is the pool's share per faction.
pub proof fn lemma_rating_changes_sum_to_zero(parts: Seq<int>)
    requires
        parts.len() == NATION_COUNT,
    ensures
        total(rating_nums(parts)) == 0,
{
    lemma_rating_total(parts, total(parts));
}

/// Net rating change of each faction: its share of the pool less the
/// baseline, over the total score.
pub fn rating_changes(p: &Proportions) -> (r: RatingChanges)
    requires
        p.parts@.len() == NATION_COUNT,
        forall|i: int| 0 <= i < p.parts@.len() ==> #[trigger] p.parts@[i] < score_cap(),
        p.whole == total(as_ints(p.parts@)),
        p.whole < NATION_COUNT * score_cap(),
    ensures
        r.den == p.whole,
        signed_ints(r.nums@) == rating_nums(as_ints(p.parts@)),
        total(signed_ints(r.nums@)) == 0,
{
    let mut nums: Vec<i128> = Vec::new();
    let whole = p.whole as i128;
    let mut i: usize = 0;
    while i < p.parts.len()
        invariant
            p.parts@.len() == NATION_COUNT,
            forall|j: int| 0 <= j < p.parts@.len() ==> #[trigger] p.parts@[j] < score_cap(),
            p.whole == total(as_ints(p.parts@)),
            p.whole < NATION_COUNT * score_cap(),
            whole == p.whole,
            i <= p.parts@.len(),
            nums@.len() == i,
            forall|j: int|
                0 <= j < i ==> #[trigger] nums@[j] == rating_num(
                    p.parts@[j] as int,
                    p.whole as int,
                ),
        decreases p.parts@.len() - i,
    {
        let part = p.parts[i] as i128;
        nums.push(RATING_POOL_PER_GAME * part - BASELINE * whole);
        i = i + 1;
    }
    proof {
        assert(signed_ints(nums@) =~= rating_nums(as_ints(p.parts@)));
        lemma_rating_changes_sum_to_zero(as_ints(p.parts@));
    }
    RatingChanges { nums, den: p.whole }
}

impl RatingChanges {
    /// The change of faction `i` rounded to the nearest integer, halves
    /// rounded up.
    pub fn rounded(&self, i: usize) -> (r: i128)
        requires
            i < self.nums@.len(),
            self.den > 0,
            self.den < 0x1_0000_0000_0000_0000_0000_0000_0000,
            -0x1_0000_0000_0000_0000_0000_0000_0000 < self.nums@[i as int]
                < 0x1_0000_0000_0000_0000_0000_0000_0000,
        ensures
            r == (2 * self.nums@[i as int] + self.den) / (2 * self.den as int),
    {
        let a: i128 = 2 * self.nums[i] + self.den as i128;
        let b: i128 = 2 * self.den as i128;
        if a >= 0 {
            a / b
        } else {
            let q = (-a + b - 1) / b;
            proof {
                let (ai, bi, qi) = (a as int, b as int, q as int);
                assert(-qi == ai / bi) by (nonlinear_arith)
                    requires
                        ai < 0,
                        bi > 0,
                        qi == (-ai + bi - 1) / bi,
                ;
            }
            -q
        }
    }
}

/// A scoring rule.
#[derive(Debug, Clone, Copy, PartialEq, Eq, Structural)]
pub enum Strategy {
    Current(Current),
    Proposed(Proposed),
}

impl Strategy {
    /// Can the rule score the ratios at all?
    pub open spec fn scores_defined(self, ratios: Seq<i64>) -> bool {
        match self {
            Strategy::Current(_) => true,
            Strategy::Proposed(p) => weight_sum(ratios, p.exponent) != 0,
        }
    }

    /// Score numerators of every faction, over a denominator shared by the
    /// whole scenario.
    pub open spec fn score_nums(self, ratios: Seq<i64>) -> Seq<int> {
        match self {
            Strategy::Current(c) => Seq::new(
                ratios.len(),
                |i: int| current_num(ratios[i], impunity_spec(ratios, c.grouping)),
            ),
            Strategy::Proposed(p) => Seq::new(
                ratios.len(),
                |i: int|
                    proposed_num(
                        ratios[i],
                        p.exponent,
                        weight_sum(ratios, p.exponent),
                        impunity_spec(ratios, p.grouping),
                    ),
            ),
        }
    }

    /// Raw scores of a scenario under the rule.
    pub fn score(&self, ratios: &Vec<i64>) -> (r: Result<Scores, ScoringError>)
        requires
            ratios_ok(ratios@),
        ensures
            r is Err <==> !self.scores_defined(ratios@),
            r is Err ==> r == Err::<Scores, ScoringError>(ScoringError::DegenerateScenario),
            r matches Ok(sc) ==> {
                &&& as_ints(sc.nums@) == self.score_nums(ratios@)
                &&& sc.nums@.len() == NATION_COUNT
                &&& forall|i: int|
                    0 <= i < sc.nums@.len() ==> #[trigger] sc.nums@[i] < score_cap()
            },
    {
        match self {
            Strategy::Current(c) => {
                let sc = c.score(ratios);
                assert(as_ints(sc.nums@) =~= self.score_nums(ratios@));
                Ok(sc)
            },
            Strategy::Proposed(p) => {
                let r = p.score(ratios);
                if let Ok(sc) = &r {
                    assert(as_ints(sc.nums@) =~= self.score_nums(ratios@));
                }
                r
            },
        }
    }
}

/// Net rating changes of one scenario record under one rule.
pub fn evaluate(counts: &Vec<u64>, mode: Normalization, strategy: Strategy) -> (r: Result<
    RatingChanges,
    ScoringError,
>)
    ensures
        !scenario_ok(counts@) ==> r == Err::<RatingChanges, ScoringError>(
            ScoringError::MalformedScenario,
        ),
        scenario_ok(counts@) ==> {
            let ratios = scenario_ratios_spec(counts@, mode);
            let nums = strategy.score_nums(ratios);
            if !strategy.scores_defined(ratios) || total(nums) == 0 {
                r == Err::<RatingChanges, ScoringError>(ScoringError::DegenerateScenario)
            } else {
                r matches Ok(rc) && rc.den == total(nums) && signed_ints(rc.nums@) == rating_nums(
                    nums,
                ) && total(signed_ints(rc.nums@)) == 0
            }
        },
{
    let ratios = normalize_scenario(counts, mode)?;
    let scores = strategy.score(&ratios)?;
    let props = scores_to_proportions(&scores)?;
    Ok(rating_changes(&props))
}

/// Within one scenario and under one rule, a faction with a higher ratio
/// never scores below a faction with a lower one (scores share their
/// denominator, so comparing numerators compares scores).
pub proof fn lemma_scores_monotone(strategy: Strategy, ratios: Seq<i64>, a: int, b: int)
    requires
        0 <= a < ratios.len(),
        0 <= b < ratios.len(),
        ratios[a] > ratios[b],
    ensures
        strategy.score_nums(ratios)[a] >= strategy.score_nums(ratios)[b],
{
    let (va, vb) = (ratios[a], ratios[b]);
    match strategy {
        Strategy::Current(c) => {
            let e = effective(impunity_spec(ratios, c.grouping).0);
            let pa: int = if va > 0 { va as int } else { 0 };
            let pb: int = if vb > 0 { vb as int } else { 0 };
            assert(100 * pa * e >= 100 * pb * e) by (nonlinear_arith)
                requires
                    pa >= pb,
                    e >= 1,
            ;
        },
        Strategy::Proposed(p) => {
            let e = effective(impunity_spec(ratios, p.grouping).0);
            let t = weight_sum(ratios, p.exponent);
            lemma_weight_sum_nonneg(ratios, p.exponent);
            lemma_weight_monotone(vb, va, p.exponent);
            let wa = weight_spec(va, p.exponent);
            let wb = weight_spec(vb, p.exponent);
            assert(1000 * wa * e >= 1000 * wb * e) by (nonlinear_arith)
                requires
                    wa >= wb,
                    e >= 1,
            ;
            assert(15 * t * e >= 0) by (nonlinear_arith)
                requires
                    t >= 0,
                    e >= 1,
            ;
        },
    }
}

proof fn lemma_total_nonneg(s: Seq<int>)
    requires
        forall|i: int| 0 <= i < s.len() ==> #[trigger] s[i] >= 0,
    ensures
        total(s) >= 0,
        total(s) == 0 <==> forall|i: int| 0 <= i < s.len() ==> #[trigger] s[i] == 0,
    decreases s.len(),
{
    if s.len() > 0 {
        let p = s.drop_last();
        assert forall|i: int| 0 <= i < p.len() implies #[trigger] p[i] >= 0 by {
            assert(p[i] == s[i]);
        }
        lemma_total_nonneg(p);
        if total(s) == 0 {
            assert forall|i: int| 0 <= i < s.len() implies #[trigger] s[i] == 0 by {
                if i < p.len() {
                    assert(p[i] == s[i]);
                }
            }
        }
        if forall|i: int| 0 <= i < s.len() ==> #[trigger] s[i] == 0 {
            assert forall|i: int| 0 <= i < p.len() implies #[trigger] p[i] == 0 by {
                assert(p[i] == s[i]);
            }
        }
    }
}

/// The current rule has nothing to share out, and the scenario is refused,
/// exactly when every faction has been eliminated.
pub proof fn lemma_current_degenerate_iff_all_eliminated(c: Current, ratios: Seq<i64>)
    requires
        ratios_ok(ratios),
    ensures
        total(Strategy::Current(c).score_nums(ratios)) == 0 <==> forall|i: int|
            0 <= i < ratios.len() ==> #[trigger] ratios[i] == -RATIO_SCALE,
{
    let nums = Strategy::Current(c).score_nums(ratios);
    let cl = impunity_spec(ratios, c.grouping);
    let e = effective(cl.0);
    assert forall|i: int| 0 <= i < nums.len() implies #[trigger] nums[i] >= 0 && (nums[i] == 0
        ==> ratios[i] == -RATIO_SCALE) by {
        let v = ratios[i];
        let pv: int = if v > 0 { v as int } else { 0 };
        assert(100 * pv * e >= 0) by (nonlinear_arith)
            requires
                pv >= 0,
                e >= 1,
        ;
        assert(15 * RATIO_SCALE * e > 0) by (nonlinear_arith)
            requires
                e >= 1,
        ;
    }
    lemma_total_nonneg(nums);
    if total(nums) == 0 {
        assert forall|i: int| 0 <= i < ratios.len() implies #[trigger] ratios[i]
            == -RATIO_SCALE by {
            assert(nums[i] == 0);
        }
    }
    if forall|i: int| 0 <= i < ratios.len() ==> #[trigger] ratios[i] == -RATIO_SCALE {
        assert(ratios[0] == -RATIO_SCALE);
        if c.grouping == Grouping::Relative {
            lemma_equal_ratios_one_cluster(ratios, c.grouping);
        } else {
            lemma_equal_ratios_below_one(ratios);
        }
        assert(cl.1 == -RATIO_SCALE);
        assert(100 * 0int * e == 0);
        assert forall|i: int| 0 <= i < nums.len() implies #[trigger] nums[i] == 0 by {
            assert(ratios[i] == -RATIO_SCALE);
        }
    }
}

} // verus!
