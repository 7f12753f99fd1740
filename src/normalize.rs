use vstd::prelude::*;
use crate::nation::{Nation, ScoringError, NATION_COUNT};

verus! {

/// Ratios are integers in units of `1 / RATIO_SCALE`. The scale is the least
/// common multiple of every divisor either normalization uses (starting
/// counts, thresholds and their differences), so every ratio is exact.
pub const RATIO_SCALE: i64 = 11874240;

/// Largest territory count a scenario may hold; it keeps every product of
/// the scoring rules within machine integers.
pub const MAX_COUNT: u64 = 65535;

/// How a count at or above the starting count is turned into progress.
#[derive(Debug, Clone, Copy, PartialEq, Eq, Structural)]
pub enum Normalization {
    /// Progress over the remaining distance: `(count - start) / (threshold - start)`.
    DistanceToVictory,
    /// Progress over the whole victory size: `(count - start) / threshold`.
    ShareOfVictory,
}

/// Exact performance ratio of `nation` ending with `count` territories,
/// in units of `1 / RATIO_SCALE`.
pub open spec fn ratio_spec(nation: Nation, count: int, mode: Normalization) -> int {
    let start = nation.start_spec() as int;
    let thr = nation.threshold_spec() as int;
    if count < start {
        -(((start - count) * RATIO_SCALE) / start)
    } else {
        match mode {
            Normalization::DistanceToVictory => ((count - start) * RATIO_SCALE) / (thr - start),
            Normalization::ShareOfVictory => ((count - start) * RATIO_SCALE) / thr,
        }
    }
}

/// The largest ratio a count of at most `MAX_COUNT` can give.
pub open spec fn max_ratio() -> int {
    (MAX_COUNT as int) * (RATIO_SCALE as int) / 28
}

proof fn lemma_ratio_bounds(nation: Nation, count: int, mode: Normalization)
    requires
        0 <= count <= MAX_COUNT,
    ensures
        -RATIO_SCALE <= ratio_spec(nation, count, mode) <= max_ratio(),
{
    nation.lemma_start_in_table();
    let start = nation.start_spec() as int;
    let thr = nation.threshold_spec() as int;
    if count < start {
        assert((start - count) * RATIO_SCALE <= start * RATIO_SCALE) by (nonlinear_arith)
            requires
                0 < start - count <= start,
        ;
        assert(((start - count) * RATIO_SCALE) / start <= (start * RATIO_SCALE) / start) by (
        nonlinear_arith)
            requires
                (start - count) * RATIO_SCALE <= start * RATIO_SCALE,
                start > 0,
        ;
        assert((start * RATIO_SCALE) / start == RATIO_SCALE) by (nonlinear_arith)
            requires
                start > 0,
        ;
        assert(((start - count) * RATIO_SCALE) / start >= 0) by (nonlinear_arith)
            requires
                start > count,
                start > 0,
        ;
    } else {
        let x = (count - start) * RATIO_SCALE;
        assert(0 <= x <= (MAX_COUNT as int) * RATIO_SCALE) by (nonlinear_arith)
            requires
                x == (count - start) * RATIO_SCALE,
                0 <= count - start <= MAX_COUNT,
        ;
        let d = match mode {
            Normalization::DistanceToVictory => thr - start,
            Normalization::ShareOfVictory => thr,
        };
        assert(x / d <= x / 28) by (nonlinear_arith)
            requires
                d >= 28,
                x >= 0,
        ;
        assert(x / 28 <= max_ratio()) by (nonlinear_arith)
            requires
                x <= (MAX_COUNT as int) * RATIO_SCALE,
        ;
        assert(x / d >= 0) by (nonlinear_arith)
            requires
                d > 0,
                x >= 0,
        ;
    }
}

impl Nation {
    /// Performance ratio of the faction ending with `sc_count` territories:
    /// the negated shortfall below the starting count, or the progress from
    /// the starting count towards the victory threshold.
    pub fn vscc_percent(&self, sc_count: u64, mode: Normalization) -> (r: i64)
        requires
            sc_count <= MAX_COUNT,
        ensures
            r == ratio_spec(*self, sc_count as int, mode),
            -RATIO_SCALE <= r <= max_ratio(),
    {
        proof {
            self.lemma_start_in_table();
            lemma_ratio_bounds(*self, sc_count as int, mode);
        }
        let start = self.starting_sc_count();
        if sc_count < start {
            let short = (start - sc_count) * (RATIO_SCALE as u64);
            let r = short / start;
            -(r as i64)
        } else {
            let thr = match crate::nation::starting_scs_to_vscc(start) {
                Ok(t) => t,
                Err(_) => vstd::pervasive::unreached(),
            };
            let gained = (sc_count - start) * (RATIO_SCALE as u64);
            let d = match mode {
                Normalization::DistanceToVictory => thr - start,
                Normalization::ShareOfVictory => thr,
            };
            (gained / d) as i64
        }
    }
}

/// Ratios of a whole scenario, one per faction in record order.
pub open spec fn scenario_ratios_spec(counts: Seq<u64>, mode: Normalization) -> Seq<i64> {
    Seq::new(
        counts.len(),
        |i: int| ratio_spec(nation_at(i), counts[i] as int, mode) as i64,
    )
}

/// The faction at position `i` of scenario records.
pub open spec fn nation_at(i: int) -> Nation {
    choose|n: Nation| n.index_spec() == i
}

/// Is the scenario well formed: one count per faction, each within bounds?
pub open spec fn scenario_ok(counts: Seq<u64>) -> bool {
    counts.len() == NATION_COUNT && forall|i: int| 0 <= i < counts.len() ==> counts[i] <= MAX_COUNT
}

/// Every ratio that a well-formed scenario can produce: one per faction,
/// each between minus one and the largest reachable value.
pub open spec fn ratios_ok(ratios: Seq<i64>) -> bool {
    &&& ratios.len() == NATION_COUNT
    &&& forall|i: int| 0 <= i < ratios.len() ==> -RATIO_SCALE <= #[trigger] ratios[i] <= max_ratio()
}

/// Normalizes a scenario record into one ratio per faction.
pub fn normalize_scenario(counts: &Vec<u64>, mode: Normalization) -> (r: Result<
    Vec<i64>,
    ScoringError,
>)
    ensures
        scenario_ok(counts@) ==> (r matches Ok(v) && v@ == scenario_ratios_spec(counts@, mode)
            && ratios_ok(v@)),
        !scenario_ok(counts@) ==> r == Err::<Vec<i64>, ScoringError>(
            ScoringError::MalformedScenario,
        ),
{
    if counts.len() != NATION_COUNT {
        return Err(ScoringError::MalformedScenario);
    }
    let mut out: Vec<i64> = Vec::new();
    let mut i: usize = 0;
    while i < counts.len()
        invariant
            counts@.len() == NATION_COUNT,
            i <= counts@.len(),
            out@.len() == i,
            forall|j: int| 0 <= j < i ==> counts@[j] <= MAX_COUNT,
            forall|j: int|
                0 <= j < i ==> out@[j] == ratio_spec(nation_at(j), counts@[j] as int, mode),
            forall|j: int| 0 <= j < i ==> -RATIO_SCALE <= #[trigger] out@[j] <= max_ratio(),
        decreases counts@.len() - i,
    {
        if counts[i] > MAX_COUNT {
            return Err(ScoringError::MalformedScenario);
        }
        let n = match Nation::from_index(i as u8) {
            Some(n) => n,
            None => vstd::pervasive::unreached(),
        };
        proof {
            assert(n.index_spec() == i);
            assert(nation_at(i as int).index_spec() == i);
            lemma_index_injective(n, nation_at(i as int));
        }
        let v = n.vscc_percent(counts[i], mode);
        out.push(v);
        i = i + 1;
    }
    assert(out@ =~= scenario_ratios_spec(counts@, mode));
    Ok(out)
}

proof fn lemma_index_injective(a: Nation, b: Nation)
    requires
        a.index_spec() == b.index_spec(),
    ensures
        a == b,
{
}

/// A faction that ends where it started has ratio zero.
pub proof fn lemma_normalize_at_start(nation: Nation, mode: Normalization)
    ensures
        ratio_spec(nation, nation.start_spec() as int, mode) == 0,
{
}

/// A faction with no territory left has ratio minus one.
pub proof fn lemma_normalize_eliminated(nation: Nation, mode: Normalization)
    ensures
        ratio_spec(nation, 0, mode) == -RATIO_SCALE,
{
    nation.lemma_start_in_table();
}

/// A faction that ends exactly at its victory threshold has ratio one when
/// progress is measured over the remaining distance, and
/// `(threshold - start) / threshold` when it is measured over the whole
/// victory size; both are exact.
pub proof fn lemma_normalize_at_threshold(nation: Nation)
    ensures
        ratio_spec(nation, nation.threshold_spec() as int, Normalization::DistanceToVictory)
            == RATIO_SCALE,
        ratio_spec(nation, nation.threshold_spec() as int, Normalization::ShareOfVictory)
            * nation.threshold_spec() == (nation.threshold_spec() - nation.start_spec())
            * RATIO_SCALE,
{
    nation.lemma_start_in_table();
    let k = nation.threshold_spec() - nation.start_spec();
    assert((k * RATIO_SCALE) / k == RATIO_SCALE) by (nonlinear_arith)
        requires
            k > 0,
    ;
    let st = nation.start_spec();
    if st == 4 {
        assert(((28 * RATIO_SCALE) / 32) * 32 == 28 * RATIO_SCALE);
    } else if st == 5 {
        assert(((31 * RATIO_SCALE) / 36) * 36 == 31 * RATIO_SCALE);
    } else if st == 7 {
        assert(((35 * RATIO_SCALE) / 42) * 42 == 35 * RATIO_SCALE);
    } else if st == 10 {
        assert(((38 * RATIO_SCALE) / 48) * 48 == 38 * RATIO_SCALE);
    } else if st == 14 {
        assert(((42 * RATIO_SCALE) / 56) * 56 == 42 * RATIO_SCALE);
    } else if st == 16 {
        assert(((48 * RATIO_SCALE) / 64) * 64 == 48 * RATIO_SCALE);
    }
}

} // verus!
