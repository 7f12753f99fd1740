use vscc_rating::{
    evaluate, impunity, normalize_scenario, rating_changes, scores_to_proportions,
    sort_descending, starting_scs_to_vscc, Current, Exponent, Grouping, Nation, Normalization,
    Proposed, RatingChanges, ScoringError, Strategy, NATION_COUNT, RATIO_SCALE,
};

fn starting_counts() -> Vec<u64> {
    (0..NATION_COUNT as u8)
        .map(|i| Nation::from_index(i).unwrap().starting_sc_count())
        .collect()
}

fn all_strategies() -> Vec<Strategy> {
    vec![
        Strategy::Current(Current::new()),
        Strategy::Proposed(Proposed::new(Exponent::ThreeHalves)),
        Strategy::Proposed(Proposed::new(Exponent::Two)),
    ]
}

fn rounded_all(rc: &RatingChanges) -> Vec<i128> {
    (0..rc.nums.len()).map(|i| rc.rounded(i)).collect()
}

fn mixed_counts() -> Vec<u64> {
    let mut counts = starting_counts();
    counts[0] = 40;
    counts[1] = 64;
    counts[7] = 21;
    counts[24] = 0;
    counts
}

#[test]
fn victory_table_lookup() {
    assert_eq!(starting_scs_to_vscc(4), Ok(32));
    assert_eq!(starting_scs_to_vscc(5), Ok(36));
    assert_eq!(starting_scs_to_vscc(7), Ok(42));
    assert_eq!(starting_scs_to_vscc(10), Ok(48));
    assert_eq!(starting_scs_to_vscc(14), Ok(56));
    assert_eq!(starting_scs_to_vscc(16), Ok(64));
    assert_eq!(starting_scs_to_vscc(6), Err(ScoringError::InvalidStartingCount));
    assert_eq!(starting_scs_to_vscc(0), Err(ScoringError::InvalidStartingCount));
}

#[test]
fn registry_order_and_starts() {
    assert_eq!(Nation::from_index(0), Some(Nation::Portugal));
    assert_eq!(Nation::from_index(24), Some(Nation::Tokugawa));
    assert_eq!(Nation::from_index(25), None);
    assert_eq!(Nation::Poland.index(), 7);
    assert_eq!(Nation::Portugal.starting_sc_count(), 16);
    assert_eq!(Nation::England.starting_sc_count(), 14);
    assert_eq!(Nation::Russia.starting_sc_count(), 10);
    assert_eq!(Nation::Poland.starting_sc_count(), 7);
    assert_eq!(Nation::Qing.starting_sc_count(), 5);
    assert_eq!(Nation::Kongo.starting_sc_count(), 4);
    for i in 0..NATION_COUNT as u8 {
        let n = Nation::from_index(i).unwrap();
        assert_eq!(n.index(), i as usize);
        assert!(starting_scs_to_vscc(n.starting_sc_count()).is_ok());
    }
}

#[test]
fn aliases_resolve_ignoring_case() {
    assert_eq!(Nation::try_from("Dutch"), Ok(Nation::Netherlands));
    assert_eq!(Nation::try_from("POR"), Ok(Nation::Portugal));
    assert_eq!(Nation::try_from("ute"), Ok(Nation::UteShoshone));
    assert_eq!(Nation::try_from("Ute-Shoshone"), Ok(Nation::UteShoshone));
    assert_eq!(Nation::try_from("poland-lithuania"), Ok(Nation::Poland));
    assert_eq!(Nation::try_from("toku"), Ok(Nation::Tokugawa));
    assert_eq!(Nation::try_from("atlantis"), Err(ScoringError::UnknownFaction));
    assert_eq!(Nation::try_from(""), Err(ScoringError::UnknownFaction));
    assert_eq!(Nation::try_from("portugalx"), Err(ScoringError::UnknownFaction));
}

#[test]
fn names_round_trip_through_aliases() {
    assert_eq!(Nation::Aymara.name(), "aymara");
    assert_eq!(Nation::Ayutthaya.name(), "ayutthaya");
    assert_eq!(Nation::UteShoshone.name(), "ute-shoshone");
    for i in 0..NATION_COUNT as u8 {
        let n = Nation::from_index(i).unwrap();
        assert_eq!(Nation::try_from(n.name()), Ok(n));
    }
}

#[test]
fn normalize_fixed_points() {
    for i in 0..NATION_COUNT as u8 {
        let n = Nation::from_index(i).unwrap();
        let start = n.starting_sc_count();
        let thr = starting_scs_to_vscc(start).unwrap();
        for mode in [Normalization::DistanceToVictory, Normalization::ShareOfVictory] {
            assert_eq!(n.vscc_percent(start, mode), 0);
            assert_eq!(n.vscc_percent(0, mode), -RATIO_SCALE);
        }
        assert_eq!(n.vscc_percent(thr, Normalization::DistanceToVictory), RATIO_SCALE);
        let share = n.vscc_percent(thr, Normalization::ShareOfVictory);
        assert_eq!(share as i128 * thr as i128, (thr - start) as i128 * RATIO_SCALE as i128);
    }
}

#[test]
fn normalize_exact_values() {
    // 3 of 7: a shortfall of four sevenths.
    assert_eq!(Nation::Poland.vscc_percent(3, Normalization::DistanceToVictory), -6785280);
    // 21 of 7 towards 42: two fifths of the way.
    assert_eq!(Nation::Poland.vscc_percent(21, Normalization::DistanceToVictory), 4749696);
    // 32 from 16: a quarter of the victory size of 64.
    assert_eq!(Nation::Spain.vscc_percent(32, Normalization::ShareOfVictory), RATIO_SCALE / 4);
    assert_eq!(Nation::Spain.vscc_percent(32, Normalization::DistanceToVictory), RATIO_SCALE / 3);
    // Beyond the threshold the ratio exceeds one.
    assert_eq!(Nation::Kongo.vscc_percent(60, Normalization::DistanceToVictory), 2 * RATIO_SCALE);
}

#[test]
fn malformed_scenarios_are_refused() {
    let short: Vec<u64> = vec![4; 24];
    assert_eq!(
        normalize_scenario(&short, Normalization::DistanceToVictory),
        Err(ScoringError::MalformedScenario)
    );
    let mut big = starting_counts();
    big[3] = 70000;
    assert_eq!(
        normalize_scenario(&big, Normalization::DistanceToVictory),
        Err(ScoringError::MalformedScenario)
    );
    for s in all_strategies() {
        assert!(matches!(
            evaluate(&short, Normalization::DistanceToVictory, s),
            Err(ScoringError::MalformedScenario)
        ));
    }
}

#[test]
fn sort_orders_from_best() {
    let v = vec![3, -1, 7, 3, 0];
    assert_eq!(sort_descending(&v), vec![7, 3, 3, 0, -1]);
    assert_eq!(sort_descending(&vec![]), Vec::<i64>::new());
}

#[test]
fn spread_ratios_leave_leader_alone() {
    let q = RATIO_SCALE / 4;
    let ratios: Vec<i64> = (0..NATION_COUNT as i64).map(|i| -RATIO_SCALE + i * (q + 1)).collect();
    assert_eq!(impunity(&ratios, Grouping::Relative), (1, ratios[23]));
    // Under the floored grouping the leader must reach one.
    assert_eq!(impunity(&ratios, Grouping::Floored), (1, ratios[23]));
    // Below one the floored cluster is empty and its boundary is the best ratio.
    let lowered: Vec<i64> = ratios.iter().map(|v| v - 6 * RATIO_SCALE).collect();
    assert_eq!(impunity(&lowered, Grouping::Floored), (0, lowered[24]));
}

#[test]
fn identical_ratios_form_one_cluster() {
    let ratios = vec![RATIO_SCALE; NATION_COUNT];
    assert_eq!(impunity(&ratios, Grouping::Relative), (25, RATIO_SCALE));
    assert_eq!(impunity(&ratios, Grouping::Floored), (25, RATIO_SCALE));
    let scores = Current::new().score(&ratios);
    assert!(scores.nums.iter().all(|&n| n == scores.nums[0]));
}

#[test]
fn cluster_chain_and_boundary() {
    let d = RATIO_SCALE;
    let mut ratios = vec![0i64; NATION_COUNT];
    ratios[3] = 2 * d;
    ratios[9] = 2 * d - d / 4;
    ratios[12] = 2 * d - d / 2;
    ratios[20] = d / 2;
    // Each step down is exactly a quarter, so the chain reaches three values.
    assert_eq!(impunity(&ratios, Grouping::Relative), (3, d / 2));
    ratios[12] = 2 * d - d / 2 - 1;
    assert_eq!(impunity(&ratios, Grouping::Relative), (2, 2 * d - d / 2 - 1));
}

#[test]
fn sole_winner_takes_the_pool() {
    let mut counts = vec![0u64; NATION_COUNT];
    counts[0] = 64;
    let ratios = normalize_scenario(&counts, Normalization::DistanceToVictory).unwrap();
    assert_eq!(ratios[0], RATIO_SCALE);
    assert!(ratios[1..].iter().all(|&v| v == -RATIO_SCALE));
    assert_eq!(impunity(&ratios, Grouping::Floored), (1, -RATIO_SCALE));
    let scores = Current::new().score(&ratios);
    assert_eq!(scores.den, RATIO_SCALE as u128);
    assert_eq!(scores.nums[0], 615 * RATIO_SCALE as u128);
    assert!(scores.nums[1..].iter().all(|&n| n == 0));
    for s in all_strategies() {
        let rc = evaluate(&counts, Normalization::DistanceToVictory, s).unwrap();
        let r = rounded_all(&rc);
        assert_eq!(r[0], 2520);
        assert!(r[1..].iter().all(|&x| x == -105));
        assert_eq!(rc.nums.iter().sum::<i128>(), 0);
    }
}

#[test]
fn mixed_scenario_exact_changes() {
    let counts = mixed_counts();
    let m = Normalization::DistanceToVictory;
    let cur = rounded_all(&evaluate(&counts, m, all_strategies()[0]).unwrap());
    let p15 = rounded_all(&evaluate(&counts, m, all_strategies()[1]).unwrap());
    let p20 = rounded_all(&evaluate(&counts, m, all_strategies()[2]).unwrap());
    assert_eq!((cur[0], cur[1], cur[7], cur[2], cur[24]), (58, 1433, 33, -67, -105));
    assert_eq!((p15[0], p15[1], p15[7], p15[2], p15[24]), (267, 1377, 168, -81, -105));
    assert_eq!((p20[0], p20[1], p20[7], p20[2], p20[24]), (199, 1515, 98, -81, -105));
}

#[test]
fn changes_sum_to_zero_for_every_rule() {
    for counts in [mixed_counts(), starting_counts()] {
        for mode in [Normalization::DistanceToVictory, Normalization::ShareOfVictory] {
            for s in all_strategies() {
                if let Ok(rc) = evaluate(&counts, mode, s) {
                    assert_eq!(rc.nums.iter().sum::<i128>(), 0);
                    let shown: i128 = rounded_all(&rc).iter().sum();
                    assert!(shown.abs() <= 25);
                }
            }
        }
    }
}

#[test]
fn higher_ratio_never_scores_lower() {
    let ratios = normalize_scenario(&mixed_counts(), Normalization::DistanceToVictory).unwrap();
    for s in all_strategies() {
        let sc = s.score(&ratios).unwrap();
        for a in 0..NATION_COUNT {
            for b in 0..NATION_COUNT {
                if ratios[a] > ratios[b] {
                    assert!(sc.nums[a] >= sc.nums[b]);
                }
            }
        }
    }
}

#[test]
fn no_positive_ratio_is_degenerate_for_power_law() {
    let counts = starting_counts();
    let m = Normalization::DistanceToVictory;
    assert!(matches!(evaluate(&counts, m, all_strategies()[1]), Err(ScoringError::DegenerateScenario)));
    assert!(matches!(evaluate(&counts, m, all_strategies()[2]), Err(ScoringError::DegenerateScenario)));
    // The current rule gives everyone the participation bonus: no change.
    let rc = evaluate(&counts, m, all_strategies()[0]).unwrap();
    assert!(rc.nums.iter().all(|&n| n == 0));
}

#[test]
fn full_elimination_is_degenerate() {
    let counts = vec![0u64; NATION_COUNT];
    for s in all_strategies() {
        assert!(matches!(
            evaluate(&counts, Normalization::DistanceToVictory, s),
            Err(ScoringError::DegenerateScenario)
        ));
    }
}

#[test]
fn proportions_and_allocation() {
    let ratios = normalize_scenario(&mixed_counts(), Normalization::DistanceToVictory).unwrap();
    let sc = Current::new().score(&ratios);
    let p = scores_to_proportions(&sc).unwrap();
    assert_eq!(p.parts, sc.nums);
    assert_eq!(p.whole, sc.nums.iter().sum::<u128>());
    // Scores 615, 65, 55, twenty-one times 15 and 0 sum to 1050.
    assert_eq!(p.whole, 1050 * RATIO_SCALE as u128);
    let rc = rating_changes(&p);
    assert_eq!(rc.den, p.whole);
    assert_eq!(rc.nums[1], (2625 * 615 - 105 * 1050) * RATIO_SCALE as i128);
    let zero = vscc_rating::Scores { nums: vec![0; NATION_COUNT], den: 1 };
    assert!(matches!(scores_to_proportions(&zero), Err(ScoringError::DegenerateScenario)));
}

#[test]
fn three_halves_weight_is_integer_root() {
    // Two leaders at one half and one: weights floor(sqrt(r^3)).
    let mut ratios = vec![0i64; NATION_COUNT];
    let d = RATIO_SCALE;
    ratios[0] = d / 2;
    ratios[1] = d;
    let sc = Proposed::new(Exponent::ThreeHalves).score(&ratios).unwrap();
    let w0 = 14466508959u128; // floor(sqrt(5937120^3))
    let w1 = 40917466341u128; // floor(sqrt(11874240^3))
    let t = w0 + w1;
    assert_eq!(sc.den, t);
    assert_eq!(sc.nums[0], 1000 * w0 + 15 * t);
    assert_eq!(sc.nums[1], 1000 * w1 + 300 * t + 15 * t);
    assert_eq!(sc.nums[2], 15 * t);
}

#[test]
fn rounding_halves_up() {
    let rc = RatingChanges { nums: vec![3, -3, 5, -5, 0], den: 2 };
    assert_eq!(rounded_all(&rc), vec![2, -1, 3, -2, 0]);
}
