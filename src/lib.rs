//! Comparative end-game rating for a 25-faction strategy game.
//!
//! Final territory counts are normalized into exact performance ratios, the
//! near-tied leaders are grouped, and three scoring rules turn the ratios into
//! a zero-sum redistribution of a fixed rating pool. All arithmetic is exact:
//! ratios are scaled integers, and scores and rating changes are fractions
//! sharing one denominator per scenario.

mod nation;
mod normalize;
mod grouping;
mod scoring;
mod allocate;

pub use nation::{Nation, ScoringError, starting_scs_to_vscc, NATION_COUNT};
pub use normalize::{
    Normalization, normalize_scenario, lemma_normalize_at_start, lemma_normalize_eliminated,
    lemma_normalize_at_threshold, RATIO_SCALE, MAX_COUNT,
};
pub use grouping::{Grouping, sort_descending, impunity, CLUSTER_GAP};
pub use scoring::{
    Exponent, Scores, Current, Proposed, lemma_spread_leader_alone,
    lemma_equal_ratios_one_cluster, lemma_equal_ratios_below_one, lemma_weight_monotone,
};
pub use allocate::{
    Proportions, RatingChanges, Strategy, scores_to_proportions, rating_changes, evaluate,
    lemma_rating_changes_sum_to_zero, lemma_scores_monotone,
    lemma_current_degenerate_iff_all_eliminated, RATING_POOL_PER_GAME, BASELINE,
};
