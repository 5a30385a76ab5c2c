//! The counters a simulation run accumulates.

use vstd::prelude::*;
use crate::config::PredictionStrategy;

verus! {

/// Prediction-quality counters, present only when a predictor is enabled.
///
/// A hit is classified per access, against the predictor's pre-access state:
/// under the MRU predictor a hit is a *first hit* when the predicted way is
/// the way that actually hit; under the multi-column predictor it is a first
/// hit when the bit-vector search rank of the hitting way is 1. The search
/// rank of every hit is also accumulated into `bit_vector_search_total` /
/// `bit_vector_observations` for the multi-column predictor.
#[derive(Debug, Clone, PartialEq, Eq)]
pub struct PredictionStats {
    pub mode: PredictionStrategy,
    pub first_hits: u64,
    pub non_first_hits: u64,
    pub total_hits_observed: u64,
    pub bit_vector_search_total: u64,
    pub bit_vector_observations: u64,
}

impl PredictionStats {
    fn new(mode: PredictionStrategy) -> (r: Self)
        ensures
            r == spec_zero_prediction_stats(mode),
    {
        PredictionStats {
            mode,
            first_hits: 0,
            non_first_hits: 0,
            total_hits_observed: 0,
            bit_vector_search_total: 0,
            bit_vector_observations: 0,
        }
    }
}

/// The freshly zeroed prediction counters for a mode.
pub open spec fn spec_zero_prediction_stats(mode: PredictionStrategy) -> PredictionStats {
    PredictionStats {
        mode,
        first_hits: 0,
        non_first_hits: 0,
        total_hits_observed: 0,
        bit_vector_search_total: 0,
        bit_vector_observations: 0,
    }
}

/// One run's statistics: every counter, and the prediction counters when a
/// predictor is enabled. Derived rates (hits over accesses and the like) are
/// ratios of these fields and are left to the presentation layer.
#[derive(Debug, Clone, PartialEq, Eq)]
pub struct CacheStats {
    pub accesses: u64,
    pub reads: u64,
    pub writes: u64,
    pub hits: u64,
    pub misses: u64,
    pub victim_hits: u64,
    pub prediction: Option<PredictionStats>,
}

/// The all-zero statistics a run starts from; prediction counters are
/// present exactly when a predictor is enabled.
pub open spec fn spec_zero_stats(mode: PredictionStrategy) -> CacheStats {
    CacheStats {
        accesses: 0,
        reads: 0,
        writes: 0,
        hits: 0,
        misses: 0,
        victim_hits: 0,
        prediction: if mode is Off {
            Option::None
        } else {
            Option::Some(spec_zero_prediction_stats(mode))
        },
    }
}

impl CacheStats {
    /// Fresh counters for a run under the given prediction mode.
    pub fn new(prediction: PredictionStrategy) -> (r: Self)
        ensures
            r == spec_zero_stats(prediction),
    {
        CacheStats {
            accesses: 0,
            reads: 0,
            writes: 0,
            hits: 0,
            misses: 0,
            victim_hits: 0,
            prediction: match prediction {
                PredictionStrategy::Off => Option::None,
                mode => Option::Some(PredictionStats::new(mode)),
            },
        }
    }
}

} // verus!
