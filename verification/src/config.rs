//! Cache configuration and the geometry derived from it.

use vstd::prelude::*;

verus! {

/// Which way-prediction mechanism the simulated cache uses.
#[derive(Debug, Clone, Copy, PartialEq, Eq, Structural)]
pub enum PredictionStrategy {
    Off,
    Mru,
    MultiColumn,
}

/// The parameters of one simulated cache organization.
///
/// Degenerate values (zero associativity, a block larger than the whole
/// cache) are normalized to at least one set and one way rather than
/// rejected; only `block_size` must be positive, since the address
/// decomposition divides by it.
#[derive(Debug, Clone, Copy)]
pub struct CacheConfig {
    /// Total capacity in bytes.
    pub cache_size: usize,
    /// Line size in bytes.
    pub block_size: usize,
    /// Ways per set; 1 gives a direct-mapped cache.
    pub associativity: usize,
    /// Capacity of the victim buffer; 0 disables it.
    pub victim_cache_entries: usize,
    pub prediction: PredictionStrategy,
}

/// Number of ways per set: the configured associativity, normalized to at
/// least one.
pub open spec fn spec_ways(cfg: CacheConfig) -> int {
    if cfg.associativity >= 1 {
        cfg.associativity as int
    } else {
        1
    }
}

/// Number of whole blocks the cache holds, normalized to at least one.
pub open spec fn spec_blocks(cfg: CacheConfig) -> int
    recommends
        cfg.block_size >= 1,
{
    let b = cfg.cache_size as int / cfg.block_size as int;
    if b >= 1 {
        b
    } else {
        1
    }
}

/// Number of sets: blocks divided by ways, normalized to at least one.
pub open spec fn spec_num_sets(cfg: CacheConfig) -> int
    recommends
        cfg.block_size >= 1,
{
    let s = spec_blocks(cfg) / spec_ways(cfg);
    if s >= 1 {
        s
    } else {
        1
    }
}

/// The geometry a valid configuration yields: at least one set and one
/// way, and arena and predictor-table sizes that fit a `usize`.
pub proof fn lemma_geometry(cfg: CacheConfig)
    requires
        cfg.block_size >= 1,
    ensures
        spec_ways(cfg) >= 1,
        spec_num_sets(cfg) >= 1,
        spec_num_sets(cfg) * spec_ways(cfg) <= usize::MAX,
        spec_num_sets(cfg) * crate::predictor::spec_column_count(spec_ways(cfg)) <= usize::MAX,
        1 <= crate::predictor::spec_column_count(spec_ways(cfg)) <= spec_ways(cfg),
        crate::predictor::spec_column_count(spec_ways(cfg)) <= 8,
{
    let ways = spec_ways(cfg);
    let blocks = spec_blocks(cfg);
    let ns = spec_num_sets(cfg);
    let cols = crate::predictor::spec_column_count(ways);
    assert(cfg.cache_size as int / cfg.block_size as int <= cfg.cache_size as int) by {
        vstd::arithmetic::div_mod::lemma_div_nonincreasing(
            cfg.cache_size as int,
            cfg.block_size as int,
        );
    }
    if blocks / ways >= 1 {
        assert(ns == blocks / ways);
        assert(ns * ways <= blocks) by {
            vstd::arithmetic::div_mod::lemma_fundamental_div_mod(blocks, ways);
            vstd::arithmetic::div_mod::lemma_remainder_lower(blocks, ways);
        }
    } else {
        assert(ns == 1);
    }
    assert(ns * cols <= ns * ways) by {
        vstd::arithmetic::mul::lemma_mul_left_inequality(ns, cols, ways);
    }
}

impl CacheConfig {
    /// The number of sets this configuration decomposes addresses over.
    pub fn num_sets(&self) -> (r: usize)
        requires
            self.block_size >= 1,
        ensures
            r == spec_num_sets(*self),
            r >= 1,
    {
        let blocks_raw = self.cache_size / self.block_size;
        let blocks = if blocks_raw >= 1 {
            blocks_raw
        } else {
            1
        };
        let ways = if self.associativity >= 1 {
            self.associativity
        } else {
            1
        };
        let sets = blocks / ways;
        if sets >= 1 {
            sets
        } else {
            1
        }
    }
}

impl Default for CacheConfig {
    /// A 256 KiB, 4-way cache with 32-byte blocks, no victim buffer and no
    /// way prediction.
    fn default() -> (r: Self)
        ensures
            r.cache_size == 256 * 1024,
            r.block_size == 32,
            r.associativity == 4,
            r.victim_cache_entries == 0,
            r.prediction == PredictionStrategy::Off,
    {
        CacheConfig {
            cache_size: 256 * 1024,
            block_size: 32,
            associativity: 4,
            victim_cache_entries: 0,
            prediction: PredictionStrategy::Off,
        }
    }
}

} // verus!
