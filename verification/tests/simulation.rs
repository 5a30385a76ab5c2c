use cache_sim::config::{CacheConfig, PredictionStrategy};
use cache_sim::engine::Cache;
use cache_sim::stats::CacheStats;
use cache_sim::trace::{AccessKind, TraceAccess};

fn cfg(
    cache_size: usize,
    block_size: usize,
    associativity: usize,
    victim_cache_entries: usize,
    prediction: PredictionStrategy,
) -> CacheConfig {
    CacheConfig { cache_size, block_size, associativity, victim_cache_entries, prediction }
}

fn reads(addresses: &[u64]) -> Vec<TraceAccess> {
    addresses.iter().map(|&address| TraceAccess { kind: AccessKind::Read, address }).collect()
}

fn run(config: CacheConfig, trace: &[TraceAccess]) -> CacheStats {
    let mut cache = Cache::new(config);
    cache.run_trace(trace)
}

#[test]
fn capacity_eviction_two_way_single_set() {
    // Two ways, one set: blocks 0, 1, 2, 0 — block 0 is evicted by block 2
    // (oldest stamp), so its reuse misses again.
    let trace = reads(&[0, 8, 16, 0]);
    let stats = run(cfg(16, 8, 2, 0, PredictionStrategy::Off), &trace);
    assert_eq!(stats.accesses, 4);
    assert_eq!(stats.hits, 0);
    assert_eq!(stats.misses, 4);
    assert_eq!(stats.victim_hits, 0);
}

#[test]
fn disjoint_sets_do_not_evict() {
    // Four sets: blocks 0..3 land in distinct sets; the repeat of block 0
    // hits because its line was never evicted.
    let trace = reads(&[0, 8, 16, 24, 0]);
    let stats = run(cfg(64, 8, 2, 0, PredictionStrategy::Off), &trace);
    assert_eq!(stats.accesses, 5);
    assert_eq!(stats.hits, 1);
    assert_eq!(stats.misses, 4);
}

#[test]
fn victim_buffer_recalls_evicted_block() {
    // One-way cache with a one-entry victim buffer: block 0 is evicted by
    // block 1, then recovered from the buffer.
    let trace = reads(&[0, 8, 0]);
    let stats = run(cfg(8, 8, 1, 1, PredictionStrategy::Off), &trace);
    assert_eq!(stats.accesses, 3);
    assert_eq!(stats.hits, 1);
    assert_eq!(stats.victim_hits, 1);
    assert_eq!(stats.misses, 2);
}

#[test]
fn empty_trace_reports_all_zero() {
    let stats = run(cfg(64, 8, 2, 4, PredictionStrategy::Off), &[]);
    assert_eq!(stats.accesses, 0);
    assert_eq!(stats.reads, 0);
    assert_eq!(stats.writes, 0);
    assert_eq!(stats.hits, 0);
    assert_eq!(stats.misses, 0);
    assert_eq!(stats.victim_hits, 0);
    assert!(stats.prediction.is_none());
}

#[test]
fn conservation_on_mixed_trace() {
    let trace: Vec<TraceAccess> = (0u64..200)
        .map(|i| TraceAccess {
            kind: if i % 3 == 0 { AccessKind::Write } else { AccessKind::Read },
            address: (i * 37) % 512,
        })
        .collect();
    let stats = run(cfg(128, 16, 2, 2, PredictionStrategy::Off), &trace);
    assert_eq!(stats.accesses, 200);
    assert_eq!(stats.hits + stats.misses, stats.accesses);
    assert_eq!(stats.reads + stats.writes, stats.accesses);
    assert!(stats.victim_hits <= stats.hits);
}

#[test]
fn same_run_twice_is_identical() {
    let trace: Vec<TraceAccess> = (0u64..100)
        .map(|i| TraceAccess {
            kind: if i % 2 == 0 { AccessKind::Read } else { AccessKind::Write },
            address: (i * 13) % 256,
        })
        .collect();
    let config = cfg(64, 8, 2, 2, PredictionStrategy::MultiColumn);
    let s1 = run(config, &trace);
    let s2 = run(config, &trace);
    assert_eq!(s1, s2);
}

#[test]
fn mru_policy_inserts_at_lru_position() {
    // Blocks 0, 1, 2, 3, 1 in a two-way set. Under the baseline policy the
    // install of block 3 evicts block 1, so its reuse misses; under the
    // MRU (LRU-insertion) policy freshly installed lines inherit the
    // evicted stamp and are evicted first, so block 1 survives and hits.
    let trace = reads(&[0, 8, 16, 24, 8]);
    let baseline = run(cfg(16, 8, 2, 0, PredictionStrategy::Off), &trace);
    assert_eq!(baseline.hits, 0);
    assert_eq!(baseline.misses, 5);
    let lip = run(cfg(16, 8, 2, 0, PredictionStrategy::Mru), &trace);
    assert_eq!(lip.hits, 1);
    assert_eq!(lip.misses, 4);
}

#[test]
fn mru_prediction_counts_correct_guesses() {
    // The only hit (block 1, way 1) is also the most recently used way, so
    // the MRU predictor guesses it and the hit counts as a first hit.
    let trace = reads(&[0, 8, 16, 24, 8]);
    let stats = run(cfg(16, 8, 2, 0, PredictionStrategy::Mru), &trace);
    let pred = stats.prediction.expect("prediction counters expected");
    assert_eq!(pred.mode, PredictionStrategy::Mru);
    assert_eq!(pred.total_hits_observed, 1);
    assert_eq!(pred.first_hits, 1);
    assert_eq!(pred.non_first_hits, 0);
    assert_eq!(pred.bit_vector_search_total, 0);
    assert_eq!(pred.bit_vector_observations, 0);
}

#[test]
fn multi_column_rank_counters() {
    // Repeated hits on one block: the install already marks the way, so
    // both hits see their bit in the snapshot at rank 1 and count as
    // first hits.
    let trace = reads(&[0, 0, 0]);
    let stats = run(cfg(16, 8, 2, 0, PredictionStrategy::MultiColumn), &trace);
    assert_eq!(stats.hits, 2);
    assert_eq!(stats.misses, 1);
    let pred = stats.prediction.expect("prediction counters expected");
    assert_eq!(pred.mode, PredictionStrategy::MultiColumn);
    assert_eq!(pred.total_hits_observed, 2);
    assert_eq!(pred.first_hits, 2);
    assert_eq!(pred.non_first_hits, 0);
    assert_eq!(pred.bit_vector_search_total, 2);
    assert_eq!(pred.bit_vector_observations, 2);
}

#[test]
fn multi_column_marks_track_residency() {
    // One set, two ways, two columns. Every install marks the installed
    // way for its block's column, so each resident way is predicted hot
    // and the eviction tie-break falls back to the oldest stamp, matching
    // the baseline policy on this trace; every hit finds its own bit in
    // the snapshot at rank 1.
    let trace = reads(&[0, 0, 8, 8, 16, 0, 8]);
    let stats = run(cfg(16, 8, 2, 0, PredictionStrategy::MultiColumn), &trace);
    assert_eq!(stats.hits, 2);
    assert_eq!(stats.misses, 5);
    let pred = stats.prediction.expect("prediction counters expected");
    assert_eq!(pred.total_hits_observed, 2);
    assert_eq!(pred.first_hits, 2);
    assert_eq!(pred.non_first_hits, 0);
    assert_eq!(pred.bit_vector_search_total, 2);
    assert_eq!(pred.bit_vector_observations, 2);
    let baseline = run(cfg(16, 8, 2, 0, PredictionStrategy::Off), &trace);
    assert_eq!(baseline.hits, 2);
    assert_eq!(baseline.misses, 5);
}

#[test]
fn multi_column_ways_beyond_vector_width_read_cold() {
    // Thirty-three ways in one set: the bit-vector covers ways 0..31, so
    // way 32 is never marked and is always the eviction choice, unlike
    // the baseline policy, which evicts the oldest way.
    let mut addresses: Vec<u64> = (0u64..33).map(|b| b * 8).collect();
    addresses.push(33 * 8);
    addresses.push(32 * 8);
    let trace = reads(&addresses);
    let mc = run(cfg(264, 8, 33, 0, PredictionStrategy::MultiColumn), &trace);
    assert_eq!(mc.hits, 0);
    assert_eq!(mc.misses, 35);
    let baseline = run(cfg(264, 8, 33, 0, PredictionStrategy::Off), &trace);
    assert_eq!(baseline.hits, 1);
    assert_eq!(baseline.misses, 34);
}

#[test]
fn write_accesses_are_tallied_as_writes() {
    let trace = vec![
        TraceAccess { kind: AccessKind::Write, address: 0 },
        TraceAccess { kind: AccessKind::Read, address: 0 },
        TraceAccess { kind: AccessKind::Write, address: 64 },
    ];
    let stats = run(cfg(64, 8, 2, 0, PredictionStrategy::Off), &trace);
    assert_eq!(stats.reads, 1);
    assert_eq!(stats.writes, 2);
    assert_eq!(stats.hits, 1);
    assert_eq!(stats.misses, 2);
}

#[test]
fn stats_new_matches_mode() {
    let off = CacheStats::new(PredictionStrategy::Off);
    assert_eq!(off.accesses, 0);
    assert!(off.prediction.is_none());
    let mru = CacheStats::new(PredictionStrategy::Mru);
    let pred = mru.prediction.expect("prediction counters expected");
    assert_eq!(pred.mode, PredictionStrategy::Mru);
    assert_eq!(pred.first_hits, 0);
    assert_eq!(pred.total_hits_observed, 0);
}

#[test]
fn degenerate_configurations_are_normalized() {
    // Zero associativity behaves as one way; an oversized block still
    // leaves one set.
    let zero_ways = cfg(64, 8, 0, 0, PredictionStrategy::Off);
    assert_eq!(zero_ways.num_sets(), 8);
    let big_block = cfg(16, 32, 1, 0, PredictionStrategy::Off);
    assert_eq!(big_block.num_sets(), 1);
    let stats = run(zero_ways, &reads(&[0, 8, 0]));
    assert_eq!(stats.hits, 1);
    assert_eq!(stats.misses, 2);
}

#[test]
fn num_sets_of_default_config() {
    let base = CacheConfig::default();
    assert_eq!(base.cache_size, 256 * 1024);
    assert_eq!(base.block_size, 32);
    assert_eq!(base.associativity, 4);
    assert_eq!(base.num_sets(), 2048);
}
