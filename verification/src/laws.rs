//! Global laws of the simulation, stated over the reference semantics that
//! `Cache::run_trace` is proved to realize.

use vstd::prelude::*;
use crate::config::CacheConfig;
use crate::model::count_kind;
use crate::model::init_state;
use crate::model::lemma_run_counters;
use crate::model::lemma_run_kind_counts;
use crate::model::sim_stats;
use crate::stats::CacheStats;
use crate::trace::AccessKind;
use crate::trace::TraceAccess;

verus! {

/// Conservation: over any run of a fresh engine, one access is tallied per
/// trace entry, hits and misses partition the accesses, reads and writes
/// are exactly the trace's own reads and writes, and victim hits never
/// outnumber hits.
pub proof fn lemma_conservation(cfg: CacheConfig, trace: Seq<TraceAccess>)
    requires
        cfg.block_size >= 1,
        32 * trace.len() <= u64::MAX,
    ensures
        ({
            let s = sim_stats(cfg, trace);
            &&& s.accesses == trace.len()
            &&& s.hits + s.misses == s.accesses
            &&& s.reads + s.writes == s.accesses
            &&& s.reads == count_kind(trace, AccessKind::Read)
            &&& s.writes == count_kind(trace, AccessKind::Write)
            &&& s.victim_hits <= s.hits
        }),
{
    lemma_run_counters(cfg, init_state(cfg), trace);
    lemma_run_kind_counts(cfg, init_state(cfg), trace);
}

/// Determinism: the statistics of a run are a function of the
/// configuration and the trace alone, so two runs of the same pair agree
/// in every field. `Cache::run_trace` ensures that its result equals
/// `sim_stats` of its configuration and trace whenever the engine is
/// fresh, so any two such runs return this one value.
pub proof fn lemma_deterministic(
    cfg: CacheConfig,
    trace: Seq<TraceAccess>,
    s1: CacheStats,
    s2: CacheStats,
)
    requires
        s1 == sim_stats(cfg, trace),
        s2 == sim_stats(cfg, trace),
    ensures
        s1 == s2,
{
}

} // verus!
