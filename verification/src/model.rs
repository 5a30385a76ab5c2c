//! The mathematical model of the simulation: one step per access over a
//! ghost image of the engine's state, and its fold over a whole trace.
//!
//! `Cache::run_trace` is proved to return exactly `run_model(..)` of its
//! configuration, starting state and trace, so everything the engine
//! computes is pinned down by the spec functions in this module.

use vstd::prelude::*;
use crate::config::CacheConfig;
use crate::config::PredictionStrategy;
use crate::config::spec_num_sets;
use crate::config::spec_ways;
use crate::line::CacheLine;
use crate::predictor::bit_set;
use crate::predictor::count_bits_below;
use crate::predictor::popcount;
use crate::predictor::spec_clear;
use crate::predictor::spec_column_count;
use crate::predictor::spec_mark;
use crate::predictor::spec_observe;
use crate::stats::CacheStats;
use crate::stats::PredictionStats;
use crate::trace::AccessKind;
use crate::trace::TraceAccess;
use crate::victim::vb_find_from;
use crate::victim::vb_insert_spec;

verus! {

/// The ghost image of one engine: the slots of all sets laid out row by
/// row (set `s`, way `w` at index `s * ways + w`), the victim-buffer
/// contents in insertion order, the predictor's bit-vector table, and the
/// monotonic tick counter.
#[verifier::ext_equal]
pub struct SimState {
    pub sets: Seq<Option<CacheLine>>,
    pub victim: Seq<CacheLine>,
    pub bits: Seq<u32>,
    pub next_stamp: u64,
}

/// What the predictor believed before an access mutated any state.
#[derive(Debug, Clone, Copy, PartialEq, Eq, Structural)]
pub enum PredictionObservation {
    Off,
    Mru { predicted: Option<usize> },
    MultiColumn { bits: u32 },
}

/// The line in an occupied slot.
pub open spec fn line_of(slot: Option<CacheLine>) -> CacheLine
    recommends
        slot is Some,
{
    match slot {
        Option::Some(l) => l,
        Option::None => CacheLine {
            tag: 0,
            block_address: 0,
            stamp: 0,
            dirty: false,
            first_touch_pending: false,
        },
    }
}

/// The recency stamp of a slot; an empty slot reads as the oldest possible.
pub open spec fn slot_stamp(slot: Option<CacheLine>) -> u64 {
    match slot {
        Option::Some(l) => l.stamp,
        Option::None => 0,
    }
}

/// The byte address reduced to a block address.
pub open spec fn spec_block_address(cfg: CacheConfig, address: u64) -> int
    recommends
        cfg.block_size >= 1,
{
    address as int / cfg.block_size as int
}

/// Which set a block address maps to.
pub open spec fn spec_set_index(cfg: CacheConfig, block: int) -> int
    recommends
        cfg.block_size >= 1,
{
    block % spec_num_sets(cfg)
}

/// The tag a block address carries within its set.
pub open spec fn spec_tag(cfg: CacheConfig, block: int) -> int
    recommends
        cfg.block_size >= 1,
{
    block / spec_num_sets(cfg)
}

/// The slots of set `si`, as a sequence of length `ways`.
pub open spec fn set_of(st: SimState, cfg: CacheConfig, si: int) -> Seq<Option<CacheLine>>
    recommends
        cfg.block_size >= 1,
        0 <= si < spec_num_sets(cfg),
        st.sets.len() == spec_num_sets(cfg) * spec_ways(cfg),
{
    st.sets.subrange(si * spec_ways(cfg), si * spec_ways(cfg) + spec_ways(cfg))
}

/// First way at or after `i` holding a valid line with the given tag.
pub open spec fn find_hit_from(set: Seq<Option<CacheLine>>, tag: u64, i: int) -> Option<int>
    decreases set.len() - i,
{
    if i < 0 || i >= set.len() {
        Option::None
    } else if set[i] matches Option::Some(l) && l.tag == tag {
        Option::Some(i)
    } else {
        find_hit_from(set, tag, i + 1)
    }
}

/// First empty way at or after `i`.
pub open spec fn find_empty_from(set: Seq<Option<CacheLine>>, i: int) -> Option<int>
    decreases set.len() - i,
{
    if i < 0 || i >= set.len() {
        Option::None
    } else if set[i] is None {
        Option::Some(i)
    } else {
        find_empty_from(set, i + 1)
    }
}

/// The way with the minimum recency stamp among the first `n`, ties broken
/// by the lowest way index.
pub open spec fn oldest_prefix(set: Seq<Option<CacheLine>>, n: int) -> int
    recommends
        1 <= n <= set.len(),
    decreases n,
{
    if n <= 1 {
        0
    } else {
        let r = oldest_prefix(set, n - 1);
        if slot_stamp(set[n - 1]) < slot_stamp(set[r]) {
            n - 1
        } else {
            r
        }
    }
}

/// Whether the predictor currently expects reuse of the line in a slot:
/// 1 when the bit of its way is set in the bit-vector of the resident
/// line's own column, else 0.
pub open spec fn slot_hot(
    bits: Seq<u32>,
    num_sets: int,
    columns: int,
    si: int,
    slot: Option<CacheLine>,
    w: int,
) -> int {
    match slot {
        Option::Some(l) => if bit_set(spec_observe(bits, num_sets, columns, si, l.block_address), w) {
            1
        } else {
            0
        },
        Option::None => 0,
    }
}

/// The way minimizing (predicted-hot bit, recency stamp, way index) among
/// the first `n`: the multi-column eviction choice prefers lines the
/// predictor does not expect to be reused, then the oldest, then the
/// lowest way.
pub open spec fn mc_victim_prefix(
    bits: Seq<u32>,
    num_sets: int,
    columns: int,
    si: int,
    set: Seq<Option<CacheLine>>,
    n: int,
) -> int
    recommends
        1 <= n <= set.len(),
    decreases n,
{
    if n <= 1 {
        0
    } else {
        let r = mc_victim_prefix(bits, num_sets, columns, si, set, n - 1);
        let hn = slot_hot(bits, num_sets, columns, si, set[n - 1], n - 1);
        let hr = slot_hot(bits, num_sets, columns, si, set[r], r);
        if hn < hr || (hn == hr && slot_stamp(set[n - 1]) < slot_stamp(set[r])) {
            n - 1
        } else {
            r
        }
    }
}

/// The way a full set evicts under the configured policy.
pub open spec fn victim_way(cfg: CacheConfig, st: SimState, si: int, set: Seq<Option<CacheLine>>) -> int
    recommends
        set.len() >= 1,
{
    if cfg.prediction is MultiColumn {
        mc_victim_prefix(
            st.bits,
            spec_num_sets(cfg),
            spec_column_count(spec_ways(cfg)),
            si,
            set,
            set.len() as int,
        )
    } else {
        oldest_prefix(set, set.len() as int)
    }
}

/// The result of installing `line` into set `si`: the chosen way, the
/// evicted line if any, and the new flat slot sequence. An empty way is
/// preferred and freshly stamps the line; otherwise the policy's victim is
/// replaced, and under the MRU policy the newcomer inherits the victim's
/// stamp (LRU insertion, which keeps streaming lines eviction-eligible).
pub open spec fn install_spec(cfg: CacheConfig, st: SimState, si: int, line: CacheLine) -> (
    int,
    Option<CacheLine>,
    Seq<Option<CacheLine>>,
)
    recommends
        cfg.block_size >= 1,
        0 <= si < spec_num_sets(cfg),
        st.sets.len() == spec_num_sets(cfg) * spec_ways(cfg),
{
    let ways = spec_ways(cfg);
    let base = si * ways;
    let set = set_of(st, cfg, si);
    match find_empty_from(set, 0) {
        Option::Some(e) => (
            e,
            Option::None,
            st.sets.update(base + e, Option::Some(CacheLine { stamp: st.next_stamp, ..line })),
        ),
        Option::None => {
            let v = victim_way(cfg, st, si, set);
            let evicted = line_of(set[v]);
            let installed = if cfg.prediction is Mru {
                CacheLine { stamp: evicted.stamp, ..line }
            } else {
                line
            };
            (v, Option::Some(evicted), st.sets.update(base + v, Option::Some(installed)))
        },
    }
}

/// The most recently used way among the first `n`: the valid line with the
/// maximum stamp, ties broken by the highest way index.
pub open spec fn mru_prefix(set: Seq<Option<CacheLine>>, n: int) -> Option<int>
    decreases n,
{
    if n <= 0 {
        Option::None
    } else {
        let r = mru_prefix(set, n - 1);
        match set[n - 1] {
            Option::Some(l) => match r {
                Option::Some(m) => if l.stamp >= slot_stamp(set[m]) {
                    Option::Some(n - 1)
                } else {
                    r
                },
                Option::None => Option::Some(n - 1),
            },
            Option::None => r,
        }
    }
}

/// What the configured predictor reports for this access before any state
/// of the access is mutated.
pub open spec fn spec_observation(cfg: CacheConfig, st: SimState, si: int, block: u64) -> PredictionObservation
    recommends
        cfg.block_size >= 1,
        0 <= si < spec_num_sets(cfg),
        st.sets.len() == spec_num_sets(cfg) * spec_ways(cfg),
{
    match cfg.prediction {
        PredictionStrategy::Off => PredictionObservation::Off,
        PredictionStrategy::Mru => PredictionObservation::Mru {
            predicted: match mru_prefix(set_of(st, cfg, si), spec_ways(cfg)) {
                Option::Some(w) => Option::Some(w as usize),
                Option::None => Option::None,
            },
        },
        PredictionStrategy::MultiColumn => PredictionObservation::MultiColumn {
            bits: spec_observe(
                st.bits,
                spec_num_sets(cfg),
                spec_column_count(spec_ways(cfg)),
                si,
                block,
            ),
        },
    }
}

/// The search rank of a hit at `way` against an observed bit-vector
/// snapshot: one plus the number of set bits below the way's bit when that
/// bit was predicted, else the whole population count of the snapshot as a
/// misprediction penalty proxy (zero for an empty snapshot).
pub open spec fn rank_of(bits: u32, way: int) -> nat {
    if bit_set(bits, way) {
        count_bits_below(bits, way) + 1
    } else {
        popcount(bits)
    }
}

/// The prediction counters after one classified hit at `way`, judged
/// against the pre-access observation: under MRU a first hit is a correct
/// way guess; under multi-column it is a hit of rank 1, and the rank also
/// feeds the search-length counters.
pub open spec fn record_spec(obs: PredictionObservation, way: int, p: PredictionStats) -> PredictionStats {
    let p1 = PredictionStats {
        total_hits_observed: (p.total_hits_observed + 1) as u64,
        ..p
    };
    match obs {
        PredictionObservation::Off => p1,
        PredictionObservation::Mru { predicted } => {
            if way >= 0 && predicted == Option::Some(way as usize) {
                PredictionStats { first_hits: (p.first_hits + 1) as u64, ..p1 }
            } else {
                PredictionStats { non_first_hits: (p.non_first_hits + 1) as u64, ..p1 }
            }
        },
        PredictionObservation::MultiColumn { bits } => {
            let rank = rank_of(bits, way);
            let p2 = PredictionStats {
                bit_vector_search_total: (p.bit_vector_search_total + rank) as u64,
                bit_vector_observations: (p.bit_vector_observations + 1) as u64,
                ..p1
            };
            if rank == 1 {
                PredictionStats { first_hits: (p.first_hits + 1) as u64, ..p2 }
            } else {
                PredictionStats { non_first_hits: (p.non_first_hits + 1) as u64, ..p2 }
            }
        },
    }
}

/// The statistics with the access itself tallied.
pub open spec fn stats_with_access(stats: CacheStats, kind: AccessKind) -> CacheStats {
    CacheStats {
        accesses: (stats.accesses + 1) as u64,
        reads: if kind is Read {
            (stats.reads + 1) as u64
        } else {
            stats.reads
        },
        writes: if kind is Write {
            (stats.writes + 1) as u64
        } else {
            stats.writes
        },
        ..stats
    }
}

/// The statistics with one hit classified by the predictor, when
/// prediction counters are kept at all.
pub open spec fn stats_record(stats: CacheStats, obs: PredictionObservation, way: int) -> CacheStats {
    match stats.prediction {
        Option::Some(p) => CacheStats { prediction: Option::Some(record_spec(obs, way, p)), ..stats },
        Option::None => stats,
    }
}

/// One simulation step: decode the address, snapshot the predictor, then
/// hit in the addressed set, recover from the victim buffer, or fabricate
/// and install a new line, tallying the outcome; the tick advances once.
pub open spec fn step(cfg: CacheConfig, st: SimState, stats: CacheStats, a: TraceAccess) -> (
    SimState,
    CacheStats,
)
    recommends
        cfg.block_size >= 1,
        st.sets.len() == spec_num_sets(cfg) * spec_ways(cfg),
{
    let ns = spec_num_sets(cfg);
    let cols = spec_column_count(spec_ways(cfg));
    let cap = cfg.victim_cache_entries as int;
    let block = spec_block_address(cfg, a.address);
    let si = spec_set_index(cfg, block);
    let tag = spec_tag(cfg, block) as u64;
    let base = si * spec_ways(cfg);
    let set = set_of(st, cfg, si);
    let stats1 = stats_with_access(stats, a.kind);
    let obs = spec_observation(cfg, st, si, block as u64);
    let is_write = a.kind is Write;
    match find_hit_from(set, tag, 0) {
        Option::Some(w) => {
            // Primary hit: refresh the stamp, record the write, classify.
            let l = line_of(set[w]);
            let l2 = CacheLine {
                stamp: st.next_stamp,
                dirty: l.dirty || is_write,
                first_touch_pending: false,
                ..l
            };
            let sets2 = st.sets.update(base + w, Option::Some(l2));
            let bits2 = if cfg.prediction is MultiColumn {
                spec_mark(st.bits, ns, cols, si, block as u64, w)
            } else {
                st.bits
            };
            let stats2 = stats_record(
                CacheStats { hits: (stats1.hits + 1) as u64, ..stats1 },
                obs,
                w,
            );
            (
                SimState {
                    sets: sets2,
                    bits: bits2,
                    next_stamp: (st.next_stamp + 1) as u64,
                    ..st
                },
                stats2,
            )
        },
        Option::None => {
            let found = if cap == 0 {
                Option::None
            } else {
                vb_find_from(st.victim, block as u64, 0)
            };
            match found {
                Option::Some(j) => {
                    // Victim-buffer hit: recover the line, reinstall it,
                    // and count both a hit and a victim hit.
                    let rec = CacheLine { stamp: st.next_stamp, ..st.victim[j] };
                    let st1 = SimState { victim: st.victim.remove(j), ..st };
                    let (way, evicted, sets2) = install_spec(cfg, st1, si, rec);
                    let bits2 = match evicted {
                        Option::Some(ev) => if cfg.prediction is MultiColumn {
                            spec_clear(st.bits, ns, cols, si, ev.block_address, way)
                        } else {
                            st.bits
                        },
                        Option::None => st.bits,
                    };
                    let victim2 = match evicted {
                        Option::Some(ev) => vb_insert_spec(st1.victim, cap, ev, st.next_stamp),
                        Option::None => st1.victim,
                    };
                    let inst = line_of(sets2[base + way]);
                    let inst2 = CacheLine {
                        dirty: inst.dirty || is_write,
                        first_touch_pending: false,
                        ..inst
                    };
                    let sets3 = sets2.update(base + way, Option::Some(inst2));
                    let bits3 = if cfg.prediction is MultiColumn {
                        spec_mark(bits2, ns, cols, si, block as u64, way)
                    } else {
                        bits2
                    };
                    let stats2 = CacheStats {
                        hits: (stats1.hits + 1) as u64,
                        victim_hits: (stats1.victim_hits + 1) as u64,
                        ..stats1
                    };
                    (
                        SimState {
                            sets: sets3,
                            victim: victim2,
                            bits: bits3,
                            next_stamp: (st.next_stamp + 1) as u64,
                        },
                        stats2,
                    )
                },
                Option::None => {
                    // True miss: fabricate a fresh line, install it, and
                    // mark the installed way for the block's own column.
                    let fresh = CacheLine {
                        tag,
                        block_address: block as u64,
                        stamp: st.next_stamp,
                        dirty: false,
                        first_touch_pending: true,
                    };
                    let (way, evicted, sets2) = install_spec(cfg, st, si, fresh);
                    let bits2 = match evicted {
                        Option::Some(ev) => if cfg.prediction is MultiColumn {
                            spec_clear(st.bits, ns, cols, si, ev.block_address, way)
                        } else {
                            st.bits
                        },
                        Option::None => st.bits,
                    };
                    let victim2 = match evicted {
                        Option::Some(ev) => vb_insert_spec(st.victim, cap, ev, st.next_stamp),
                        Option::None => st.victim,
                    };
                    let bits3 = if cfg.prediction is MultiColumn {
                        spec_mark(bits2, ns, cols, si, block as u64, way)
                    } else {
                        bits2
                    };
                    let stats2 = CacheStats { misses: (stats1.misses + 1) as u64, ..stats1 };
                    (
                        SimState {
                            sets: sets2,
                            victim: victim2,
                            bits: bits3,
                            next_stamp: (st.next_stamp + 1) as u64,
                        },
                        stats2,
                    )
                },
            }
        },
    }
}

/// The state and statistics after replaying a whole trace, access by
/// access, from the given starting point.
pub open spec fn run_model(cfg: CacheConfig, st: SimState, stats: CacheStats, trace: Seq<TraceAccess>) -> (
    SimState,
    CacheStats,
)
    decreases trace.len(),
{
    if trace.len() == 0 {
        (st, stats)
    } else {
        let prev = run_model(cfg, st, stats, trace.drop_last());
        step(cfg, prev.0, prev.1, trace.last())
    }
}

/// The state of a freshly constructed engine: all slots empty, the victim
/// buffer empty, the predictor table (present only under the multi-column
/// strategy) all clear, and the tick at one.
pub open spec fn init_state(cfg: CacheConfig) -> SimState
    recommends
        cfg.block_size >= 1,
{
    SimState {
        sets: Seq::new((spec_num_sets(cfg) * spec_ways(cfg)) as nat, |i: int| Option::None),
        victim: Seq::empty(),
        bits: if cfg.prediction is MultiColumn {
            Seq::new(
                (spec_num_sets(cfg) * spec_column_count(spec_ways(cfg))) as nat,
                |i: int| 0u32,
            )
        } else {
            Seq::empty()
        },
        next_stamp: 1,
    }
}

/// The statistics of one whole run of a fresh engine over a trace: the
/// reference semantics that `Cache::new` plus `Cache::run_trace` realize.
pub open spec fn sim_stats(cfg: CacheConfig, trace: Seq<TraceAccess>) -> CacheStats
    recommends
        cfg.block_size >= 1,
{
    run_model(cfg, init_state(cfg), crate::stats::spec_zero_stats(cfg.prediction), trace).1
}

/// The conservation relations the counters keep after `n` accesses:
/// hits and misses partition the accesses, so do reads and writes, victim
/// hits never outnumber hits, and the prediction counters (present exactly
/// when a predictor is enabled) stay bounded by the hits.
pub open spec fn counters_ok(mode: PredictionStrategy, stats: CacheStats, n: int) -> bool {
    &&& stats.accesses == n
    &&& stats.reads + stats.writes == n
    &&& stats.hits + stats.misses == n
    &&& stats.victim_hits <= stats.hits
    &&& (stats.prediction is Some <==> !(mode is Off))
    &&& match stats.prediction {
        Option::Some(p) => {
            &&& p.mode == mode
            &&& p.first_hits + p.non_first_hits == p.total_hits_observed
            &&& p.total_hits_observed <= stats.hits
            &&& p.bit_vector_observations <= p.total_hits_observed
            &&& p.bit_vector_search_total <= 32 * p.bit_vector_observations
        },
        Option::None => true,
    }
}

/// No more than `n` of the bits below position `n` can be set.
pub proof fn lemma_count_bits_below_le(x: u32, n: int)
    ensures
        count_bits_below(x, n) <= (if n >= 0 {
            n
        } else {
            0
        }),
    decreases (if n >= 0 {
        n
    } else {
        0
    }),
{
    if n > 0 {
        lemma_count_bits_below_le(x, n - 1);
    }
}

/// A search rank never exceeds the width of the bit-vector.
pub proof fn lemma_rank_le(bits: u32, way: int)
    ensures
        rank_of(bits, way) <= 32,
{
    lemma_count_bits_below_le(bits, way);
    lemma_count_bits_below_le(bits, 32);
}

/// One step tallies exactly one access and keeps every conservation
/// relation of the counters.
pub proof fn lemma_step_counters(
    cfg: CacheConfig,
    st: SimState,
    stats: CacheStats,
    a: TraceAccess,
    n: int,
)
    requires
        counters_ok(cfg.prediction, stats, n),
        0 <= n,
        n + 1 <= u64::MAX,
        32 * (n + 1) <= u64::MAX,
    ensures
        counters_ok(cfg.prediction, step(cfg, st, stats, a).1, n + 1),
{
    let block = spec_block_address(cfg, a.address);
    let si = spec_set_index(cfg, block);
    let obs = spec_observation(cfg, st, si, block as u64);
    if let PredictionObservation::MultiColumn { bits } = obs {
        let set = set_of(st, cfg, si);
        let tag = spec_tag(cfg, block) as u64;
        if let Option::Some(w) = find_hit_from(set, tag, 0) {
            lemma_rank_le(bits, w);
        }
    }
}

/// Replaying a trace from fresh counters leaves every conservation
/// relation in place, with one access tallied per trace entry.
pub proof fn lemma_run_counters(cfg: CacheConfig, st: SimState, trace: Seq<TraceAccess>)
    requires
        32 * trace.len() <= u64::MAX,
    ensures
        counters_ok(
            cfg.prediction,
            run_model(cfg, st, crate::stats::spec_zero_stats(cfg.prediction), trace).1,
            trace.len() as int,
        ),
    decreases trace.len(),
{
    if trace.len() == 0 {
    } else {
        lemma_run_counters(cfg, st, trace.drop_last());
        let prev = run_model(cfg, st, crate::stats::spec_zero_stats(cfg.prediction), trace.drop_last());
        lemma_step_counters(cfg, prev.0, prev.1, trace.last(), trace.len() - 1);
    }
}

/// How many accesses of a trace are of the given kind.
pub open spec fn count_kind(trace: Seq<TraceAccess>, kind: AccessKind) -> int
    decreases trace.len(),
{
    if trace.len() == 0 {
        0
    } else {
        count_kind(trace.drop_last(), kind) + (if trace.last().kind == kind {
            1int
        } else {
            0int
        })
    }
}

/// Replaying a trace from fresh counters tallies exactly the trace's own
/// reads as reads and writes as writes.
pub proof fn lemma_run_kind_counts(cfg: CacheConfig, st: SimState, trace: Seq<TraceAccess>)
    requires
        32 * trace.len() <= u64::MAX,
    ensures
        ({
            let s = run_model(cfg, st, crate::stats::spec_zero_stats(cfg.prediction), trace).1;
            &&& s.reads == count_kind(trace, AccessKind::Read)
            &&& s.writes == count_kind(trace, AccessKind::Write)
        }),
    decreases trace.len(),
{
    if trace.len() > 0 {
        lemma_run_counters(cfg, st, trace.drop_last());
        lemma_run_kind_counts(cfg, st, trace.drop_last());
    }
}

/// A failed tag search means no way at or after `i` holds the tag.
pub proof fn lemma_find_hit_none(set: Seq<Option<CacheLine>>, tag: u64, i: int)
    requires
        0 <= i,
        find_hit_from(set, tag, i) is None,
    ensures
        forall|j: int|
            i <= j < set.len() ==> !(#[trigger] set[j] matches Option::Some(l) && l.tag == tag),
    decreases set.len() - i,
{
    if i < set.len() {
        lemma_find_hit_none(set, tag, i + 1);
    }
}

/// A successful tag search returns the first way holding the tag.
pub proof fn lemma_find_hit_some(set: Seq<Option<CacheLine>>, tag: u64, i: int, w: int)
    requires
        0 <= i,
        find_hit_from(set, tag, i) == Option::Some(w),
    ensures
        i <= w < set.len(),
        set[w] is Some,
        line_of(set[w]).tag == tag,
    decreases set.len() - i,
{
    if !(set[i] matches Option::Some(l) && l.tag == tag) {
        lemma_find_hit_some(set, tag, i + 1, w);
    }
}

/// A failed empty-slot search means every way at or after `i` is occupied.
pub proof fn lemma_find_empty_none(set: Seq<Option<CacheLine>>, i: int)
    requires
        find_empty_from(set, i) is None,
        0 <= i,
    ensures
        forall|j: int| i <= j < set.len() ==> #[trigger] set[j] is Some,
    decreases set.len() - i,
{
    if i < set.len() {
        lemma_find_empty_none(set, i + 1);
    }
}

/// A successful empty-slot search returns an empty way in range.
pub proof fn lemma_find_empty_some(set: Seq<Option<CacheLine>>, i: int, w: int)
    requires
        0 <= i,
        find_empty_from(set, i) == Option::Some(w),
    ensures
        i <= w < set.len(),
        set[w] is None,
    decreases set.len() - i,
{
    if !(set[i] is None) {
        lemma_find_empty_some(set, i + 1, w);
    }
}

/// Enough room in every counter for one more access to be tallied without
/// wrapping.
pub open spec fn stats_headroom(stats: CacheStats) -> bool {
    &&& stats.accesses < u64::MAX
    &&& stats.reads < u64::MAX
    &&& stats.writes < u64::MAX
    &&& stats.hits < u64::MAX
    &&& stats.misses < u64::MAX
    &&& stats.victim_hits < u64::MAX
    &&& match stats.prediction {
        Option::Some(p) => {
            &&& p.first_hits < u64::MAX
            &&& p.non_first_hits < u64::MAX
            &&& p.total_hits_observed < u64::MAX
            &&& p.bit_vector_observations < u64::MAX
            &&& p.bit_vector_search_total + 32 <= u64::MAX
        },
        Option::None => true,
    }
}

} // verus!
