//! The cache engine: owns the set arena, the optional victim buffer and
//! the optional predictor table, and replays accesses one at a time.

use vstd::prelude::*;
use crate::config::CacheConfig;
use crate::config::PredictionStrategy;
use crate::config::lemma_geometry;
use crate::config::spec_num_sets;
use crate::config::spec_ways;
use crate::line::CacheLine;
use crate::model::PredictionObservation;
use crate::model::SimState;
use crate::model::find_empty_from;
use crate::model::find_hit_from;
use crate::model::init_state;
use crate::model::install_spec;
use crate::model::line_of;
use crate::model::mc_victim_prefix;
use crate::model::mru_prefix;
use crate::model::oldest_prefix;
use crate::model::rank_of;
use crate::model::run_model;
use crate::model::set_of;
use crate::model::slot_hot;
use crate::model::slot_stamp;
use crate::model::spec_block_address;
use crate::model::spec_observation;
use crate::model::spec_set_index;
use crate::model::spec_tag;
use crate::model::stats_headroom;
use crate::model::stats_record;
use crate::model::stats_with_access;
use crate::model::step;
use crate::model::counters_ok;
use crate::model::count_kind;
use crate::model::lemma_run_counters;
use crate::model::lemma_run_kind_counts;
use crate::model::victim_way;
use crate::predictor::MultiColumnPredictor;
use crate::predictor::count_bits_below_exec;
use crate::predictor::spec_column_count;
use crate::stats::CacheStats;
use crate::stats::spec_zero_stats;
use crate::trace::AccessKind;
use crate::trace::TraceAccess;
use crate::victim::VictimBuffer;
use crate::wf::lemma_init_wf;
use crate::wf::lemma_step_wf;
use crate::wf::state_wf;

verus! {

/// One simulated cache: the slots of all sets in one flat arena (set `s`,
/// way `w` at index `s * ways + w`), the optional victim buffer, the
/// optional multi-column predictor, and the monotonic tick counter.
pub struct Cache {
    config: CacheConfig,
    sets: Vec<Option<CacheLine>>,
    victim: Option<VictimBuffer>,
    prediction_mode: PredictionStrategy,
    multi_predictor: Option<MultiColumnPredictor>,
    next_stamp: u64,
    num_sets: usize,
    ways: usize,
}

impl View for Cache {
    type V = SimState;

    /// The ghost image the model's transition function runs over.
    closed spec fn view(&self) -> SimState {
        SimState {
            sets: self.sets@,
            victim: match self.victim {
                Option::Some(vb) => vb.entries@,
                Option::None => Seq::empty(),
            },
            bits: match self.multi_predictor {
                Option::Some(mp) => mp.bits@,
                Option::None => Seq::empty(),
            },
            next_stamp: self.next_stamp,
        }
    }
}

impl Cache {
    /// The configuration the engine was built from.
    pub closed spec fn spec_config(&self) -> CacheConfig {
        self.config
    }

    /// The current tick value; stamps of resident lines come from ticks
    /// already spent.
    pub open spec fn spec_next_stamp(&self) -> u64 {
        self@.next_stamp
    }

    /// The structural well-formedness the engine maintains: cached
    /// geometry matches the configuration, the arena has one slot per
    /// (set, way) pair, and the optional components are present exactly
    /// when the configuration asks for them.
    closed spec fn wf_shape(&self) -> bool {
        &&& self.config.block_size >= 1
        &&& self.num_sets == spec_num_sets(self.config)
        &&& self.ways == spec_ways(self.config)
        &&& self.prediction_mode == self.config.prediction
        &&& self.sets@.len() == self.num_sets * self.ways
        &&& (self.victim is Some <==> self.config.victim_cache_entries > 0)
        &&& match self.victim {
            Option::Some(vb) => vb.capacity == self.config.victim_cache_entries && vb.wf(),
            Option::None => true,
        }
        &&& (self.multi_predictor is Some <==> self.config.prediction is MultiColumn)
        &&& match self.multi_predictor {
            Option::Some(mp) => {
                &&& mp.wf()
                &&& mp.sets == self.num_sets
                &&& mp.columns == spec_column_count(spec_ways(self.config))
            },
            Option::None => true,
        }
    }

    /// The engine's full invariant: the structural shape above, and the
    /// semantic well-formedness of the state image — resident and buffered
    /// lines coherent with their sets and tags, blocks distinct within a
    /// set, and (under the multi-column strategy) the bit-vector table
    /// tracking exactly the resident lines, column by column.
    pub closed spec fn inv(&self) -> bool {
        &&& self.wf_shape()
        &&& state_wf(self.config, self@)
    }

    /// A fresh engine: every slot empty, the victim buffer (if configured)
    /// empty, the predictor table (if configured) all clear, tick at one.
    pub fn new(config: CacheConfig) -> (r: Self)
        requires
            config.block_size >= 1,
        ensures
            r.inv(),
            r.spec_config() == config,
            r@ == init_state(config),
    {
        proof {
            lemma_geometry(config);
        }
        let num_sets = config.num_sets();
        let ways = if config.associativity >= 1 {
            config.associativity
        } else {
            1
        };
        let total = num_sets * ways;
        let mut sets: Vec<Option<CacheLine>> = Vec::new();
        let mut i: usize = 0;
        while i < total
            invariant
                i <= total,
                sets@.len() == i,
                forall|j: int| 0 <= j < i ==> sets@[j] is None,
            decreases total - i,
        {
            sets.push(Option::None);
            i = i + 1;
        }
        let victim = if config.victim_cache_entries > 0 {
            Option::Some(VictimBuffer::new(config.victim_cache_entries))
        } else {
            Option::None
        };
        let prediction_mode = config.prediction;
        let multi_predictor = match prediction_mode {
            PredictionStrategy::MultiColumn => Option::Some(
                MultiColumnPredictor::new(num_sets, ways),
            ),
            _ => Option::None,
        };
        let r = Cache {
            config,
            sets,
            victim,
            prediction_mode,
            multi_predictor,
            next_stamp: 1,
            num_sets,
            ways,
        };
        proof {
            assert(r@.sets =~= init_state(config).sets);
            assert(r@.victim =~= init_state(config).victim);
            assert(r@.bits =~= init_state(config).bits);
            assert(r@ =~= init_state(config));
            lemma_init_wf(config);
        }
        r
    }

    /// Replays the trace in order against this engine and returns the
    /// accumulated statistics: exactly `run_model` of the configuration,
    /// the starting state and the trace, with fresh counters. One access
    /// is tallied per entry; hits and misses partition the accesses, as do
    /// reads and writes.
    pub fn run_trace(&mut self, trace: &[TraceAccess]) -> (r: CacheStats)
        requires
            old(self).inv(),
            old(self).spec_next_stamp() + trace@.len() <= u64::MAX,
            32 * trace@.len() <= u64::MAX,
        ensures
            final(self).inv(),
            final(self).spec_config() == old(self).spec_config(),
            ({
                let (st2, sc2) = run_model(
                    old(self).spec_config(),
                    old(self)@,
                    spec_zero_stats(old(self).spec_config().prediction),
                    trace@,
                );
                final(self)@ == st2 && r == sc2
            }),
            r.accesses == trace@.len(),
            r.hits + r.misses == r.accesses,
            r.reads + r.writes == r.accesses,
            r.reads == count_kind(trace@, AccessKind::Read),
            r.writes == count_kind(trace@, AccessKind::Write),
            r.victim_hits <= r.hits,
            final(self).spec_next_stamp() == old(self).spec_next_stamp() + trace@.len(),
    {
        let ghost cfg = self.config;
        let ghost st0 = self@;
        let ghost zero = spec_zero_stats(cfg.prediction);
        let mut stats = CacheStats::new(self.prediction_mode);
        let n = trace.len();
        let mut i: usize = 0;
        while i < n
            invariant
                self.inv(),
                self.spec_config() == cfg,
                st0 == old(self)@,
                zero == spec_zero_stats(cfg.prediction),
                i <= n == trace@.len(),
                32 * trace@.len() <= u64::MAX,
                old(self).spec_next_stamp() + trace@.len() <= u64::MAX,
                self.spec_next_stamp() == old(self).spec_next_stamp() + i,
                ({
                    let (sti, sci) = run_model(cfg, st0, zero, trace@.take(i as int));
                    self@ == sti && stats == sci
                }),
            decreases n - i,
        {
            proof {
                lemma_run_counters(cfg, st0, trace@.take(i as int));
                assert(counters_ok(cfg.prediction, stats, i as int));
                assert(trace@.take(i + 1 as int).drop_last() =~= trace@.take(i as int));
                assert(trace@.take(i + 1 as int).last() == trace@[i as int]);
            }
            let access = trace[i];
            self.process_access(&access, &mut stats);
            i = i + 1;
        }
        proof {
            assert(trace@.take(n as int) =~= trace@);
            lemma_run_counters(cfg, st0, trace@);
            lemma_run_kind_counts(cfg, st0, trace@);
        }
        stats
    }

    /// Runs one access through the decode / lookup / recover / install
    /// pipeline, mutating the state and the counters exactly as one step
    /// of the model does, and advancing the tick once.
    fn process_access(&mut self, access: &TraceAccess, stats: &mut CacheStats)
        requires
            old(self).inv(),
            old(self).spec_next_stamp() < u64::MAX,
            stats_headroom(*old(stats)),
        ensures
            final(self).inv(),
            final(self).spec_config() == old(self).spec_config(),
            final(self).spec_next_stamp() == old(self).spec_next_stamp() + 1,
            ({
                let (st2, sc2) = step(old(self).spec_config(), old(self)@, *old(stats), *access);
                final(self)@ == st2 && *final(stats) == sc2
            }),
    {
        let ghost cfg = self.config;
        let ghost st = self@;
        let is_write = match access.kind {
            AccessKind::Read => false,
            AccessKind::Write => true,
        };
        stats.accesses = stats.accesses + 1;
        match access.kind {
            AccessKind::Read => {
                stats.reads = stats.reads + 1;
            },
            AccessKind::Write => {
                stats.writes = stats.writes + 1;
            },
        }
        proof {
            assert(*stats == stats_with_access(*old(stats), access.kind));
        }

        let block_address = access.address / (self.config.block_size as u64);
        let set_index = (block_address % (self.num_sets as u64)) as usize;
        let tag = block_address / (self.num_sets as u64);
        proof {
            assert(block_address == spec_block_address(cfg, access.address));
            assert(set_index == spec_set_index(cfg, spec_block_address(cfg, access.address)));
            assert(tag == spec_tag(cfg, spec_block_address(cfg, access.address)) as u64);
        }

        // Snapshot what the predictor believes before any state mutates.
        let observation = self.observe_prediction(set_index, block_address);

        if let Option::Some(way) = self.touch_if_hit(set_index, tag, is_write) {
            stats.hits = stats.hits + 1;
            self.update_multi_column_on_hit(set_index, block_address, way);
            self.record_prediction(&observation, Option::Some(way), stats);
            self.next_stamp = self.next_stamp + 1;
            proof {
                lemma_step_wf(cfg, st, *old(stats), *access);
                let (st2, sc2) = step(cfg, st, *old(stats), *access);
                assert(self@ =~= st2);
                assert(*stats == sc2);
            }
            return ;
        }

        let mut victim_line = match &mut self.victim {
            Option::Some(vb) => vb.take(block_address),
            Option::None => Option::None,
        };
        if let Option::Some(line) = &mut victim_line {
            line.stamp = self.next_stamp;
        }

        if let Option::Some(line) = victim_line {
            // Recovered from the victim buffer: reinstall and count the
            // access as both a hit and a victim hit.
            let (way, evicted) = self.install_line(set_index, line);
            if let Option::Some(evicted_line) = evicted {
                self.multi_column_on_evict(set_index, &evicted_line, way);
                match &mut self.victim {
                    Option::Some(vb) => vb.insert(evicted_line, self.next_stamp),
                    Option::None => {},
                }
            }
            let base = self.set_base(set_index);
            let total = self.sets.len();
            proof {
                assert(base + way < total);
            }
            let mut installed = self.sets[base + way].unwrap();
            installed.first_touch_pending = false;
            if is_write {
                installed.dirty = true;
            }
            self.sets[base + way] = Option::Some(installed);
            self.update_multi_column_on_hit(set_index, block_address, way);
            stats.hits = stats.hits + 1;
            stats.victim_hits = stats.victim_hits + 1;
            self.next_stamp = self.next_stamp + 1;
            proof {
                lemma_step_wf(cfg, st, *old(stats), *access);
                let (st2, sc2) = step(cfg, st, *old(stats), *access);
                assert(self@ =~= st2);
                assert(*stats == sc2);
            }
        } else {
            // A true miss: fabricate a fresh line, install it, and mark
            // the installed way for the block's own column.
            let line = CacheLine::new(tag, block_address, self.next_stamp);
            let (way, evicted) = self.install_line(set_index, line);
            if let Option::Some(evicted_line) = evicted {
                self.multi_column_on_evict(set_index, &evicted_line, way);
                match &mut self.victim {
                    Option::Some(vb) => vb.insert(evicted_line, self.next_stamp),
                    Option::None => {},
                }
            }
            self.update_multi_column_on_hit(set_index, block_address, way);
            stats.misses = stats.misses + 1;
            self.next_stamp = self.next_stamp + 1;
            proof {
                lemma_step_wf(cfg, st, *old(stats), *access);
                let (st2, sc2) = step(cfg, st, *old(stats), *access);
                assert(self@ =~= st2);
                assert(*stats == sc2);
            }
        }
    }

    /// The arena index of way 0 of a set.
    fn set_base(&self, set_index: usize) -> (r: usize)
        requires
            self.wf_shape(),
            set_index < self.num_sets,
        ensures
            r == set_index as int * spec_ways(self.spec_config()),
            r + spec_ways(self.spec_config()) <= self.sets@.len(),
    {
        let total = self.sets.len();
        proof {
            let si = set_index as int;
            let ws = self.ways as int;
            let ns = self.num_sets as int;
            assert(si * ws + ws <= ns * ws) by (nonlinear_arith)
                requires
                    si < ns,
                    ws >= 0,
            ;
            assert(si * ws + ws <= total);
        }
        set_index * self.ways
    }

    /// Scans the addressed set for a valid line with the tag; on a hit,
    /// refreshes the stamp, records a write, and clears the first-touch
    /// flag. Returns the hitting way.
    fn touch_if_hit(&mut self, set_index: usize, tag: u64, is_write: bool) -> (r: Option<usize>)
        requires
            old(self).wf_shape(),
            set_index < old(self).num_sets,
        ensures
            final(self).wf_shape(),
            *final(self) == (Cache { sets: final(self).sets, ..*old(self) }),
            ({
                let cfg = old(self).spec_config();
                let set = set_of(old(self)@, cfg, set_index as int);
                let base = set_index as int * spec_ways(cfg);
                match find_hit_from(set, tag, 0) {
                    Option::None => r is None && final(self).sets@ == old(self).sets@,
                    Option::Some(w) => {
                        let l = line_of(set[w]);
                        let l2 = CacheLine {
                            stamp: old(self).spec_next_stamp(),
                            dirty: l.dirty || is_write,
                            first_touch_pending: false,
                            ..l
                        };
                        &&& r == Option::Some(w as usize)
                        &&& 0 <= w < spec_ways(cfg)
                        &&& final(self).sets@ == old(self).sets@.update(base + w, Option::Some(l2))
                    },
                }
            }),
    {
        let ghost cfg = self.config;
        let ghost set = set_of(self@, cfg, set_index as int);
        let base = self.set_base(set_index);
        let ways = self.ways;
        let total = self.sets.len();
        let mut w: usize = 0;
        while w < ways
            invariant
                *self == *old(self),
                self.wf_shape(),
                set_index < self.num_sets,
                ways == self.ways,
                base == set_index as int * spec_ways(self.config),
                total == self.sets@.len(),
                base + ways <= total,
                0 <= w <= ways,
                cfg == self.config,
                set == set_of(self@, cfg, set_index as int),
                find_hit_from(set, tag, 0) == find_hit_from(set, tag, w as int),
            decreases ways - w,
        {
            if let Option::Some(l) = self.sets[base + w] {
                if l.tag == tag {
                    let l2 = CacheLine {
                        stamp: self.next_stamp,
                        dirty: l.dirty || is_write,
                        first_touch_pending: false,
                        ..l
                    };
                    self.sets[base + w] = Option::Some(l2);
                    return Option::Some(w);
                }
            }
            w = w + 1;
        }
        Option::None
    }

    /// Installs a line into the addressed set: an empty way is preferred
    /// and freshly stamps the line; otherwise the policy's victim way is
    /// replaced and the evicted line returned, the newcomer inheriting the
    /// victim's stamp under the MRU (LRU-insertion) policy.
    fn install_line(&mut self, set_index: usize, line: CacheLine) -> (r: (usize, Option<CacheLine>))
        requires
            old(self).wf_shape(),
            set_index < old(self).num_sets,
        ensures
            final(self).wf_shape(),
            *final(self) == (Cache { sets: final(self).sets, ..*old(self) }),
            r.0 < spec_ways(old(self).spec_config()),
            ({
                let (way, ev, sets2) = install_spec(
                    old(self).spec_config(),
                    old(self)@,
                    set_index as int,
                    line,
                );
                r.0 == way && r.1 == ev && final(self).sets@ == sets2
            }),
    {
        let ghost cfg = self.config;
        let ghost set = set_of(self@, cfg, set_index as int);
        let base = self.set_base(set_index);
        let ways = self.ways;
        let total = self.sets.len();
        let mut w: usize = 0;
        while w < ways
            invariant
                *self == *old(self),
                self.wf_shape(),
                set_index < self.num_sets,
                ways == self.ways,
                base == set_index as int * spec_ways(self.config),
                total == self.sets@.len(),
                base + ways <= total,
                0 <= w <= ways,
                cfg == self.config,
                set == set_of(self@, cfg, set_index as int),
                find_empty_from(set, 0) == find_empty_from(set, w as int),
            decreases ways - w,
        {
            if self.sets[base + w].is_none() {
                let mut installed = line;
                installed.stamp = self.next_stamp;
                self.sets[base + w] = Option::Some(installed);
                return (w, Option::None);
            }
            w = w + 1;
        }

        proof {
            crate::model::lemma_find_empty_none(set, 0);
        }
        let idx = self.find_victim_index(set_index);
        let evicted = self.sets[base + idx].unwrap();
        let installed = if matches!(self.prediction_mode, PredictionStrategy::Mru) {
            CacheLine { stamp: evicted.stamp, ..line }
        } else {
            line
        };
        self.sets[base + idx] = Option::Some(installed);
        (idx, Option::Some(evicted))
    }

    /// The way a full set evicts: the oldest stamp (ties to the lowest
    /// way), except that the multi-column policy first prefers ways whose
    /// predictor bit for the resident line's own column is clear.
    fn find_victim_index(&self, set_index: usize) -> (r: usize)
        requires
            self.wf_shape(),
            set_index < self.num_sets,
            find_empty_from(set_of(self@, self.spec_config(), set_index as int), 0) is None,
        ensures
            r < spec_ways(self.spec_config()),
            r == victim_way(
                self.spec_config(),
                self@,
                set_index as int,
                set_of(self@, self.spec_config(), set_index as int),
            ),
    {
        let ghost cfg = self.config;
        let ghost set = set_of(self@, cfg, set_index as int);
        proof {
            crate::model::lemma_find_empty_none(set, 0);
        }
        let base = self.set_base(set_index);
        let ways = self.ways;
        let total = self.sets.len();
        match self.prediction_mode {
            PredictionStrategy::MultiColumn => {
                let mp = match &self.multi_predictor {
                    Option::Some(mp) => mp,
                    Option::None => {
                        proof {
                            assert(false);
                        }
                        return 0;
                    },
                };
                let first = self.sets[base].unwrap();
                let mut best: usize = 0;
                let mut best_hot: u32 = {
                    let bits = mp.observe(set_index, first.block_address);
                    if (bits >> 0u32) & 1 == 1 {
                        1
                    } else {
                        0
                    }
                };
                let mut best_stamp: u64 = first.stamp;
                let mut w: usize = 1;
                while w < ways
                    invariant
                        self.wf_shape(),
                        set_index < self.num_sets,
                        ways == self.ways,
                        base == set_index as int * spec_ways(self.config),
                        total == self.sets@.len(),
                        base + ways <= total,
                        1 <= w <= ways,
                        best < w,
                        cfg == self.config,
                        self.config.prediction is MultiColumn,
                        mp == self.multi_predictor->Some_0,
                        set == set_of(self@, cfg, set_index as int),
                        forall|j: int| 0 <= j < set.len() ==> set[j] is Some,
                        best == mc_victim_prefix(
                            self@.bits,
                            spec_num_sets(cfg),
                            spec_column_count(spec_ways(cfg)),
                            set_index as int,
                            set,
                            w as int,
                        ),
                        best_hot == slot_hot(
                            self@.bits,
                            spec_num_sets(cfg),
                            spec_column_count(spec_ways(cfg)),
                            set_index as int,
                            set[best as int],
                            best as int,
                        ),
                        best_stamp == slot_stamp(set[best as int]),
                    decreases ways - w,
                {
                    proof {
                        assert(set[w as int] == self.sets@[base + w]);
                    }
                    let l = self.sets[base + w].unwrap();
                    let bits = mp.observe(set_index, l.block_address);
                    let hot: u32 = if w < 32 && (bits >> (w as u32)) & 1 == 1 {
                        1
                    } else {
                        0
                    };
                    if hot < best_hot || (hot == best_hot && l.stamp < best_stamp) {
                        best = w;
                        best_hot = hot;
                        best_stamp = l.stamp;
                    }
                    w = w + 1;
                }
                best
            },
            _ => {
                let mut best: usize = 0;
                let mut best_stamp: u64 = match self.sets[base] {
                    Option::Some(l) => l.stamp,
                    Option::None => 0,
                };
                let mut w: usize = 1;
                while w < ways
                    invariant
                        self.wf_shape(),
                        set_index < self.num_sets,
                        ways == self.ways,
                        base == set_index as int * spec_ways(self.config),
                        total == self.sets@.len(),
                        base + ways <= total,
                        1 <= w <= ways,
                        best < w,
                        cfg == self.config,
                        set == set_of(self@, cfg, set_index as int),
                        best == oldest_prefix(set, w as int),
                        best_stamp == slot_stamp(set[best as int]),
                    decreases ways - w,
                {
                    let s = match self.sets[base + w] {
                        Option::Some(l) => l.stamp,
                        Option::None => 0,
                    };
                    if s < best_stamp {
                        best = w;
                        best_stamp = s;
                    }
                    w = w + 1;
                }
                best
            },
        }
    }

    /// What the configured predictor reports for this access, taken before
    /// the access mutates any state.
    fn observe_prediction(&self, set_index: usize, block_address: u64) -> (r: PredictionObservation)
        requires
            self.wf_shape(),
            set_index < self.num_sets,
        ensures
            r == spec_observation(self.spec_config(), self@, set_index as int, block_address),
    {
        match self.prediction_mode {
            PredictionStrategy::Off => PredictionObservation::Off,
            PredictionStrategy::Mru => PredictionObservation::Mru {
                predicted: self.mru_way(set_index),
            },
            PredictionStrategy::MultiColumn => {
                let bits = match &self.multi_predictor {
                    Option::Some(mp) => mp.observe(set_index, block_address),
                    Option::None => {
                        proof {
                            assert(false);
                        }
                        0
                    },
                };
                PredictionObservation::MultiColumn { bits }
            },
        }
    }

    /// The most recently used way of a set: the valid line with the
    /// highest stamp, ties to the highest way index; none if the set is
    /// entirely empty.
    fn mru_way(&self, set_index: usize) -> (r: Option<usize>)
        requires
            self.wf_shape(),
            set_index < self.num_sets,
        ensures
            r == match mru_prefix(
                set_of(self@, self.spec_config(), set_index as int),
                spec_ways(self.spec_config()),
            ) {
                Option::Some(w) => Option::Some(w as usize),
                Option::None => Option::None::<usize>,
            },
    {
        let ghost cfg = self.config;
        let ghost set = set_of(self@, cfg, set_index as int);
        let base = self.set_base(set_index);
        let ways = self.ways;
        let total = self.sets.len();
        let mut best: Option<usize> = Option::None;
        let mut best_stamp: u64 = 0;
        let mut w: usize = 0;
        while w < ways
            invariant
                self.wf_shape(),
                set_index < self.num_sets,
                ways == self.ways,
                base == set_index as int * spec_ways(self.config),
                total == self.sets@.len(),
                base + ways <= total,
                0 <= w <= ways,
                cfg == self.config,
                set == set_of(self@, cfg, set_index as int),
                ({
                    match mru_prefix(set, w as int) {
                        Option::Some(m) => best == Option::Some(m as usize) && best_stamp
                            == slot_stamp(set[m]),
                        Option::None => best is None,
                    }
                }),
            decreases ways - w,
        {
            if let Option::Some(l) = self.sets[base + w] {
                match best {
                    Option::None => {
                        best = Option::Some(w);
                        best_stamp = l.stamp;
                    },
                    Option::Some(_) => {
                        if l.stamp >= best_stamp {
                            best = Option::Some(w);
                            best_stamp = l.stamp;
                        }
                    },
                }
            }
            w = w + 1;
        }
        best
    }

    /// Classifies one hit against the pre-access observation and folds it
    /// into the prediction counters, when they are kept at all.
    fn record_prediction(
        &self,
        observation: &PredictionObservation,
        actual: Option<usize>,
        stats: &mut CacheStats,
    )
        requires
            match old(stats).prediction {
                Option::Some(p) => {
                    &&& p.total_hits_observed < u64::MAX
                    &&& p.first_hits < u64::MAX
                    &&& p.non_first_hits < u64::MAX
                    &&& p.bit_vector_observations < u64::MAX
                    &&& p.bit_vector_search_total + 32 <= u64::MAX
                },
                Option::None => true,
            },
        ensures
            *final(stats) == match actual {
                Option::Some(way) => stats_record(*old(stats), *observation, way as int),
                Option::None => *old(stats),
            },
    {
        let pred_stats = match &mut stats.prediction {
            Option::Some(p) => p,
            Option::None => {
                return ;
            },
        };
        let actual_way = match actual {
            Option::Some(way) => way,
            Option::None => {
                return ;
            },
        };
        pred_stats.total_hits_observed = pred_stats.total_hits_observed + 1;
        match observation {
            PredictionObservation::Off => {},
            PredictionObservation::Mru { predicted } => {
                let matched = match predicted {
                    Option::Some(p) => *p == actual_way,
                    Option::None => false,
                };
                if matched {
                    pred_stats.first_hits = pred_stats.first_hits + 1;
                } else {
                    pred_stats.non_first_hits = pred_stats.non_first_hits + 1;
                }
            },
            PredictionObservation::MultiColumn { bits } => {
                let bits = *bits;
                let rank: u32 = if actual_way < 32 && (bits >> (actual_way as u32)) & 1 == 1 {
                    count_bits_below_exec(bits, actual_way as u32) + 1
                } else {
                    count_bits_below_exec(bits, 32)
                };
                proof {
                    assert(rank == rank_of(bits, actual_way as int));
                }
                pred_stats.bit_vector_search_total = pred_stats.bit_vector_search_total
                    + (rank as u64);
                pred_stats.bit_vector_observations = pred_stats.bit_vector_observations + 1;
                if rank == 1 {
                    pred_stats.first_hits = pred_stats.first_hits + 1;
                } else {
                    pred_stats.non_first_hits = pred_stats.non_first_hits + 1;
                }
            },
        }
    }

    /// Marks the predictor bit of the given way for this block's column,
    /// when a multi-column predictor is configured: called on every hit
    /// and on every successful install, so the table tracks residency.
    fn update_multi_column_on_hit(&mut self, set_index: usize, block_address: u64, way: usize)
        requires
            old(self).wf_shape(),
            set_index < old(self).num_sets,
        ensures
            final(self).wf_shape(),
            *final(self) == (Cache { multi_predictor: final(self).multi_predictor, ..*old(self) }),
            final(self)@.bits == if old(self).spec_config().prediction is MultiColumn {
                crate::predictor::spec_mark(
                    old(self)@.bits,
                    spec_num_sets(old(self).spec_config()),
                    spec_column_count(spec_ways(old(self).spec_config())),
                    set_index as int,
                    block_address,
                    way as int,
                )
            } else {
                old(self)@.bits
            },
    {
        match &mut self.multi_predictor {
            Option::Some(mp) => mp.mark(set_index, block_address, way),
            Option::None => {},
        }
    }

    /// Clears the predictor bit of the evicted way for the evicted line's
    /// own column, when a multi-column predictor is configured, so that a
    /// stale way is no longer predicted.
    fn multi_column_on_evict(&mut self, set_index: usize, line: &CacheLine, way: usize)
        requires
            old(self).wf_shape(),
            set_index < old(self).num_sets,
        ensures
            final(self).wf_shape(),
            *final(self) == (Cache { multi_predictor: final(self).multi_predictor, ..*old(self) }),
            final(self)@.bits == if old(self).spec_config().prediction is MultiColumn {
                crate::predictor::spec_clear(
                    old(self)@.bits,
                    spec_num_sets(old(self).spec_config()),
                    spec_column_count(spec_ways(old(self).spec_config())),
                    set_index as int,
                    line.block_address,
                    way as int,
                )
            } else {
                old(self)@.bits
            },
    {
        match &mut self.multi_predictor {
            Option::Some(mp) => mp.clear(set_index, line.block_address, way),
            Option::None => {},
        }
    }
}

/// The multi-column bit-vector invariant, observed on a live engine: at
/// any point between accesses, bit `w` of the vector of (set, column) is
/// set exactly when the line currently resident in way `w` of that set
/// belongs to that column — every hit and every successful install mark
/// the resident way's bit and every eviction clears the evicted way's
/// bit, with no lag or duplication.
pub proof fn lemma_bit_vector_tracks(c: &Cache, si: int, col: int, w: int)
    requires
        c.inv(),
        c.spec_config().prediction is MultiColumn,
        0 <= si < spec_num_sets(c.spec_config()),
        0 <= col < spec_column_count(spec_ways(c.spec_config())),
        0 <= w < 32,
    ensures
        crate::predictor::bit_set(crate::wf::bits_at(c.spec_config(), c@, si, col), w)
            <==> crate::wf::column_tracks(c.spec_config(), c@, si, col, w),
{
}

/// The victim-buffer invariant, observed on a live engine: the buffer
/// never holds more entries than its configured capacity, and a disabled
/// buffer holds none.
pub proof fn lemma_victim_buffer_bounded(c: &Cache)
    requires
        c.inv(),
    ensures
        c@.victim.len() <= c.spec_config().victim_cache_entries,
        c.spec_config().victim_cache_entries == 0 ==> c@.victim.len() == 0,
{
}

/// The set invariant, observed on a live engine: among the valid lines of
/// one set, tags are pairwise distinct (a set never holds one block
/// twice).
pub proof fn lemma_set_tags_distinct(c: &Cache, si: int, w1: int, w2: int)
    requires
        c.inv(),
        0 <= si < spec_num_sets(c.spec_config()),
        0 <= w1 < w2 < spec_ways(c.spec_config()),
        crate::wf::slot_at(c.spec_config(), c@, si, w1) is Some,
        crate::wf::slot_at(c.spec_config(), c@, si, w2) is Some,
    ensures
        line_of(crate::wf::slot_at(c.spec_config(), c@, si, w1)).tag != line_of(
            crate::wf::slot_at(c.spec_config(), c@, si, w2),
        ).tag,
{
    let cfg = c.spec_config();
    let ws = spec_ways(cfg);
    let ns = spec_num_sets(cfg);
    lemma_geometry(cfg);
    crate::wf::lemma_flat(ws, si, w1);
    crate::wf::lemma_flat(ws, si, w2);
    crate::wf::lemma_set_range(cfg, si);
    let l1 = line_of(c@.sets[si * ws + w1]);
    let l2 = line_of(c@.sets[si * ws + w2]);
    assert(l1.block_address != l2.block_address);
    if l1.tag == l2.tag {
        crate::wf::lemma_same_decomposition(ns, l1.block_address as int, l2.block_address as int);
    }
}

} // verus!
