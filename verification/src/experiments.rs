//! Scenario sweeps: builders for families of cache configurations, and a
//! runner that replays every trace against every configuration.

use vstd::prelude::*;
use crate::config::CacheConfig;
use crate::config::PredictionStrategy;
use crate::engine::Cache;
use crate::model::sim_stats;
use crate::stats::CacheStats;
use crate::textnum::dec_chars;
use crate::textnum::dec_string;
use crate::trace::TraceFile;

verus! {

/// One configuration to sweep, with the label it is reported under.
#[derive(Clone)]
pub struct ScenarioConfig {
    pub label: String,
    pub config: CacheConfig,
}

/// One configuration's results: the statistics of every trace replayed
/// against it.
pub struct ScenarioResult {
    pub label: String,
    pub trace_results: Vec<TraceResult>,
}

/// The statistics of one trace under one configuration.
pub struct TraceResult {
    pub trace_name: String,
    pub stats: CacheStats,
}

/// The label of a set-associative scenario.
pub open spec fn sa_label(ways: int) -> Seq<char> {
    dec_chars(ways) + "-way SA"@
}

/// The label of a block-size scenario.
pub open spec fn block_label(block: int) -> Seq<char> {
    "Block "@ + dec_chars(block) + "B"@
}

/// The label of a direct-mapped-plus-victim-buffer scenario.
pub open spec fn victim_label(entries: int) -> Seq<char> {
    "DM + Victim("@ + dec_chars(entries) + ")"@
}

/// The label of a way-prediction scenario.
pub open spec fn predictor_label(strategy: PredictionStrategy, ways: int) -> Seq<char> {
    (match strategy {
        PredictionStrategy::Off => "No-Predict"@,
        PredictionStrategy::Mru => "MRU"@,
        PredictionStrategy::MultiColumn => "Multi-Column"@,
    }) + " "@ + dec_chars(ways) + "-way"@
}

/// Replays every trace against every scenario, in order, and reports the
/// statistics of each (scenario, trace) pair: exactly the reference
/// semantics of one fresh run per pair.
pub fn run_scenarios(traces: &[TraceFile], scenarios: &[ScenarioConfig]) -> (r: Vec<ScenarioResult>)
    requires
        forall|i: int|
            0 <= i < scenarios@.len() ==> (#[trigger] scenarios@[i]).config.block_size >= 1,
        forall|j: int| 0 <= j < traces@.len() ==> 32 * (#[trigger] traces@[j]).entries@.len() <= u64::MAX,
    ensures
        r@.len() == scenarios@.len(),
        forall|i: int|
            0 <= i < r@.len() ==> {
                let res = #[trigger] r@[i];
                &&& res.label@ == scenarios@[i].label@
                &&& res.trace_results@.len() == traces@.len()
                &&& forall|j: int|
                    0 <= j < traces@.len() ==> {
                        let tr = #[trigger] res.trace_results@[j];
                        &&& tr.trace_name@ == traces@[j].name@
                        &&& tr.stats == sim_stats(scenarios@[i].config, traces@[j].entries@)
                    }
            },
{
    let mut results: Vec<ScenarioResult> = Vec::new();
    let mut i: usize = 0;
    while i < scenarios.len()
        invariant
            i <= scenarios@.len(),
            forall|k: int|
                0 <= k < scenarios@.len() ==> (#[trigger] scenarios@[k]).config.block_size >= 1,
            forall|j: int|
                0 <= j < traces@.len() ==> 32 * (#[trigger] traces@[j]).entries@.len() <= u64::MAX,
            results@.len() == i,
            forall|k: int|
                0 <= k < i ==> {
                    let res = #[trigger] results@[k];
                    &&& res.label@ == scenarios@[k].label@
                    &&& res.trace_results@.len() == traces@.len()
                    &&& forall|j: int|
                        0 <= j < traces@.len() ==> {
                            let tr = #[trigger] res.trace_results@[j];
                            &&& tr.trace_name@ == traces@[j].name@
                            &&& tr.stats == sim_stats(scenarios@[k].config, traces@[j].entries@)
                        }
                },
        decreases scenarios@.len() - i,
    {
        let scenario = &scenarios[i];
        let mut per_trace: Vec<TraceResult> = Vec::new();
        let mut j: usize = 0;
        while j < traces.len()
            invariant
                j <= traces@.len(),
                scenario == &scenarios@[i as int],
                i < scenarios@.len(),
                scenario.config.block_size >= 1,
                forall|jj: int|
                    0 <= jj < traces@.len() ==> 32 * (#[trigger] traces@[jj]).entries@.len()
                        <= u64::MAX,
                per_trace@.len() == j,
                forall|jj: int|
                    0 <= jj < j ==> {
                        let tr = #[trigger] per_trace@[jj];
                        &&& tr.trace_name@ == traces@[jj].name@
                        &&& tr.stats == sim_stats(scenario.config, traces@[jj].entries@)
                    },
            decreases traces@.len() - j,
        {
            let trace = &traces[j];
            let mut cache = Cache::new(scenario.config);
            let stats = cache.run_trace(trace.entries.as_slice());
            per_trace.push(TraceResult { trace_name: trace.name.clone(), stats });
            j = j + 1;
        }
        results.push(ScenarioResult { label: scenario.label.clone(), trace_results: per_trace });
        i = i + 1;
    }
    results
}

/// A direct-mapped variant of the base configuration: one way, no victim
/// buffer, no prediction.
pub fn direct_mapped(base: &CacheConfig) -> (r: ScenarioConfig)
    ensures
        r.label@ == "Direct-Mapped"@,
        r.config == (CacheConfig {
            associativity: 1,
            prediction: PredictionStrategy::Off,
            victim_cache_entries: 0,
            ..*base
        }),
{
    let mut cfg = *base;
    cfg.associativity = 1;
    cfg.prediction = PredictionStrategy::Off;
    cfg.victim_cache_entries = 0;
    ScenarioConfig { label: "Direct-Mapped".to_owned(), config: cfg }
}

/// Set-associative variants of the base configuration, one per way count,
/// without victim buffer or prediction.
pub fn set_associative(base: &CacheConfig, ways: &[usize]) -> (r: Vec<ScenarioConfig>)
    ensures
        r@.len() == ways@.len(),
        forall|i: int|
            0 <= i < r@.len() ==> {
                let sc = #[trigger] r@[i];
                &&& sc.label@ == sa_label(ways@[i] as int)
                &&& sc.config == (CacheConfig {
                    associativity: ways@[i],
                    prediction: PredictionStrategy::Off,
                    victim_cache_entries: 0,
                    ..*base
                })
            },
{
    let mut out: Vec<ScenarioConfig> = Vec::new();
    let mut i: usize = 0;
    while i < ways.len()
        invariant
            i <= ways@.len(),
            out@.len() == i,
            forall|k: int|
                0 <= k < i ==> {
                    let sc = #[trigger] out@[k];
                    &&& sc.label@ == sa_label(ways@[k] as int)
                    &&& sc.config == (CacheConfig {
                        associativity: ways@[k],
                        prediction: PredictionStrategy::Off,
                        victim_cache_entries: 0,
                        ..*base
                    })
                },
        decreases ways@.len() - i,
    {
        let assoc = ways[i];
        let mut cfg = *base;
        cfg.associativity = assoc;
        cfg.prediction = PredictionStrategy::Off;
        cfg.victim_cache_entries = 0;
        let mut label = dec_string(assoc as u64);
        label.append("-way SA");
        out.push(ScenarioConfig { label, config: cfg });
        i = i + 1;
    }
    out
}

/// Variants of the base configuration sweeping the block size.
pub fn block_sizes(base: &CacheConfig, blocks: &[usize]) -> (r: Vec<ScenarioConfig>)
    ensures
        r@.len() == blocks@.len(),
        forall|i: int|
            0 <= i < r@.len() ==> {
                let sc = #[trigger] r@[i];
                &&& sc.label@ == block_label(blocks@[i] as int)
                &&& sc.config == (CacheConfig { block_size: blocks@[i], ..*base })
            },
{
    let mut out: Vec<ScenarioConfig> = Vec::new();
    let mut i: usize = 0;
    while i < blocks.len()
        invariant
            i <= blocks@.len(),
            out@.len() == i,
            forall|k: int|
                0 <= k < i ==> {
                    let sc = #[trigger] out@[k];
                    &&& sc.label@ == block_label(blocks@[k] as int)
                    &&& sc.config == (CacheConfig { block_size: blocks@[k], ..*base })
                },
        decreases blocks@.len() - i,
    {
        let block = blocks[i];
        let mut cfg = *base;
        cfg.block_size = block;
        let mut label = "Block ".to_owned();
        let num = dec_string(block as u64);
        label.append(num.as_str());
        label.append("B");
        out.push(ScenarioConfig { label, config: cfg });
        i = i + 1;
    }
    out
}

/// Direct-mapped variants of the base configuration, one per victim-buffer
/// capacity.
pub fn victim_cache_configs(base: &CacheConfig, entries: &[usize]) -> (r: Vec<ScenarioConfig>)
    ensures
        r@.len() == entries@.len(),
        forall|i: int|
            0 <= i < r@.len() ==> {
                let sc = #[trigger] r@[i];
                &&& sc.label@ == victim_label(entries@[i] as int)
                &&& sc.config == (CacheConfig {
                    associativity: 1,
                    victim_cache_entries: entries@[i],
                    ..*base
                })
            },
{
    let mut out: Vec<ScenarioConfig> = Vec::new();
    let mut i: usize = 0;
    while i < entries.len()
        invariant
            i <= entries@.len(),
            out@.len() == i,
            forall|k: int|
                0 <= k < i ==> {
                    let sc = #[trigger] out@[k];
                    &&& sc.label@ == victim_label(entries@[k] as int)
                    &&& sc.config == (CacheConfig {
                        associativity: 1,
                        victim_cache_entries: entries@[k],
                        ..*base
                    })
                },
        decreases entries@.len() - i,
    {
        let size = entries[i];
        let mut cfg = *base;
        cfg.associativity = 1;
        cfg.victim_cache_entries = size;
        let mut label = "DM + Victim(".to_owned();
        let num = dec_string(size as u64);
        label.append(num.as_str());
        label.append(")");
        out.push(ScenarioConfig { label, config: cfg });
        i = i + 1;
    }
    out
}

/// Variants of the base configuration sweeping the way count under one
/// prediction strategy, without victim buffer.
pub fn predictor_configs(base: &CacheConfig, ways: &[usize], strategy: PredictionStrategy) -> (r:
    Vec<ScenarioConfig>)
    ensures
        r@.len() == ways@.len(),
        forall|i: int|
            0 <= i < r@.len() ==> {
                let sc = #[trigger] r@[i];
                &&& sc.label@ == predictor_label(strategy, ways@[i] as int)
                &&& sc.config == (CacheConfig {
                    associativity: ways@[i],
                    prediction: strategy,
                    victim_cache_entries: 0,
                    ..*base
                })
            },
{
    let mut out: Vec<ScenarioConfig> = Vec::new();
    let mut i: usize = 0;
    while i < ways.len()
        invariant
            i <= ways@.len(),
            out@.len() == i,
            forall|k: int|
                0 <= k < i ==> {
                    let sc = #[trigger] out@[k];
                    &&& sc.label@ == predictor_label(strategy, ways@[k] as int)
                    &&& sc.config == (CacheConfig {
                        associativity: ways@[k],
                        prediction: strategy,
                        victim_cache_entries: 0,
                        ..*base
                    })
                },
        decreases ways@.len() - i,
    {
        let assoc = ways[i];
        let mut cfg = *base;
        cfg.associativity = assoc;
        cfg.prediction = strategy;
        cfg.victim_cache_entries = 0;
        let mut label = match strategy {
            PredictionStrategy::Off => "No-Predict".to_owned(),
            PredictionStrategy::Mru => "MRU".to_owned(),
            PredictionStrategy::MultiColumn => "Multi-Column".to_owned(),
        };
        label.append(" ");
        let num = dec_string(assoc as u64);
        label.append(num.as_str());
        label.append("-way");
        out.push(ScenarioConfig { label, config: cfg });
        i = i + 1;
    }
    out
}

} // verus!
