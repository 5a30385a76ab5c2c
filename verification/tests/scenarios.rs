use cache_sim::config::{CacheConfig, PredictionStrategy};
use cache_sim::experiments::{
    block_sizes, direct_mapped, predictor_configs, run_scenarios, set_associative,
    victim_cache_configs, ScenarioConfig,
};
use cache_sim::trace::{AccessKind, TraceAccess};

fn base() -> CacheConfig {
    CacheConfig {
        cache_size: 64,
        block_size: 8,
        associativity: 2,
        victim_cache_entries: 0,
        prediction: PredictionStrategy::Off,
    }
}

#[test]
fn direct_mapped_scenario() {
    let sc = direct_mapped(&base());
    assert_eq!(sc.label, "Direct-Mapped");
    assert_eq!(sc.config.associativity, 1);
    assert_eq!(sc.config.victim_cache_entries, 0);
    assert_eq!(sc.config.prediction, PredictionStrategy::Off);
    assert_eq!(sc.config.cache_size, 64);
}

#[test]
fn set_associative_scenarios() {
    let scs = set_associative(&base(), &[2, 4, 16]);
    assert_eq!(scs.len(), 3);
    assert_eq!(scs[0].label, "2-way SA");
    assert_eq!(scs[2].label, "16-way SA");
    assert_eq!(scs[1].config.associativity, 4);
    assert_eq!(scs[1].config.prediction, PredictionStrategy::Off);
}

#[test]
fn block_size_scenarios() {
    let scs = block_sizes(&base(), &[8, 128]);
    assert_eq!(scs.len(), 2);
    assert_eq!(scs[0].label, "Block 8B");
    assert_eq!(scs[1].label, "Block 128B");
    assert_eq!(scs[1].config.block_size, 128);
    assert_eq!(scs[1].config.associativity, 2);
}

#[test]
fn victim_cache_scenarios() {
    let scs = victim_cache_configs(&base(), &[4, 32]);
    assert_eq!(scs.len(), 2);
    assert_eq!(scs[0].label, "DM + Victim(4)");
    assert_eq!(scs[1].label, "DM + Victim(32)");
    assert_eq!(scs[0].config.associativity, 1);
    assert_eq!(scs[0].config.victim_cache_entries, 4);
}

#[test]
fn predictor_scenarios() {
    let mru = predictor_configs(&base(), &[4], PredictionStrategy::Mru);
    assert_eq!(mru[0].label, "MRU 4-way");
    assert_eq!(mru[0].config.prediction, PredictionStrategy::Mru);
    assert_eq!(mru[0].config.associativity, 4);
    let mc = predictor_configs(&base(), &[8], PredictionStrategy::MultiColumn);
    assert_eq!(mc[0].label, "Multi-Column 8-way");
    let off = predictor_configs(&base(), &[2], PredictionStrategy::Off);
    assert_eq!(off[0].label, "No-Predict 2-way");
}

#[test]
fn run_scenarios_reports_per_trace_stats() {
    let entries: Vec<TraceAccess> = [0u64, 8, 16, 24, 0]
        .iter()
        .map(|&address| TraceAccess { kind: AccessKind::Read, address })
        .collect();
    let traces = vec![cache_sim::trace::TraceFile { name: "toy".to_string(), entries }];
    let scenarios: Vec<ScenarioConfig> = vec![direct_mapped(&base())];
    let results = run_scenarios(&traces, &scenarios);
    assert_eq!(results.len(), 1);
    assert_eq!(results[0].label, "Direct-Mapped");
    assert_eq!(results[0].trace_results.len(), 1);
    let tr = &results[0].trace_results[0];
    assert_eq!(tr.trace_name, "toy");
    assert_eq!(tr.stats.accesses, 5);
    assert_eq!(tr.stats.hits, 1);
    assert_eq!(tr.stats.misses, 4);
}
