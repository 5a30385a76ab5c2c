//! Well-formedness of the model state: address coherence of resident and
//! buffered lines, per-set distinctness of blocks, and the multi-column
//! bit-vector consistency, all shown to be preserved by every step.

use vstd::prelude::*;
use crate::config::CacheConfig;
use crate::config::spec_num_sets;
use crate::config::spec_ways;
use crate::config::lemma_geometry;
use crate::line::CacheLine;
use crate::model::SimState;
use crate::model::find_empty_from;
use crate::model::find_hit_from;
use crate::model::init_state;
use crate::model::install_spec;
use crate::model::line_of;
use crate::model::mc_victim_prefix;
use crate::model::oldest_prefix;
use crate::model::run_model;
use crate::model::set_of;
use crate::model::spec_block_address;
use crate::model::spec_set_index;
use crate::model::spec_tag;
use crate::model::step;
use crate::model::lemma_find_empty_none;
use crate::model::lemma_find_empty_some;
use crate::model::lemma_find_hit_none;
use crate::model::lemma_find_hit_some;
use crate::predictor::bit_set;
use crate::predictor::lemma_bit_and_not;
use crate::predictor::lemma_bit_or;
use crate::predictor::spec_clear;
use crate::predictor::spec_column;
use crate::predictor::spec_column_count;
use crate::predictor::spec_mark;
use crate::stats::CacheStats;
use crate::trace::TraceAccess;
use crate::victim::vb_find_from;
use crate::victim::vb_insert_spec;
use crate::victim::vb_oldest_prefix;
use vstd::arithmetic::div_mod::lemma_fundamental_div_mod;
use vstd::arithmetic::div_mod::lemma_fundamental_div_mod_converse;

verus! {

/// A line's block address decomposes back to the set it sits in and to the
/// tag it carries.
pub open spec fn line_coherent(cfg: CacheConfig, l: CacheLine, si: int) -> bool {
    &&& l.block_address as int % spec_num_sets(cfg) == si
    &&& l.tag == l.block_address as int / spec_num_sets(cfg)
}

/// The slot of way `w` of set `si` in the flat arena.
pub open spec fn slot_at(cfg: CacheConfig, st: SimState, si: int, w: int) -> Option<CacheLine> {
    st.sets[si * spec_ways(cfg) + w]
}

/// The bit-vector of the (set, column) pair.
pub open spec fn bits_at(cfg: CacheConfig, st: SimState, si: int, c: int) -> u32 {
    st.bits[si * spec_column_count(spec_ways(cfg)) + c]
}

/// Every resident line is coherent with the set it sits in.
pub open spec fn sets_coherent(cfg: CacheConfig, sets: Seq<Option<CacheLine>>) -> bool {
    forall|i: int|
        0 <= i < sets.len() && (#[trigger] sets[i]) is Some ==> line_coherent(
            cfg,
            line_of(sets[i]),
            i / spec_ways(cfg),
        )
}

/// No two resident lines of one set cover the same block (equivalently,
/// among valid lines of a set, tags are pairwise distinct).
pub open spec fn sets_distinct(cfg: CacheConfig, sets: Seq<Option<CacheLine>>) -> bool {
    forall|i: int, j: int|
        #![trigger sets[i], sets[j]]
        0 <= i < j < sets.len() && i / spec_ways(cfg) == j / spec_ways(cfg) && sets[i] is Some
            && sets[j] is Some ==> line_of(sets[i]).block_address != line_of(
            sets[j],
        ).block_address
}

/// Way `w` of set `si` holds a resident line of column `c`.
pub open spec fn column_tracks(cfg: CacheConfig, st: SimState, si: int, c: int, w: int) -> bool {
    &&& w < spec_ways(cfg)
    &&& slot_at(cfg, st, si, w) is Some
    &&& spec_column(
        line_of(slot_at(cfg, st, si, w)).block_address,
        spec_num_sets(cfg),
        spec_column_count(spec_ways(cfg)),
    ) == c
}

/// The multi-column invariant: bit `w` of the vector of (set, column) is
/// set exactly when way `w` of that set currently holds a line of that
/// column. Every hit and every successful install mark the resident way's
/// bit, and every eviction clears the evicted way's bit, so the marks
/// track install and evict transitions with no lag or duplication.
pub open spec fn mc_consistent(cfg: CacheConfig, st: SimState) -> bool {
    forall|si: int, c: int, w: int|
        #![trigger bit_set(bits_at(cfg, st, si, c), w)]
        #![trigger column_tracks(cfg, st, si, c, w)]
        0 <= si < spec_num_sets(cfg) && 0 <= c < spec_column_count(spec_ways(cfg)) && 0 <= w < 32
            ==> (bit_set(bits_at(cfg, st, si, c), w) <==> column_tracks(cfg, st, si, c, w))
}

/// Every entry of the victim buffer carries the tag of its own block.
pub open spec fn victim_coherent(cfg: CacheConfig, victim: Seq<CacheLine>) -> bool {
    forall|k: int|
        0 <= k < victim.len() ==> (#[trigger] victim[k]).tag == victim[k].block_address as int
            / spec_num_sets(cfg)
}

/// Everything a reachable engine state keeps true between accesses.
pub open spec fn state_wf(cfg: CacheConfig, st: SimState) -> bool {
    &&& st.sets.len() == spec_num_sets(cfg) * spec_ways(cfg)
    &&& st.victim.len() <= cfg.victim_cache_entries
    &&& (cfg.victim_cache_entries == 0 ==> st.victim.len() == 0)
    &&& st.bits.len() == if cfg.prediction is MultiColumn {
        spec_num_sets(cfg) * spec_column_count(spec_ways(cfg))
    } else {
        0int
    }
    &&& sets_coherent(cfg, st.sets)
    &&& sets_distinct(cfg, st.sets)
    &&& victim_coherent(cfg, st.victim)
    &&& (cfg.prediction is MultiColumn ==> mc_consistent(cfg, st))
}

/// The flat arena index of (set, way) decomposes back to set and way.
pub proof fn lemma_flat(ways: int, si: int, w: int)
    requires
        ways >= 1,
        0 <= w < ways,
        0 <= si,
    ensures
        (si * ways + w) / ways == si,
        (si * ways + w) % ways == w,
        si * ways + w >= 0,
{
    vstd::arithmetic::mul::lemma_mul_nonnegative(si, ways);
    lemma_fundamental_div_mod_converse(si * ways + w, ways, si, w);
}

/// Distinct (set, way) pairs live at distinct arena indices.
pub proof fn lemma_grid_distinct(ways: int, si1: int, w1: int, si2: int, w2: int)
    requires
        ways >= 1,
        0 <= w1 < ways,
        0 <= w2 < ways,
        0 <= si1,
        0 <= si2,
        !(si1 == si2 && w1 == w2),
    ensures
        si1 * ways + w1 != si2 * ways + w2,
{
    lemma_flat(ways, si1, w1);
    lemma_flat(ways, si2, w2);
}

/// Indices of one set stay below the arena bound.
pub proof fn lemma_set_range(cfg: CacheConfig, si: int)
    requires
        cfg.block_size >= 1,
        0 <= si < spec_num_sets(cfg),
    ensures
        0 <= si * spec_ways(cfg),
        si * spec_ways(cfg) + spec_ways(cfg) <= spec_num_sets(cfg) * spec_ways(cfg),
        si * spec_column_count(spec_ways(cfg)) + spec_column_count(spec_ways(cfg))
            <= spec_num_sets(cfg) * spec_column_count(spec_ways(cfg)),
        0 <= si * spec_column_count(spec_ways(cfg)),
{
    let ws = spec_ways(cfg);
    let ns = spec_num_sets(cfg);
    let cols = spec_column_count(ws);
    assert(0 <= si * ws && si * ws + ws <= ns * ws && 0 <= si * cols && si * cols + cols <= ns
        * cols) by (nonlinear_arith)
        requires
            0 <= si < ns,
            ws >= 1,
            cols >= 1,
    ;
}

/// Two block addresses with the same set index and the same tag are equal.
pub proof fn lemma_same_decomposition(ns: int, b1: int, b2: int)
    requires
        ns >= 1,
        b1 % ns == b2 % ns,
        b1 / ns == b2 / ns,
    ensures
        b1 == b2,
{
    lemma_fundamental_div_mod(b1, ns);
    lemma_fundamental_div_mod(b2, ns);
}

/// The policies pick a way inside the set.
pub proof fn lemma_oldest_prefix_bounds(set: Seq<Option<CacheLine>>, n: int)
    requires
        1 <= n <= set.len(),
    ensures
        0 <= oldest_prefix(set, n) < n,
    decreases n,
{
    if n > 1 {
        lemma_oldest_prefix_bounds(set, n - 1);
    }
}

/// The multi-column policy also picks a way inside the set.
pub proof fn lemma_mc_victim_bounds(
    bits: Seq<u32>,
    num_sets: int,
    columns: int,
    si: int,
    set: Seq<Option<CacheLine>>,
    n: int,
)
    requires
        1 <= n <= set.len(),
    ensures
        0 <= mc_victim_prefix(bits, num_sets, columns, si, set, n) < n,
    decreases n,
{
    if n > 1 {
        lemma_mc_victim_bounds(bits, num_sets, columns, si, set, n - 1);
    }
}

/// A successful victim-buffer search returns an entry covering the block.
pub proof fn lemma_vb_find_some(entries: Seq<CacheLine>, block: u64, i: int, j: int)
    requires
        0 <= i,
        vb_find_from(entries, block, i) == Option::Some(j),
    ensures
        i <= j < entries.len(),
        entries[j].block_address == block,
    decreases entries.len() - i,
{
    if entries[i].block_address != block {
        lemma_vb_find_some(entries, block, i + 1, j);
    }
}

/// The victim buffer's own eviction picks an entry inside the buffer.
pub proof fn lemma_vb_oldest_bounds(entries: Seq<CacheLine>, n: int)
    requires
        1 <= n <= entries.len(),
    ensures
        0 <= vb_oldest_prefix(entries, n) < n,
    decreases n,
{
    if n > 1 {
        lemma_vb_oldest_bounds(entries, n - 1);
    }
}

/// Offering a coherent line to a coherent buffer keeps it coherent and
/// within its capacity.
pub proof fn lemma_vb_insert_wf(
    cfg: CacheConfig,
    entries: Seq<CacheLine>,
    line: CacheLine,
    stamp: u64,
)
    requires
        entries.len() <= cfg.victim_cache_entries,
        victim_coherent(cfg, entries),
        line.tag == line.block_address as int / spec_num_sets(cfg),
    ensures
        vb_insert_spec(entries, cfg.victim_cache_entries as int, line, stamp).len()
            <= cfg.victim_cache_entries,
        victim_coherent(cfg, vb_insert_spec(entries, cfg.victim_cache_entries as int, line, stamp)),
        cfg.victim_cache_entries == 0 ==> vb_insert_spec(
            entries,
            cfg.victim_cache_entries as int,
            line,
            stamp,
        ) == entries,
{
    let cap = cfg.victim_cache_entries as int;
    if cap != 0 {
        let stamped = CacheLine { stamp, ..line };
        if entries.len() == cap {
            let victim = vb_oldest_prefix(entries, entries.len() as int);
            lemma_vb_oldest_bounds(entries, entries.len() as int);
            entries.remove_ensures(victim);
            let out = entries.remove(victim).push(stamped);
            assert forall|k: int| 0 <= k < out.len() implies (#[trigger] out[k]).tag
                == out[k].block_address as int / spec_num_sets(cfg) by {
                if k < out.len() - 1 {
                    assert(out[k] == entries.remove(victim)[k]);
                }
            }
        }
    }
}

/// Replacing the slot of (set, way) — first clearing the predictor bit of
/// an evicted line, if any, then marking the newcomer's own bit — keeps
/// the bit-vector table consistent. When nothing is cleared, the old slot
/// was either empty or held a line of the very column being marked.
pub proof fn lemma_mc_update(
    cfg: CacheConfig,
    st: SimState,
    st2: SimState,
    si: int,
    way: int,
    cleared: Option<CacheLine>,
)
    requires
        cfg.block_size >= 1,
        cfg.prediction is MultiColumn,
        st.sets.len() == spec_num_sets(cfg) * spec_ways(cfg),
        st.bits.len() == spec_num_sets(cfg) * spec_column_count(spec_ways(cfg)),
        mc_consistent(cfg, st),
        0 <= si < spec_num_sets(cfg),
        0 <= way < spec_ways(cfg),
        st2.sets.len() == st.sets.len(),
        ({
            let nl = line_of(st2.sets[si * spec_ways(cfg) + way]);
            let bits_mid = match cleared {
                Option::Some(ev) => spec_clear(
                    st.bits,
                    spec_num_sets(cfg),
                    spec_column_count(spec_ways(cfg)),
                    si,
                    ev.block_address,
                    way,
                ),
                Option::None => st.bits,
            };
            &&& st2.sets[si * spec_ways(cfg) + way] is Some
            &&& st2.sets == st.sets.update(si * spec_ways(cfg) + way, Option::Some(nl))
            &&& line_coherent(cfg, nl, si)
            &&& st2.bits == spec_mark(
                bits_mid,
                spec_num_sets(cfg),
                spec_column_count(spec_ways(cfg)),
                si,
                nl.block_address,
                way,
            )
            &&& match cleared {
                Option::Some(ev) => st.sets[si * spec_ways(cfg) + way] == Option::Some(ev)
                    && line_coherent(cfg, ev, si),
                Option::None => st.sets[si * spec_ways(cfg) + way] is None || (st.sets[si
                    * spec_ways(cfg) + way] is Some && spec_column(
                    line_of(st.sets[si * spec_ways(cfg) + way]).block_address,
                    spec_num_sets(cfg),
                    spec_column_count(spec_ways(cfg)),
                ) == spec_column(
                    nl.block_address,
                    spec_num_sets(cfg),
                    spec_column_count(spec_ways(cfg)),
                )),
            }
        }),
    ensures
        mc_consistent(cfg, st2),
        st2.bits.len() == st.bits.len(),
{
    lemma_geometry(cfg);
    let ns = spec_num_sets(cfg);
    let ws = spec_ways(cfg);
    let cols = spec_column_count(ws);
    let idx = si * ws + way;
    let nl = line_of(st2.sets[idx]);
    let c_m = spec_column(nl.block_address, ns, cols);
    lemma_set_range(cfg, si);
    lemma_flat(ws, si, way);
    assert(0 <= c_m < cols);
    let bits_mid = match cleared {
        Option::Some(ev) => spec_clear(st.bits, ns, cols, si, ev.block_address, way),
        Option::None => st.bits,
    };
    assert forall|si2: int, c2: int, w2: int|
        0 <= si2 < ns && 0 <= c2 < cols && 0 <= w2 < 32 implies (#[trigger] bit_set(
        bits_at(cfg, st2, si2, c2),
        w2,
    ) <==> column_tracks(cfg, st2, si2, c2, w2)) by {
        lemma_set_range(cfg, si2);
        assert(bit_set(bits_at(cfg, st, si2, c2), w2) <==> column_tracks(cfg, st, si2, c2, w2));
        // How this (set, column) word changed.
        let word_old = bits_at(cfg, st, si2, c2);
        let word_new = bits_at(cfg, st2, si2, c2);
        if si2 != si {
            lemma_grid_distinct(cols, si2, c2, si, c_m);
            if cleared is Some {
                let c_e = spec_column(line_of(st.sets[idx]).block_address, ns, cols);
                lemma_grid_distinct(cols, si2, c2, si, c_e);
            }
            assert(word_new == word_old);
            if w2 < ws {
                lemma_grid_distinct(ws, si2, w2, si, way);
                assert(slot_at(cfg, st2, si2, w2) == slot_at(cfg, st, si2, w2));
            }
        } else {
            // Same set: the slot of `way` was replaced, others are
            // untouched; the words of the cleared and marked columns each
            // changed in the bit of `way` alone.
            if w2 != way && w2 < ws {
                lemma_grid_distinct(ws, si2, w2, si, way);
                assert(slot_at(cfg, st2, si2, w2) == slot_at(cfg, st, si2, w2));
            }
            if way < 32 {
                match cleared {
                    Option::Some(ev) => {
                        let c_e = spec_column(ev.block_address, ns, cols);
                        assert(0 <= c_e < cols);
                        if c2 == c_e {
                            lemma_bit_and_not(st.bits[si * cols + c_e], way as u32, w2 as u32);
                        } else {
                            lemma_grid_distinct(cols, si2, c2, si, c_e);
                        }
                    },
                    Option::None => {},
                }
                if c2 == c_m {
                    lemma_bit_or(bits_mid[si * cols + c_m], way as u32, w2 as u32);
                } else {
                    lemma_grid_distinct(cols, si2, c2, si, c_m);
                }
            }
        }
    }
}

/// Installing a line whose block is absent from its (coherent, distinct)
/// set keeps the arena coherent and distinct; the installed line keeps the
/// newcomer's identity and flags, and an eviction yields the replaced
/// line.
pub proof fn lemma_install_wf(cfg: CacheConfig, st: SimState, si: int, line: CacheLine)
    requires
        cfg.block_size >= 1,
        st.sets.len() == spec_num_sets(cfg) * spec_ways(cfg),
        sets_coherent(cfg, st.sets),
        sets_distinct(cfg, st.sets),
        0 <= si < spec_num_sets(cfg),
        line_coherent(cfg, line, si),
        forall|w: int|
            0 <= w < spec_ways(cfg) && (#[trigger] set_of(st, cfg, si)[w]) is Some ==> line_of(
                set_of(st, cfg, si)[w],
            ).block_address != line.block_address,
    ensures
        ({
            let (way, ev, sets2) = install_spec(cfg, st, si, line);
            let installed = line_of(sets2[si * spec_ways(cfg) + way]);
            &&& 0 <= way < spec_ways(cfg)
            &&& sets2 == st.sets.update(si * spec_ways(cfg) + way, Option::Some(installed))
            &&& installed.block_address == line.block_address
            &&& installed.tag == line.tag
            &&& installed.first_touch_pending == line.first_touch_pending
            &&& installed.dirty == line.dirty
            &&& sets_coherent(cfg, sets2)
            &&& sets_distinct(cfg, sets2)
            &&& match ev {
                Option::Some(e) => slot_at(cfg, st, si, way) == Option::Some(e),
                Option::None => slot_at(cfg, st, si, way) is None,
            }
        }),
{
    lemma_geometry(cfg);
    let ws = spec_ways(cfg);
    let ns = spec_num_sets(cfg);
    let base = si * ws;
    let set = set_of(st, cfg, si);
    lemma_set_range(cfg, si);
    let (way, ev, sets2) = install_spec(cfg, st, si, line);
    match find_empty_from(set, 0) {
        Option::Some(e) => {
            lemma_find_empty_some(set, 0, e);
        },
        Option::None => {
            lemma_find_empty_none(set, 0);
            if cfg.prediction is MultiColumn {
                lemma_mc_victim_bounds(
                    st.bits,
                    ns,
                    spec_column_count(ws),
                    si,
                    set,
                    set.len() as int,
                );
            } else {
                lemma_oldest_prefix_bounds(set, set.len() as int);
            }
        },
    }
    lemma_flat(ws, si, way);
    let installed = line_of(sets2[base + way]);
    assert(sets2 == st.sets.update(base + way, Option::Some(installed)));
    assert forall|i: int|
        0 <= i < sets2.len() && (#[trigger] sets2[i]) is Some implies line_coherent(
        cfg,
        line_of(sets2[i]),
        i / ws,
    ) by {
        if i != base + way {
            assert(sets2[i] == st.sets[i]);
        }
    }
    assert forall|i: int, j: int|
        #![trigger sets2[i], sets2[j]]
        0 <= i < j < sets2.len() && i / ws == j / ws && sets2[i] is Some
            && sets2[j] is Some implies line_of(sets2[i]).block_address != line_of(
        sets2[j],
    ).block_address by {
        if i == base + way || j == base + way {
            let other = if i == base + way {
                j
            } else {
                i
            };
            assert(sets2[other] == st.sets[other]);
            let ow = other % ws;
            vstd::arithmetic::div_mod::lemma_fundamental_div_mod(other, ws);
            lemma_flat(ws, si, way);
            assert(0 <= ow < ws);
            assert(other / ws == si);
            assert(other == ws * si + ow);
            assert(si * ws == ws * si) by (nonlinear_arith);
            assert(set[ow] == st.sets[si * ws + ow]);
            assert(line_of(set[ow]).block_address != line.block_address);
        } else {
            assert(sets2[i] == st.sets[i]);
            assert(sets2[j] == st.sets[j]);
        }
    }
}

/// Replacing a resident line by one covering the same block (a stamp or
/// flag refresh) keeps the arena coherent and distinct.
pub proof fn lemma_update_same_block(
    cfg: CacheConfig,
    sets: Seq<Option<CacheLine>>,
    idx: int,
    nl: CacheLine,
)
    requires
        sets_coherent(cfg, sets),
        sets_distinct(cfg, sets),
        0 <= idx < sets.len(),
        sets[idx] is Some,
        nl.block_address == line_of(sets[idx]).block_address,
        nl.tag == line_of(sets[idx]).tag,
    ensures
        sets_coherent(cfg, sets.update(idx, Option::Some(nl))),
        sets_distinct(cfg, sets.update(idx, Option::Some(nl))),
{
    let s2 = sets.update(idx, Option::Some(nl));
    assert forall|i: int|
        0 <= i < s2.len() && (#[trigger] s2[i]) is Some implies line_coherent(
        cfg,
        line_of(s2[i]),
        i / spec_ways(cfg),
    ) by {
        if i != idx {
            assert(s2[i] == sets[i]);
        }
    }
    assert forall|i: int, j: int|
        #![trigger s2[i], s2[j]]
        0 <= i < j < s2.len() && i / spec_ways(cfg) == j / spec_ways(cfg) && s2[i] is Some
            && s2[j] is Some implies line_of(s2[i]).block_address != line_of(
        s2[j],
    ).block_address by {
        if i != idx {
            assert(s2[i] == sets[i]);
        }
        if j != idx {
            assert(s2[j] == sets[j]);
        }
    }
}

/// One step of the model preserves every well-formedness relation.
pub proof fn lemma_step_wf(cfg: CacheConfig, st: SimState, stats: CacheStats, a: TraceAccess)
    requires
        cfg.block_size >= 1,
        state_wf(cfg, st),
    ensures
        state_wf(cfg, step(cfg, st, stats, a).0),
{
    lemma_geometry(cfg);
    let ns = spec_num_sets(cfg);
    let ws = spec_ways(cfg);
    let cols = spec_column_count(ws);
    let cap = cfg.victim_cache_entries as int;
    let block = spec_block_address(cfg, a.address);
    let si = spec_set_index(cfg, block);
    let tag64 = spec_tag(cfg, block) as u64;
    let base = si * ws;
    let set = set_of(st, cfg, si);
    let st2 = step(cfg, st, stats, a).0;
    assert(block >= 0) by {
        vstd::arithmetic::div_mod::lemma_div_pos_is_pos(a.address as int, cfg.block_size as int);
    }
    assert(block <= a.address) by {
        vstd::arithmetic::div_mod::lemma_div_nonincreasing(a.address as int, cfg.block_size as int);
    }
    assert(0 <= si < ns);
    assert(0 <= spec_tag(cfg, block) <= block) by {
        vstd::arithmetic::div_mod::lemma_div_pos_is_pos(block, ns);
        vstd::arithmetic::div_mod::lemma_div_nonincreasing(block, ns);
    }
    assert(tag64 as int == spec_tag(cfg, block));
    assert(block as u64 as int == block);
    lemma_set_range(cfg, si);
    match find_hit_from(set, tag64, 0) {
        Option::Some(w) => {
            lemma_find_hit_some(set, tag64, 0, w);
            assert(set[w] == st.sets[base + w]);
            lemma_flat(ws, si, w);
            let l = line_of(set[w]);
            assert(line_coherent(cfg, l, si));
            assert(l.block_address as int == block) by {
                lemma_same_decomposition(ns, l.block_address as int, block);
            }
            let nl = line_of(st2.sets[base + w]);
            assert(st2.sets == st.sets.update(base + w, Option::Some(nl)));
            lemma_update_same_block(cfg, st.sets, base + w, nl);
            if cfg.prediction is MultiColumn {
                lemma_mc_update(cfg, st, st2, si, w, Option::None);
            }
        },
        Option::None => {
            lemma_find_hit_none(set, tag64, 0);
            assert forall|w: int|
                0 <= w < ws && (#[trigger] set[w]) is Some implies line_of(set[w]).block_address
                != block as u64 by {
                assert(set[w] == st.sets[base + w]);
                lemma_flat(ws, si, w);
                let lw = line_of(set[w]);
                assert(line_coherent(cfg, lw, si));
                if lw.block_address == block as u64 {
                    assert(lw.tag == tag64);
                    assert(false);
                }
            }
            let found = if cap == 0 {
                Option::None
            } else {
                vb_find_from(st.victim, block as u64, 0)
            };
            match found {
                Option::Some(j) => {
                    lemma_vb_find_some(st.victim, block as u64, 0, j);
                    let rec0 = st.victim[j];
                    let rec = CacheLine { stamp: st.next_stamp, ..rec0 };
                    let st1 = SimState { victim: st.victim.remove(j), ..st };
                    st.victim.remove_ensures(j);
                    assert(victim_coherent(cfg, st1.victim)) by {
                        assert forall|k: int|
                            0 <= k < st1.victim.len() implies (#[trigger] st1.victim[k]).tag
                            == st1.victim[k].block_address as int / ns by {
                            if k < j {
                                assert(st1.victim[k] == st.victim[k]);
                            } else {
                                assert(st1.victim[k] == st.victim[k + 1]);
                            }
                        }
                    }
                    assert(line_coherent(cfg, rec, si));
                    assert(set_of(st1, cfg, si) == set);
                    lemma_install_wf(cfg, st1, si, rec);
                    let (way, ev, sets2) = install_spec(cfg, st1, si, rec);
                    let installed = line_of(sets2[base + way]);
                    let nl = line_of(st2.sets[base + way]);
                    assert(st2.sets =~= st.sets.update(base + way, Option::Some(nl)));
                    assert(sets2 == st.sets.update(base + way, Option::Some(installed)));
                    lemma_update_same_block(cfg, sets2, base + way, nl);
                    assert(sets2.update(base + way, Option::Some(nl)) =~= st2.sets);
                    match ev {
                        Option::Some(e) => {
                            assert(line_coherent(cfg, e, si));
                            lemma_vb_insert_wf(cfg, st1.victim, e, st.next_stamp);
                        },
                        Option::None => {},
                    }
                    if cfg.prediction is MultiColumn {
                        lemma_mc_update(cfg, st, st2, si, way, ev);
                    }
                },
                Option::None => {
                    let fresh = CacheLine {
                        tag: tag64,
                        block_address: block as u64,
                        stamp: st.next_stamp,
                        dirty: false,
                        first_touch_pending: true,
                    };
                    assert(line_coherent(cfg, fresh, si));
                    lemma_install_wf(cfg, st, si, fresh);
                    let (way, ev, sets2) = install_spec(cfg, st, si, fresh);
                    match ev {
                        Option::Some(e) => {
                            assert(line_coherent(cfg, e, si));
                            lemma_vb_insert_wf(cfg, st.victim, e, st.next_stamp);
                        },
                        Option::None => {},
                    }
                    if cfg.prediction is MultiColumn {
                        lemma_mc_update(cfg, st, st2, si, way, ev);
                    }
                },
            }
        },
    }
}

/// Replaying any trace from a well-formed state ends in a well-formed
/// state.
pub proof fn lemma_run_wf(
    cfg: CacheConfig,
    st: SimState,
    stats: CacheStats,
    trace: Seq<TraceAccess>,
)
    requires
        cfg.block_size >= 1,
        state_wf(cfg, st),
    ensures
        state_wf(cfg, run_model(cfg, st, stats, trace).0),
    decreases trace.len(),
{
    if trace.len() > 0 {
        lemma_run_wf(cfg, st, stats, trace.drop_last());
        let prev = run_model(cfg, st, stats, trace.drop_last());
        lemma_step_wf(cfg, prev.0, prev.1, trace.last());
    }
}

/// A freshly constructed engine is well formed.
pub proof fn lemma_init_wf(cfg: CacheConfig)
    requires
        cfg.block_size >= 1,
    ensures
        state_wf(cfg, init_state(cfg)),
{
    lemma_geometry(cfg);
    let st = init_state(cfg);
    assert(forall|w: u32| w < 32 ==> (0u32 >> w) & 1 == 0) by (bit_vector);
    if cfg.prediction is MultiColumn {
        assert forall|si: int, c: int, w: int|
            0 <= si < spec_num_sets(cfg) && 0 <= c < spec_column_count(spec_ways(cfg)) && 0 <= w
            < 32 implies (#[trigger] bit_set(bits_at(cfg, st, si, c), w) <==> column_tracks(
            cfg,
            st,
            si,
            c,
            w,
        )) by {
            lemma_set_range(cfg, si);
            assert(bits_at(cfg, st, si, c) == 0u32);
            assert(!bit_set(0u32, w));
            if 0 <= w < spec_ways(cfg) {
                lemma_flat(spec_ways(cfg), si, w);
                assert(slot_at(cfg, st, si, w) is None);
            }
        }
    }
}

} // verus!
