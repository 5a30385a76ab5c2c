//! The multi-column way predictor: one 32-bit vector per (set, column)
//! pair, where bit `w` records that way `w` of the set currently holds a
//! line belonging to that column.

use vstd::prelude::*;

verus! {

/// Whether bit `w` of `x` is set; bits outside 0..32 read as clear.
pub open spec fn bit_set(x: u32, w: int) -> bool {
    0 <= w < 32 && (x >> (w as u32)) & 1 == 1
}

/// How many of the bits of `x` strictly below position `n` are set.
pub open spec fn count_bits_below(x: u32, n: int) -> nat
    decreases n,
{
    if n <= 0 {
        0
    } else {
        count_bits_below(x, n - 1) + (if bit_set(x, n - 1) {
            1nat
        } else {
            0nat
        })
    }
}

/// The number of set bits of `x`.
pub open spec fn popcount(x: u32) -> nat {
    count_bits_below(x, 32)
}

/// How many prediction columns a cache with `ways` ways uses.
pub open spec fn spec_column_count(ways: int) -> int {
    if ways <= 1 {
        1
    } else if ways <= 4 {
        2
    } else if ways <= 8 {
        4
    } else {
        8
    }
}

/// The column a block address falls into: its tag reduced modulo the
/// column count (always column 0 when there is a single column).
pub open spec fn spec_column(block: u64, num_sets: int, columns: int) -> int
    recommends
        num_sets >= 1,
        columns >= 1,
{
    if columns == 1 {
        0
    } else {
        (block as int / num_sets) % columns
    }
}

/// The bit-vector of the (set, column) pair that `block` selects.
pub open spec fn spec_observe(
    bits: Seq<u32>,
    num_sets: int,
    columns: int,
    set_index: int,
    block: u64,
) -> u32
    recommends
        num_sets >= 1,
        columns >= 1,
        0 <= set_index < num_sets,
        bits.len() == num_sets * columns,
{
    bits[set_index * columns + spec_column(block, num_sets, columns)]
}

/// The table after setting bit `way` in the vector that `block` selects;
/// ways beyond the vector width leave the table unchanged.
pub open spec fn spec_mark(
    bits: Seq<u32>,
    num_sets: int,
    columns: int,
    set_index: int,
    block: u64,
    way: int,
) -> Seq<u32> {
    if way >= 32 {
        bits
    } else {
        let idx = set_index * columns + spec_column(block, num_sets, columns);
        bits.update(idx, bits[idx] | (1u32 << way as u32))
    }
}

/// The table after clearing bit `way` in the vector that `block` selects.
pub open spec fn spec_clear(
    bits: Seq<u32>,
    num_sets: int,
    columns: int,
    set_index: int,
    block: u64,
    way: int,
) -> Seq<u32> {
    if way >= 32 {
        bits
    } else {
        let idx = set_index * columns + spec_column(block, num_sets, columns);
        bits.update(idx, bits[idx] & !(1u32 << way as u32))
    }
}

/// Setting bit `w` touches exactly that bit.
pub proof fn lemma_bit_or(x: u32, w: u32, i: u32)
    requires
        w < 32,
        i < 32,
    ensures
        bit_set(x | (1u32 << w), i as int) == (bit_set(x, i as int) || i == w),
{
    assert((((x | (1u32 << w)) >> i) & 1 == 1) == (((x >> i) & 1 == 1) || i == w))
        by (bit_vector)
        requires
            w < 32,
            i < 32,
    ;
}

/// Clearing bit `w` touches exactly that bit.
pub proof fn lemma_bit_and_not(x: u32, w: u32, i: u32)
    requires
        w < 32,
        i < 32,
    ensures
        bit_set(x & !(1u32 << w), i as int) == (bit_set(x, i as int) && i != w),
{
    assert((((x & !(1u32 << w)) >> i) & 1 == 1) == (((x >> i) & 1 == 1) && i != w))
        by (bit_vector)
        requires
            w < 32,
            i < 32,
    ;
}

/// Counts the set bits of `x` strictly below position `n`.
pub fn count_bits_below_exec(x: u32, n: u32) -> (c: u32)
    requires
        n <= 32,
    ensures
        c == count_bits_below(x, n as int),
        c <= n,
{
    let mut c: u32 = 0;
    let mut i: u32 = 0;
    while i < n
        invariant
            i <= n <= 32,
            c == count_bits_below(x, i as int),
            c <= i,
        decreases n - i,
    {
        if (x >> i) & 1 == 1 {
            c = c + 1;
        }
        i = i + 1;
    }
    c
}

/// The bit-vector table of the multi-column predictor: one `u32` per
/// (set, column) pair, laid out row by row.
#[derive(Debug)]
pub struct MultiColumnPredictor {
    pub bits: Vec<u32>,
    pub sets: usize,
    pub columns: usize,
}

impl MultiColumnPredictor {
    /// The shape the table keeps for its whole lifetime.
    pub open spec fn wf(&self) -> bool {
        &&& self.sets >= 1
        &&& 1 <= self.columns <= 8
        &&& self.bits@.len() == self.sets * self.columns
    }

    /// An all-clear table for `num_sets` sets of `ways` ways.
    pub fn new(num_sets: usize, ways: usize) -> (r: Self)
        requires
            num_sets >= 1,
            num_sets * spec_column_count(ways as int) <= usize::MAX,
        ensures
            r.wf(),
            r.sets == num_sets,
            r.columns == spec_column_count(ways as int),
            r.bits@.len() == num_sets * r.columns,
            forall|i: int| 0 <= i < r.bits@.len() ==> r.bits@[i] == 0u32,
    {
        let columns: usize = if ways <= 1 {
            1
        } else if ways <= 4 {
            2
        } else if ways <= 8 {
            4
        } else {
            8
        };
        let n = num_sets * columns;
        let mut bits: Vec<u32> = Vec::new();
        let mut i: usize = 0;
        while i < n
            invariant
                i <= n,
                bits@.len() == i,
                forall|j: int| 0 <= j < i ==> bits@[j] == 0u32,
            decreases n - i,
        {
            bits.push(0);
            i = i + 1;
        }
        MultiColumnPredictor { bits, sets: num_sets, columns }
    }

    /// The column `block_address` falls into.
    pub fn column(&self, block_address: u64) -> (r: usize)
        requires
            self.sets >= 1,
            self.columns >= 1,
        ensures
            r == spec_column(block_address, self.sets as int, self.columns as int),
            r < self.columns,
    {
        if self.columns == 1 {
            0
        } else {
            let tag = block_address / (self.sets as u64);
            (tag % (self.columns as u64)) as usize
        }
    }

    /// The flat table index of a (set, column) pair.
    pub fn index(&self, set_index: usize, column: usize) -> (r: usize)
        requires
            self.wf(),
            set_index < self.sets,
            column < self.columns,
        ensures
            r == set_index * self.columns + column,
            r < self.bits@.len(),
    {
        let n = self.bits.len();
        proof {
            assert(set_index * self.columns + column < self.sets * self.columns
                && set_index * self.columns <= self.sets * self.columns)
                by (nonlinear_arith)
                requires
                    set_index < self.sets,
                    column < self.columns,
            ;
        }
        set_index * self.columns + column
    }

    /// The current bit-vector for the (set, column) pair that
    /// `block_address` selects.
    pub fn observe(&self, set_index: usize, block_address: u64) -> (r: u32)
        requires
            self.wf(),
            set_index < self.sets,
        ensures
            r == spec_observe(
                self.bits@,
                self.sets as int,
                self.columns as int,
                set_index as int,
                block_address,
            ),
    {
        let column = self.column(block_address);
        let idx = self.index(set_index, column);
        self.bits[idx]
    }

    /// Sets the bit of `way` in the vector that `block_address` selects.
    pub fn mark(&mut self, set_index: usize, block_address: u64, way: usize)
        requires
            old(self).wf(),
            set_index < old(self).sets,
        ensures
            final(self).wf(),
            final(self).sets == old(self).sets,
            final(self).columns == old(self).columns,
            final(self).bits@ == spec_mark(
                old(self).bits@,
                old(self).sets as int,
                old(self).columns as int,
                set_index as int,
                block_address,
                way as int,
            ),
    {
        if way >= 32 {
            return;
        }
        let column = self.column(block_address);
        let idx = self.index(set_index, column);
        let updated = self.bits[idx] | (1u32 << (way as u32));
        self.bits[idx] = updated;
    }

    /// Clears the bit of `way` in the vector that `block_address` selects,
    /// so that a stale way is no longer predicted after an eviction.
    pub fn clear(&mut self, set_index: usize, block_address: u64, way: usize)
        requires
            old(self).wf(),
            set_index < old(self).sets,
        ensures
            final(self).wf(),
            final(self).sets == old(self).sets,
            final(self).columns == old(self).columns,
            final(self).bits@ == spec_clear(
                old(self).bits@,
                old(self).sets as int,
                old(self).columns as int,
                set_index as int,
                block_address,
                way as int,
            ),
    {
        if way >= 32 {
            return;
        }
        let column = self.column(block_address);
        let idx = self.index(set_index, column);
        let updated = self.bits[idx] & !(1u32 << (way as u32));
        self.bits[idx] = updated;
    }
}

} // verus!
