//! The victim buffer: a small, bounded, fully-associative side store of
//! evicted lines, matched purely by block address.

use vstd::prelude::*;
use crate::line::CacheLine;

verus! {

/// First index at or after `i` whose entry covers `block`.
pub open spec fn vb_find_from(entries: Seq<CacheLine>, block: u64, i: int) -> Option<int>
    decreases entries.len() - i,
{
    if i < 0 || i >= entries.len() {
        Option::None
    } else if entries[i].block_address == block {
        Option::Some(i)
    } else {
        vb_find_from(entries, block, i + 1)
    }
}

/// Index of the least-recently-stamped entry among the first `n`,
/// preferring the earliest index on equal stamps.
pub open spec fn vb_oldest_prefix(entries: Seq<CacheLine>, n: int) -> int
    recommends
        1 <= n <= entries.len(),
    decreases n,
{
    if n <= 1 {
        0
    } else {
        let r = vb_oldest_prefix(entries, n - 1);
        if entries[n - 1].stamp < entries[r].stamp {
            n - 1
        } else {
            r
        }
    }
}

/// The buffer contents after offering `line` at tick `stamp`: the line is
/// restamped, a full buffer first drops its least-recently-stamped entry,
/// and a buffer of capacity zero ignores the offer.
pub open spec fn vb_insert_spec(
    entries: Seq<CacheLine>,
    capacity: int,
    line: CacheLine,
    stamp: u64,
) -> Seq<CacheLine> {
    if capacity == 0 {
        entries
    } else {
        let stamped = CacheLine { stamp, ..line };
        if entries.len() == capacity {
            entries.remove(vb_oldest_prefix(entries, entries.len() as int)).push(stamped)
        } else {
            entries.push(stamped)
        }
    }
}

/// A bounded store of evicted lines; `entries` never outgrows `capacity`.
#[derive(Debug, Clone)]
pub struct VictimBuffer {
    pub entries: Vec<CacheLine>,
    pub capacity: usize,
}

impl VictimBuffer {
    /// The size bound the buffer maintains.
    pub open spec fn wf(&self) -> bool {
        self.entries@.len() <= self.capacity
    }

    /// An empty buffer of the given capacity.
    pub fn new(capacity: usize) -> (r: Self)
        ensures
            r.capacity == capacity,
            r.entries@ == Seq::<CacheLine>::empty(),
            r.wf(),
    {
        VictimBuffer { entries: Vec::new(), capacity }
    }

    /// Removes and returns the first entry covering `block`, if any.
    pub fn take(&mut self, block_address: u64) -> (r: Option<CacheLine>)
        ensures
            final(self).capacity == old(self).capacity,
            old(self).capacity == 0 ==> r is None && *final(self) == *old(self),
            old(self).capacity > 0 ==> match vb_find_from(old(self).entries@, block_address, 0) {
                Option::None => r is None && *final(self) == *old(self),
                Option::Some(j) => {
                    &&& r == Option::Some(old(self).entries@[j])
                    &&& final(self).entries@ == old(self).entries@.remove(j)
                },
            },
            old(self).wf() ==> final(self).wf(),
    {
        if self.capacity == 0 {
            return Option::None;
        }
        let mut i: usize = 0;
        while i < self.entries.len()
            invariant
                *self == *old(self),
                old(self).capacity > 0,
                0 <= i <= self.entries@.len(),
                vb_find_from(self.entries@, block_address, 0) == vb_find_from(
                    self.entries@,
                    block_address,
                    i as int,
                ),
            decreases self.entries@.len() - i,
        {
            if self.entries[i].block_address == block_address {
                return Option::Some(self.entries.remove(i));
            }
            i = i + 1;
        }
        Option::None
    }

    /// Offers an evicted line, restamped with the current tick; a full
    /// buffer first evicts its own least-recently-stamped entry.
    pub fn insert(&mut self, line: CacheLine, stamp: u64)
        ensures
            final(self).capacity == old(self).capacity,
            final(self).entries@ == vb_insert_spec(
                old(self).entries@,
                old(self).capacity as int,
                line,
                stamp,
            ),
            old(self).wf() ==> final(self).wf(),
    {
        if self.capacity == 0 {
            return;
        }
        let mut line = line;
        line.stamp = stamp;
        if self.entries.len() == self.capacity {
            let n = self.entries.len();
            let mut best: usize = 0;
            let mut i: usize = 1;
            while i < n
                invariant
                    *self == *old(self),
                    1 <= i <= n,
                    n == self.entries@.len(),
                    best < i,
                    best == vb_oldest_prefix(self.entries@, i as int),
                decreases n - i,
            {
                if self.entries[i].stamp < self.entries[best].stamp {
                    best = i;
                }
                i = i + 1;
            }
            self.entries.remove(best);
        }
        self.entries.push(line);
    }
}

} // verus!
