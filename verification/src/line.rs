//! Metadata for one resident cache block.

use vstd::prelude::*;

verus! {

/// Metadata for one block resident in a set or in the victim buffer.
///
/// A slot of a set holds `Option<CacheLine>`; an occupied slot always holds
/// a valid line, so no separate validity flag is carried. `stamp` is a value
/// of the engine's monotonic tick counter, recorded on install and refreshed
/// on every hit, and orders lines from least to most recently used.
/// `first_touch_pending` is true until the line receives its first hit after
/// installation; `dirty` records whether any write has hit the line. Neither
/// the data payload nor timing is modeled.
#[derive(Debug, Clone, Copy, PartialEq, Eq, Structural)]
pub struct CacheLine {
    pub tag: u64,
    pub block_address: u64,
    pub stamp: u64,
    pub dirty: bool,
    pub first_touch_pending: bool,
}

impl CacheLine {
    /// A freshly fabricated line: clean, and not yet hit.
    pub fn new(tag: u64, block_address: u64, stamp: u64) -> (r: Self)
        ensures
            r == (CacheLine {
                tag,
                block_address,
                stamp,
                dirty: false,
                first_touch_pending: true,
            }),
    {
        CacheLine { tag, block_address, stamp, dirty: false, first_touch_pending: true }
    }

    /// Records a hit on this line. Returns true when this is the first hit
    /// the line has received since it was installed.
    pub fn mark_hit(&mut self) -> (first: bool)
        ensures
            first == old(self).first_touch_pending,
            *final(self) == (CacheLine { first_touch_pending: false, ..*old(self) }),
    {
        let first = self.first_touch_pending;
        self.first_touch_pending = false;
        first
    }
}

} // verus!
