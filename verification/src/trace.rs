//! The access records that a simulation run consumes.

use vstd::prelude::*;

verus! {

/// Whether an access reads or writes the addressed location.
#[derive(Debug, Clone, Copy, PartialEq, Eq, Structural)]
pub enum AccessKind {
    Read,
    Write,
}

/// One recorded memory access: a kind and a byte address.
#[derive(Debug, Clone, Copy, PartialEq, Eq, Structural)]
pub struct TraceAccess {
    pub kind: AccessKind,
    pub address: u64,
}

/// A named, already-validated sequence of accesses.
///
/// Building one from a text source is I/O and lives outside this crate;
/// the line format itself is handled by the `parse` module.
#[derive(Debug, Clone)]
pub struct TraceFile {
    pub name: String,
    pub entries: Vec<TraceAccess>,
}

} // verus!
