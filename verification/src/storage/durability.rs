//! Durability failures surfaced by the WAL, event and idempotency stores.

use vstd::prelude::*;

verus! {

/// Durability failure surfaced to callers.
#[derive(Debug, Clone, Copy, PartialEq, Eq, Structural)]
pub enum DurabilityError {
    Io,
    FsyncFailed,
    RenameFailed,
}

} // verus!
