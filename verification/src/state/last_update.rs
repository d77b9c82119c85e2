//! Per-entity staleness marker with an explicit freshness tolerance.

use vstd::prelude::*;
use crate::error::LendingError;

verus! {

/// Number of slots to consider stale after.
pub const STALE_AFTER_SLOTS_ELAPSED: u64 = 1;

/// Last slot an entity was refreshed at, plus an explicit stale flag.
#[derive(Clone, Copy, Debug, PartialEq, Eq, Structural)]
pub struct LastUpdateStorage {
    /// Last slot when updated.
    pub slot: u64,
    /// True when marked stale, false when the slot was updated.
    pub stale: bool,
}

impl LastUpdateStorage {
    /// Whether a reading at `slot` must be treated as stale: either the flag
    /// is set or the clock has advanced past the recorded slot by at least
    /// the tolerance.  Meaningful only when the clock has not moved backwards.
    pub open spec fn is_stale_spec(self, slot: u64) -> bool {
        self.stale || slot - self.slot >= STALE_AFTER_SLOTS_ELAPSED
    }

    /// Create a new marker, stale until the first update.
    pub fn new(slot: u64) -> (r: Self)
        ensures
            r.slot == slot,
            r.stale,
    {
        Self { slot, stale: true }
    }

    /// Slots elapsed since the recorded slot; fails if the clock moved
    /// backwards.
    pub fn slots_elapsed(&self, slot: u64) -> (r: Result<u64, LendingError>)
        ensures
            slot >= self.slot ==> (r matches Ok(v) && v == slot - self.slot),
            slot < self.slot ==> (r matches Err(e) && e == LendingError::MathOverflow),
    {
        if slot >= self.slot {
            Ok(slot - self.slot)
        } else {
            Err(LendingError::MathOverflow)
        }
    }

    /// Record a refresh at `slot` and clear the stale flag.
    pub fn update_slot(&mut self, slot: u64)
        ensures
            final(self).slot == slot,
            !final(self).stale,
    {
        self.slot = slot;
        self.stale = false;
    }

    /// Set the stale flag without touching the recorded slot.
    pub fn mark_stale(&mut self)
        ensures
            *final(self) == (LastUpdateStorage { stale: true, ..*old(self) }),
    {
        self.stale = true;
    }

    /// Whether the marker is stale at `slot`; fails if the clock moved
    /// backwards.
    pub fn is_stale(&self, slot: u64) -> (r: Result<bool, LendingError>)
        ensures
            slot >= self.slot ==> (r matches Ok(b) && b == self.is_stale_spec(slot)),
            slot < self.slot ==> (r matches Err(e) && e == LendingError::MathOverflow),
    {
        let elapsed = match self.slots_elapsed(slot) {
            Ok(v) => v,
            Err(e) => {
                return Err(e);
            },
        };
        Ok(self.stale || elapsed >= STALE_AFTER_SLOTS_ELAPSED)
    }
}

impl Default for LastUpdateStorage {
    /// A marker that has never been updated: slot zero, stale.
    fn default() -> (r: Self)
        ensures
            r.slot == 0,
            r.stale,
    {
        Self { slot: 0, stale: true }
    }
}

} // verus!
