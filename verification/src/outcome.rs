//! What a call of `set` reports back.

use crate::model::exhausts;
use crate::model::released_by;
use crate::model::CacheState;
use vstd::prelude::*;

verus! {

/// What one call of `set` did to the cache.
#[derive(Debug, Clone, Copy, PartialEq, Eq, Structural)]
pub enum SetOutcome {
    /// The key was cached already: nothing changed.
    AlreadyCached,
    /// The entry went in; there was room for it.
    Stored,
    /// The entry went in after an eviction pass.
    StoredAfterEviction {
        /// How many of the oldest entries the pass removed.
        evicted: usize,
        /// The accounted bytes of the removed entries.
        released: usize,
        /// Whether the pass ran out of entries before it had released its
        /// target: the cache is then degraded, and may hold more than its
        /// capacity.
        exhausted: bool,
    },
}

/// The outcome of storing an entry of `size` accounted bytes in `state`.
pub open spec fn outcome_of_storing(state: CacheState, size: nat) -> SetOutcome {
    if state.is_full_for(size) {
        SetOutcome::StoredAfterEviction {
            evicted: state.evictions_for(size) as usize,
            released: released_by(state.index, state.evictions_for(size)) as usize,
            exhausted: exhausts(state.index, state.release_target(size)),
        }
    } else {
        SetOutcome::Stored
    }
}

} // verus!
