//! Hashers of string keys.

use vstd::prelude::*;

pub mod cityhash;
pub mod fnv;
pub mod hash;
pub mod xxhash;

verus! {

/// A hasher that may keep state between calls: `sum64` takes `&mut self`.
pub trait Sum64 {
    fn sum64(&mut self, key: &str) -> u64;
}

} // verus!
