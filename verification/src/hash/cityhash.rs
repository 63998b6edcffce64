//! The 64-bit CityHash, computed by the `cityhasher` crate.

use super::Sum64;
use vstd::prelude::*;
use vstd::string::StringSliceAdditionalSpecFns;

verus! {

/// The 64-bit CityHash of a byte string, as `cityhasher` computes it.
pub uninterp spec fn city_hash64(data: Seq<u8>) -> u64;

/// Calls `cityhasher::hash` for a `u64`. The contract claims only that the
/// result is a function of the key's UTF-8 bytes, named `city_hash64`.
#[verifier::external_body]
fn city_hash(key: &str) -> (h: u64)
    ensures
        h == city_hash64(key.spec_bytes()),
{
    cityhasher::hash(key)
}

/// A stateless CityHash hasher.
pub struct CityHash {}

pub fn new() -> (h: CityHash) {
    CityHash {  }
}

impl Sum64 for CityHash {
    fn sum64(&mut self, key: &str) -> (h: u64)
        ensures
            h == city_hash64(key.spec_bytes()),
    {
        city_hash(key)
    }
}

} // verus!
