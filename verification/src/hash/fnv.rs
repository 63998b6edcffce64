//! The 64-bit FNV-1a hash.

use super::hash::Hasher;
use vstd::prelude::*;

verus! {

broadcast use vstd::string::group_string_axioms;

/// FNV-1a 64-bit offset basis.
pub const OFFSET64: u64 = 14695981039346656037;

/// FNV-1a 64-bit prime.
pub const PRIME64: u64 = 1099511628211;

/// One round of FNV-1a: fold the code point of `c` into `h`.
pub open spec fn fnv64a_step(h: u64, c: char) -> u64 {
    (h ^ (c as u64)).wrapping_mul(PRIME64)
}

/// The FNV-1a 64-bit hash of a string, taken over its code points.
pub open spec fn fnv64a(key: Seq<char>) -> u64
    decreases key.len(),
{
    if key.len() == 0 {
        OFFSET64
    } else {
        fnv64a_step(fnv64a(key.drop_last()), key.last())
    }
}

/// A 64-bit FNV-1a hasher. It holds no state and allocates nothing.
pub struct Fnv64a {}

impl Fnv64a {
    pub fn new() -> (h: Fnv64a) {
        Fnv64a {  }
    }
}

/// Returns a new 64-bit FNV-1a hasher behind the `Hasher` interface.
pub fn new_default_hasher() -> (hasher: Box<dyn Hasher>)
    ensures
        forall|key: Seq<char>| #[trigger] hasher.digest(key) == fnv64a(key),
{
    // the hasher becomes a trait object where it is returned
    return Box::new(Fnv64a::new());
}

impl Hasher for Fnv64a {
    open spec fn digest(&self, key: Seq<char>) -> u64 {
        fnv64a(key)
    }

    fn sum64(&self, key: &str) -> (h: u64) {
        let mut hash: u64 = OFFSET64;
        for c in it: key.chars()
            invariant
                it.seq() == key@,
                hash == fnv64a(key@.take(it.index() as int)),
        {
            proof {
                let n = it.index() as int;
                assert(key@.take(n + 1).drop_last() == key@.take(n));
            }
            hash = (hash ^ (c as u64)).wrapping_mul(PRIME64);
        }
        proof {
            assert(key@.take(key@.len() as int) == key@);
        }
        hash
    }

    fn bucket_v1(&self, key: &str, num_buckets: u64, _bucket_mask: u64) -> (b: u64) {
        self.sum64(key) % num_buckets
    }

    fn bucket_v2(&self, key: &str, _num_buckets: u64, bucket_mask: u64) -> (b: u64) {
        self.sum64(key) & bucket_mask
    }

    fn get_bucket_mask(&self, num_buckets: u64) -> (m: u64) {
        num_buckets - 1
    }
}

} // verus!
