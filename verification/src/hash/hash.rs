//! The interface of a hasher that assigns keys to buckets.

use vstd::prelude::*;

verus! {

/// Generates an unsigned 64-bit hash of a string and maps it to one of a
/// number of buckets. The hash is a function of the hasher and the key:
/// `digest` names it, and every method is stated over it.
pub trait Hasher {
    /// The hash this hasher assigns to `key`.
    spec fn digest(&self, key: Seq<char>) -> u64;

    fn sum64(&self, key: &str) -> (h: u64)
        ensures
            h == self.digest(key@),
    ;

    /// The bucket of `key` by remainder. `num_buckets` must not be zero.
    fn bucket_v1(&self, key: &str, num_buckets: u64, bucket_mask: u64) -> (b: u64)
        requires
            num_buckets > 0,
        ensures
            b == self.digest(key@) % num_buckets,
    ;

    /// The bucket of `key` by mask.
    fn bucket_v2(&self, key: &str, num_buckets: u64, bucket_mask: u64) -> (b: u64)
        ensures
            b == self.digest(key@) & bucket_mask,
    ;

    /// The mask that selects a bucket among `num_buckets`, a power of two.
    fn get_bucket_mask(&self, num_buckets: u64) -> (m: u64)
        requires
            num_buckets > 0,
        ensures
            m == num_buckets - 1,
    ;
}

} // verus!
