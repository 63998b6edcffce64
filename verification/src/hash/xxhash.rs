//! The streaming 64-bit XXH3 hash, computed by the `xxhash_rust` crate.

use super::Sum64;
use vstd::prelude::*;
use vstd::string::StringSliceAdditionalSpecFns;
use xxhash_rust::xxh3::Xxh3;

verus! {

#[verifier::external_type_specification]
#[verifier::external_body]
pub struct ExXxh3(Xxh3);

/// The bytes written to a hasher since it was made, in the order written.
pub uninterp spec fn xxh3_input(hasher: Xxh3) -> Seq<u8>;

/// The seed and the secret that a hasher was made with.
pub uninterp spec fn xxh3_setup(hasher: Xxh3) -> (u64, Seq<u8>);

/// The 64-bit XXH3 hash of `input` under a seed and a secret.
pub uninterp spec fn xxh3_64(seed: u64, secret: Seq<u8>, input: Seq<u8>) -> u64;

/// `Xxh3::new`: a hasher to which nothing has been written.
#[verifier::external_body]
fn xxh3_new() -> (hasher: Xxh3)
    ensures
        xxh3_input(hasher) == Seq::<u8>::empty(),
{
    Xxh3::new()
}

/// `Hasher::write` of `Xxh3`: the bytes are appended to what the hasher has
/// taken in; seed and secret stay.
#[verifier::external_body]
fn xxh3_write(hasher: &mut Xxh3, data: &[u8])
    ensures
        xxh3_input(*final(hasher)) == xxh3_input(*old(hasher)) + data@,
        xxh3_setup(*final(hasher)) == xxh3_setup(*old(hasher)),
{
    std::hash::Hasher::write(hasher, data)
}

/// `Hasher::finish` of `Xxh3`: the hash of all that was written, under the
/// hasher's seed and secret. The hasher stays as it is.
#[verifier::external_body]
fn xxh3_finish(hasher: &Xxh3) -> (h: u64)
    ensures
        h == xxh3_64(xxh3_setup(*hasher).0, xxh3_setup(*hasher).1, xxh3_input(*hasher)),
{
    std::hash::Hasher::finish(hasher)
}

/// A streaming XXH3 hasher with the default seed and secret.
pub fn new() -> (hasher: Xxh3)
    ensures
        xxh3_input(hasher) == Seq::<u8>::empty(),
{
    xxh3_new()
}

impl Sum64 for Xxh3 {
    /// Writes the key to the hasher and returns the hash of all that the
    /// hasher has taken in so far: the keys of earlier calls count.
    fn sum64(&mut self, key: &str) -> (h: u64)
        ensures
            xxh3_input(*final(self)) == xxh3_input(*old(self)) + key.spec_bytes(),
            xxh3_setup(*final(self)) == xxh3_setup(*old(self)),
            h == xxh3_64(
                xxh3_setup(*old(self)).0,
                xxh3_setup(*old(self)).1,
                xxh3_input(*old(self)) + key.spec_bytes(),
            ),
    {
        xxh3_write(self, key.as_bytes());
        xxh3_finish(self)
    }
}

} // verus!
