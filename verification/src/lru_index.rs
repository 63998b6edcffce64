//! The recency index of the first cache: an `LruCache` from keys to sizes,
//! reached through contracts that Verus takes on trust. The cache is only
//! ever put to and popped from, so its order of use is the order of
//! insertion.

use crate::model::has_key;
use lru::LruCache;
use vstd::prelude::*;

verus! {

#[verifier::external_type_specification]
#[verifier::external_body]
#[verifier::reject_recursive_types(K)]
#[verifier::reject_recursive_types(V)]
#[verifier::reject_recursive_types(S)]
pub struct ExLruCache<K, V, S>(LruCache<K, V, S>);

#[verifier::external_type_specification]
#[verifier::external_body]
pub struct ExLruHasher(lru::DefaultHasher);

/// The entries of an `LruCache` from keys to sizes, each with its key's
/// characters and its size, the least recently used first.
pub uninterp spec fn lru_entries(cache: LruCache<String, usize>) -> Seq<(Seq<char>, nat)>;

/// The number of entries that an `LruCache` was made to hold at most.
pub uninterp spec fn lru_limit(cache: LruCache<String, usize>) -> nat;

/// `LruCache::unbounded`: an empty cache whose limit is `usize::MAX`.
#[verifier::external_body]
pub(crate) fn lru_unbounded() -> (cache: LruCache<String, usize>)
    ensures
        lru_entries(cache) == Seq::<(Seq<char>, nat)>::empty(),
        lru_limit(cache) == usize::MAX,
{
    LruCache::unbounded()
}

/// `LruCache::contains`: whether the key has an entry. The order of use
/// stays as it is, the method taking `&self`.
#[verifier::external_body]
pub(crate) fn lru_contains(cache: &LruCache<String, usize>, key: &str) -> (found: bool)
    ensures
        found == has_key(lru_entries(*cache), key@),
{
    cache.contains(key)
}

/// `LruCache::put`, for a key without an entry and a cache below its limit:
/// the pair becomes the most recently used entry and nothing is returned.
/// (On a key with an entry the outside function replaces the value; at the
/// limit it drops the least recently used entry. The `requires` leaves both
/// out.)
#[verifier::external_body]
pub(crate) fn lru_put(cache: &mut LruCache<String, usize>, key: String, size: usize) -> (previous:
    Option<usize>)
    requires
        !has_key(lru_entries(*old(cache)), key@),
        lru_entries(*old(cache)).len() < lru_limit(*old(cache)),
    ensures
        previous is None,
        lru_entries(*final(cache)) == lru_entries(*old(cache)).push((key@, size as nat)),
        lru_limit(*final(cache)) == lru_limit(*old(cache)),
{
    cache.put(key, size)
}

/// `LruCache::pop_lru`: removes and returns the least recently used entry,
/// or returns `None` on an empty cache.
#[verifier::external_body]
pub(crate) fn lru_pop_lru(cache: &mut LruCache<String, usize>) -> (oldest: Option<(String, usize)>)
    ensures
        lru_limit(*final(cache)) == lru_limit(*old(cache)),
        match oldest {
            Some((key, size)) => {
                &&& lru_entries(*old(cache)).len() > 0
                &&& lru_entries(*old(cache))[0] == (key@, size as nat)
                &&& lru_entries(*final(cache)) == lru_entries(*old(cache)).skip(1)
            },
            None => {
                &&& lru_entries(*old(cache)).len() == 0
                &&& lru_entries(*final(cache)) == lru_entries(*old(cache))
            },
        },
{
    cache.pop_lru()
}

/// `LruCache::len`: the number of entries.
#[verifier::external_body]
pub(crate) fn lru_len(cache: &LruCache<String, usize>) -> (n: usize)
    ensures
        n == lru_entries(*cache).len(),
{
    cache.len()
}

} // verus!
