//! The byte store of the first cache: a `DashMap` from keys to buffers,
//! reached through contracts that Verus takes on trust.

use crate::payload::bytes_contents;
use bytes::Bytes;
use dashmap::DashMap;
use vstd::prelude::*;

verus! {

#[verifier::external_type_specification]
#[verifier::external_body]
#[verifier::reject_recursive_types(K)]
#[verifier::reject_recursive_types(V)]
#[verifier::reject_recursive_types(S)]
pub struct ExDashMap<K, V, S>(DashMap<K, V, S>);

#[verifier::external_type_specification]
#[verifier::external_body]
pub struct ExAhashState(ahash::RandomState);

/// What a `DashMap` from keys to buffers holds: the bytes of the buffer
/// under each key, the key taken by its characters.
pub uninterp spec fn dash_entries(map: DashMap<String, Bytes, ahash::RandomState>) -> Map<
    Seq<char>,
    Seq<u8>,
>;

/// `DashMap::default`: a map without entries.
#[verifier::external_body]
pub(crate) fn dash_new() -> (store: DashMap<String, Bytes, ahash::RandomState>)
    ensures
        dash_entries(store).dom() == Set::<Seq<char>>::empty(),
{
    DashMap::default()
}

/// `DashMap::get`, with the buffer found handed out as a second handle on
/// the same bytes.
#[verifier::external_body]
pub(crate) fn dash_get(map: &DashMap<String, Bytes, ahash::RandomState>, key: &str) -> (found:
    Option<Bytes>)
    ensures
        match found {
            Some(data) => dash_entries(*map).dom().contains(key@) && bytes_contents(data)
                == dash_entries(*map)[key@],
            None => !dash_entries(*map).dom().contains(key@),
        },
{
    map.get(key).map(|entry| entry.value().clone())
}

/// `DashMap::insert`: the entry under the key is the new buffer; returns the
/// buffer that was there before, if any.
#[verifier::external_body]
pub(crate) fn dash_insert(
    map: &mut DashMap<String, Bytes, ahash::RandomState>,
    key: String,
    data: Bytes,
) -> (previous: Option<Bytes>)
    ensures
        dash_entries(*final(map)) == dash_entries(*old(map)).insert(key@, bytes_contents(data)),
        match previous {
            Some(before) => dash_entries(*old(map)).dom().contains(key@) && bytes_contents(before)
                == dash_entries(*old(map))[key@],
            None => !dash_entries(*old(map)).dom().contains(key@),
        },
{
    map.insert(key, data)
}

/// `DashMap::remove`: no entry is left under the key; returns the buffer
/// that was there, if any.
#[verifier::external_body]
pub(crate) fn dash_remove(map: &mut DashMap<String, Bytes, ahash::RandomState>, key: &str) -> (removed:
    Option<Bytes>)
    ensures
        dash_entries(*final(map)) == dash_entries(*old(map)).remove(key@),
        match removed {
            Some(before) => dash_entries(*old(map)).dom().contains(key@) && bytes_contents(before)
                == dash_entries(*old(map))[key@],
            None => !dash_entries(*old(map)).dom().contains(key@),
        },
{
    map.remove(key).map(|entry| entry.1)
}

/// `DashMap::len`: the number of entries.
#[verifier::external_body]
pub(crate) fn dash_len(map: &DashMap<String, Bytes, ahash::RandomState>) -> (n: usize)
    ensures
        n == dash_entries(*map).dom().len(),
{
    map.len()
}

/// `DashMap::shrink_to_fit`: gives back unused room; the entries stay.
#[verifier::external_body]
pub(crate) fn dash_shrink_to_fit(map: &mut DashMap<String, Bytes, ahash::RandomState>)
    ensures
        dash_entries(*final(map)) == dash_entries(*old(map)),
{
    map.shrink_to_fit()
}

} // verus!
