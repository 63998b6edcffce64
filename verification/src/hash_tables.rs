//! The two tables of the second cache: `hashbrown` maps from keys to sizes
//! and from keys to payloads, reached through contracts that Verus takes on
//! trust. Verus cannot be told of `hashbrown::HashMap` itself, whose
//! allocator parameter is bound by a trait it does not know, so each map
//! sits in a struct of its own.

use crate::payload::bytes_contents;
use bytes::Bytes;
use hashbrown::HashMap;
use vstd::prelude::*;

verus! {

/// A `hashbrown::HashMap` from keys to accounted sizes.
#[verifier::external_body]
pub struct SizeTable {
    map: HashMap<String, usize>,
}

/// A `hashbrown::HashMap` from keys to payloads.
#[verifier::external_body]
pub struct ByteTable {
    map: HashMap<String, Bytes>,
}

/// What a size table holds: the size under each key, the key taken by its
/// characters.
pub uninterp spec fn size_entries(table: SizeTable) -> Map<Seq<char>, nat>;

/// What a byte table holds: the bytes of the payload under each key, the key
/// taken by its characters.
pub uninterp spec fn byte_entries(table: ByteTable) -> Map<Seq<char>, Seq<u8>>;

/// `HashMap::with_capacity`: a table without entries.
#[verifier::external_body]
pub(crate) fn size_table_with_capacity(capacity: usize) -> (table: SizeTable)
    ensures
        size_entries(table).dom() == Set::<Seq<char>>::empty(),
{
    SizeTable { map: HashMap::with_capacity(capacity) }
}

/// `HashMap::contains_key`: whether the key has an entry.
#[verifier::external_body]
pub(crate) fn size_table_contains_key(table: &SizeTable, key: &str) -> (found: bool)
    ensures
        found == size_entries(*table).dom().contains(key@),
{
    table.map.contains_key(key)
}

/// `HashMap::insert`: the entry under the key is the new size; returns the
/// size that was there before, if any.
#[verifier::external_body]
pub(crate) fn size_table_insert(table: &mut SizeTable, key: String, size: usize) -> (previous:
    Option<usize>)
    ensures
        size_entries(*final(table)) == size_entries(*old(table)).insert(key@, size as nat),
        match previous {
            Some(before) => size_entries(*old(table)).dom().contains(key@) && before
                == size_entries(*old(table))[key@],
            None => !size_entries(*old(table)).dom().contains(key@),
        },
{
    table.map.insert(key, size)
}

/// `HashMap::remove`: no entry is left under the key; returns the size that
/// was there, if any.
#[verifier::external_body]
pub(crate) fn size_table_remove(table: &mut SizeTable, key: &str) -> (removed: Option<usize>)
    ensures
        size_entries(*final(table)) == size_entries(*old(table)).remove(key@),
        match removed {
            Some(before) => size_entries(*old(table)).dom().contains(key@) && before
                == size_entries(*old(table))[key@],
            None => !size_entries(*old(table)).dom().contains(key@),
        },
{
    table.map.remove(key)
}

/// `HashMap::len`: the number of entries.
#[verifier::external_body]
pub(crate) fn size_table_len(table: &SizeTable) -> (n: usize)
    ensures
        n == size_entries(*table).dom().len(),
{
    table.map.len()
}

/// `HashMap::with_capacity`: a table without entries.
#[verifier::external_body]
pub(crate) fn byte_table_with_capacity(capacity: usize) -> (table: ByteTable)
    ensures
        byte_entries(table).dom() == Set::<Seq<char>>::empty(),
{
    ByteTable { map: HashMap::with_capacity(capacity) }
}

/// `HashMap::get`, with the payload found handed out as a second handle on
/// the same bytes.
#[verifier::external_body]
pub(crate) fn byte_table_get(table: &ByteTable, key: &str) -> (found: Option<Bytes>)
    ensures
        match found {
            Some(data) => byte_entries(*table).dom().contains(key@) && bytes_contents(data)
                == byte_entries(*table)[key@],
            None => !byte_entries(*table).dom().contains(key@),
        },
{
    table.map.get(key).cloned()
}

/// `HashMap::insert`: the entry under the key is the new payload; returns
/// the payload that was there before, if any.
#[verifier::external_body]
pub(crate) fn byte_table_insert(table: &mut ByteTable, key: String, data: Bytes) -> (previous:
    Option<Bytes>)
    ensures
        byte_entries(*final(table)) == byte_entries(*old(table)).insert(
            key@,
            bytes_contents(data),
        ),
        match previous {
            Some(before) => byte_entries(*old(table)).dom().contains(key@) && bytes_contents(
                before,
            ) == byte_entries(*old(table))[key@],
            None => !byte_entries(*old(table)).dom().contains(key@),
        },
{
    table.map.insert(key, data)
}

/// `HashMap::remove`: no entry is left under the key; returns the payload
/// that was there, if any.
#[verifier::external_body]
pub(crate) fn byte_table_remove(table: &mut ByteTable, key: &str) -> (removed: Option<Bytes>)
    ensures
        byte_entries(*final(table)) == byte_entries(*old(table)).remove(key@),
        match removed {
            Some(before) => byte_entries(*old(table)).dom().contains(key@) && bytes_contents(
                before,
            ) == byte_entries(*old(table))[key@],
            None => !byte_entries(*old(table)).dom().contains(key@),
        },
{
    table.map.remove(key)
}

/// `HashMap::len`: the number of entries.
#[verifier::external_body]
pub(crate) fn byte_table_len(table: &ByteTable) -> (n: usize)
    ensures
        n == byte_entries(*table).dom().len(),
{
    table.map.len()
}

/// `HashMap::shrink_to_fit`: gives back unused room; the entries stay.
#[verifier::external_body]
pub(crate) fn byte_table_shrink_to_fit(table: &mut ByteTable)
    ensures
        byte_entries(*final(table)) == byte_entries(*old(table)),
{
    table.map.shrink_to_fit()
}

} // verus!
