//! What a bounded cache is and does, as a mathematical state and functions
//! on it. The caches state their contracts over this model.

use crate::errors::RangeError;
use crate::payload::slice_of;
use vstd::prelude::*;
use vstd::utf8::encode_utf8;

verus! {

/// Default capacity of a cache: 1 GiB.
pub const MAX_SIZE: usize = 1073741824;

/// Default release threshold, the least that one eviction pass aims to free:
/// 100 MiB.
pub const RELEASE_SIZE: usize = 104857600;

/// The size under which an entry is accounted: the length of its key in
/// UTF-8 plus the length of its payload.
pub open spec fn accounted_size(key: Seq<char>, payload: Seq<u8>) -> nat {
    encode_utf8(key).len() + payload.len()
}

/// The keys of a recency index, oldest first.
pub open spec fn key_seq(index: Seq<(Seq<char>, nat)>) -> Seq<Seq<char>> {
    index.map_values(|e: (Seq<char>, nat)| e.0)
}

/// Whether `key` is listed in `index`.
pub open spec fn has_key(index: Seq<(Seq<char>, nat)>, key: Seq<char>) -> bool {
    key_seq(index).contains(key)
}

/// The sum of the accounted sizes listed in `index`.
pub open spec fn total_size(index: Seq<(Seq<char>, nat)>) -> nat
    decreases index.len(),
{
    if index.len() == 0 {
        0
    } else {
        total_size(index.drop_last()) + index.last().1
    }
}

/// The bytes that leave with the `n` oldest entries of `index`.
pub open spec fn released_by(index: Seq<(Seq<char>, nat)>, n: nat) -> nat {
    total_size(index.take(n as int))
}

/// Whether dropping the `n` oldest entries, at least one, frees `target`
/// bytes or more.
pub open spec fn meets(index: Seq<(Seq<char>, nat)>, target: nat, n: nat) -> bool {
    1 <= n <= index.len() && released_by(index, n) >= target
}

/// Whether an eviction pass for `target` bytes runs out of entries before it
/// has freed that much: no number of oldest entries meets the target.
pub open spec fn exhausts(index: Seq<(Seq<char>, nat)>, target: nat) -> bool {
    forall|n: nat| !meets(index, target, n)
}

/// Whether `n` is the least number of oldest entries that meets `target`.
pub open spec fn least_meeting(index: Seq<(Seq<char>, nat)>, target: nat, n: nat) -> bool {
    meets(index, target, n) && forall|m: nat| meets(index, target, m) ==> n <= m
}

/// How many entries an eviction pass for `target` bytes removes: the least
/// number of oldest entries that meets the target, and all of them where no
/// number does.
pub open spec fn evict_count(index: Seq<(Seq<char>, nat)>, target: nat) -> nat {
    if exhausts(index, target) {
        index.len()
    } else {
        choose|n: nat| least_meeting(index, target, n)
    }
}

/// The least of two numbers.
pub open spec fn least(a: nat, b: nat) -> nat {
    if a <= b {
        a
    } else {
        b
    }
}

/// The greatest of two numbers.
pub open spec fn greatest(a: nat, b: nat) -> nat {
    if a >= b {
        a
    } else {
        b
    }
}

/// What an eviction pass aims to free before an entry of `data_size` bytes
/// goes into a cache of capacity `max_size` and release threshold
/// `release_size`: a hundred times the entry, but no less than the threshold
/// and no more than the capacity.
pub fn need_release_size(max_size: usize, release_size: usize, data_size: usize) -> (target: usize)
    ensures
        target == least(max_size as nat, greatest(release_size as nat, 100 * data_size as nat)),
{
    // a product beyond `usize` is beyond the capacity as well
    let scaled: usize = if data_size > usize::MAX / 100 {
        usize::MAX
    } else {
        data_size * 100
    };
    let wanted: usize = if release_size >= scaled {
        release_size
    } else {
        scaled
    };
    if max_size <= wanted {
        max_size
    } else {
        wanted
    }
}

/// The state of a bounded cache: its two limits, the size it accounts for,
/// the recency index (key and accounted size of each entry, oldest first)
/// and the byte store.
pub struct CacheState {
    pub capacity: nat,
    pub release: nat,
    pub current_size: nat,
    pub index: Seq<(Seq<char>, nat)>,
    pub store: Map<Seq<char>, Seq<u8>>,
}

impl CacheState {
    /// A cache that holds nothing.
    pub open spec fn empty(capacity: nat, release: nat) -> CacheState {
        CacheState { capacity, release, current_size: 0, index: Seq::empty(), store: Map::empty() }
    }

    /// Whether `key` is cached: membership in the recency index.
    pub open spec fn contains(self, key: Seq<char>) -> bool {
        has_key(self.index, key)
    }

    /// Index, store and counter agree: no key is listed twice, the store
    /// holds exactly the listed keys, each listed size is the accounted size
    /// of the stored entry, and the counter is the sum of the listed sizes.
    pub open spec fn consistent(self) -> bool {
        &&& key_seq(self.index).no_duplicates()
        &&& self.store.dom() =~= key_seq(self.index).to_set()
        &&& forall|i: int|
            0 <= i < self.index.len() ==> (#[trigger] self.index[i]).1 == accounted_size(
                self.index[i].0,
                self.store[self.index[i].0],
            )
        &&& self.current_size == total_size(self.index)
    }

    /// Whether an entry of `size` bytes makes the cache evict first.
    pub open spec fn is_full_for(self, size: nat) -> bool {
        self.current_size + size >= self.capacity
    }

    /// What an eviction pass before an entry of `size` bytes aims to free:
    /// a hundred times that size, but no less than the release threshold and
    /// no more than the capacity.
    pub open spec fn release_target(self, size: nat) -> nat {
        least(self.capacity, greatest(self.release, 100 * size))
    }

    /// The cache without its `n` oldest entries.
    pub open spec fn drop_oldest(self, n: nat) -> CacheState {
        CacheState {
            current_size: (self.current_size - released_by(self.index, n)) as nat,
            index: self.index.skip(n as int),
            store: self.store.remove_keys(key_seq(self.index.take(n as int)).to_set()),
            ..self
        }
    }

    /// How many entries leave before an entry of `size` bytes goes in.
    pub open spec fn evictions_for(self, size: nat) -> nat {
        if self.is_full_for(size) {
            evict_count(self.index, self.release_target(size))
        } else {
            0
        }
    }

    /// Whether the eviction pass before an entry of `size` bytes runs, and
    /// runs out of entries before it has freed its target.
    pub open spec fn degrades_for(self, size: nat) -> bool {
        self.is_full_for(size) && exhausts(self.index, self.release_target(size))
    }

    /// The cache after the eviction pass, if any, that an entry of `size`
    /// bytes brings about.
    pub open spec fn evicted(self, size: nat) -> CacheState {
        self.drop_oldest(self.evictions_for(size))
    }

    /// The cache with one more entry, appended as the newest.
    pub open spec fn inserted(self, key: Seq<char>, payload: Seq<u8>) -> CacheState {
        CacheState {
            current_size: self.current_size + accounted_size(key, payload),
            index: self.index.push((key, accounted_size(key, payload))),
            store: self.store.insert(key, payload),
            ..self
        }
    }

    /// The cache after it has made room for an entry and taken it in.
    pub open spec fn stored(self, key: Seq<char>, payload: Seq<u8>) -> CacheState {
        self.evicted(accounted_size(key, payload)).inserted(key, payload)
    }

    /// The cache after `set`: unchanged where the key is cached already.
    pub open spec fn after_set(self, key: Seq<char>, payload: Seq<u8>) -> CacheState {
        if self.contains(key) {
            self
        } else {
            self.stored(key, payload)
        }
    }

    /// Whether the counters of a `set` of `size` bytes stay within `usize`:
    /// the size added to the current size, and one more line in the index.
    pub open spec fn within_limits(self, size: nat) -> bool {
        self.current_size + size <= usize::MAX && self.index.len() < usize::MAX
    }

    /// What `get` answers: nothing for a key that is not stored, else the
    /// whole payload or the requested part of it.
    pub open spec fn lookup(self, key: Seq<char>, range: Option<(int, int)>) -> Result<
        Option<Seq<u8>>,
        RangeError,
    > {
        if !self.store.dom().contains(key) {
            Ok(None)
        } else {
            match range {
                None => Ok(Some(self.store[key])),
                Some((start, end)) => match slice_of(self.store[key], start, end) {
                    Ok(part) => Ok(Some(part)),
                    Err(e) => Err(e),
                },
            }
        }
    }
}

/// Appending an entry adds its size to the total.
pub proof fn lemma_total_push(index: Seq<(Seq<char>, nat)>, entry: (Seq<char>, nat))
    ensures
        total_size(index.push(entry)) == total_size(index) + entry.1,
{
    assert(index.push(entry).drop_last() =~= index);
}

/// One more oldest entry releases its size more.
pub proof fn lemma_released_step(index: Seq<(Seq<char>, nat)>, n: nat)
    requires
        n < index.len(),
    ensures
        released_by(index, n + 1) == released_by(index, n) + index[n as int].1,
{
    assert(index.take(n as int + 1).drop_last() =~= index.take(n as int));
}

/// The total splits into what the `n` oldest entries hold and the rest.
pub proof fn lemma_total_split(index: Seq<(Seq<char>, nat)>, n: nat)
    requires
        n <= index.len(),
    ensures
        total_size(index) == released_by(index, n) + total_size(index.skip(n as int)),
    decreases index.len(),
{
    if n == index.len() {
        assert(index.take(n as int) =~= index);
    } else {
        let shorter = index.drop_last();
        lemma_total_split(shorter, n);
        assert(shorter.take(n as int) =~= index.take(n as int));
        assert(index.skip(n as int).drop_last() =~= shorter.skip(n as int));
    }
}

/// More oldest entries never release less.
pub proof fn lemma_released_monotonic(index: Seq<(Seq<char>, nat)>, m: nat, n: nat)
    requires
        m <= n <= index.len(),
    ensures
        released_by(index, m) <= released_by(index, n),
    decreases n - m,
{
    if m < n {
        lemma_released_step(index, m);
        lemma_released_monotonic(index, m + 1, n);
    }
}

/// Where some number of oldest entries meets the target, a least one does.
pub proof fn lemma_least_meeting_exists(index: Seq<(Seq<char>, nat)>, target: nat, n: nat)
    requires
        meets(index, target, n),
    ensures
        exists|k: nat| least_meeting(index, target, k),
    decreases n,
{
    if exists|m: nat| m < n && meets(index, target, m) {
        let m = choose|m: nat| m < n && meets(index, target, m);
        lemma_least_meeting_exists(index, target, m);
    } else {
        assert(least_meeting(index, target, n));
    }
}

/// What `evict_count` is, case by case: where the pass runs out it is the
/// length of the index; else it is at least one, at most the length, meets
/// the target, and no smaller number does.
pub proof fn lemma_evict_count(index: Seq<(Seq<char>, nat)>, target: nat)
    ensures
        evict_count(index, target) <= index.len(),
        exhausts(index, target) ==> evict_count(index, target) == index.len(),
        !exhausts(index, target) ==> least_meeting(index, target, evict_count(index, target)),
{
    if !exhausts(index, target) {
        let n = choose|n: nat| meets(index, target, n);
        lemma_least_meeting_exists(index, target, n);
    }
}

/// The least meeting number is the eviction count.
pub proof fn lemma_evict_count_is(index: Seq<(Seq<char>, nat)>, target: nat, n: nat)
    requires
        least_meeting(index, target, n),
    ensures
        !exhausts(index, target),
        evict_count(index, target) == n,
{
    lemma_evict_count(index, target);
}

/// The keys of a prefix and those of the rest of an index without
/// duplicates do not meet, and together they are the keys of the index.
pub proof fn lemma_keys_split(index: Seq<(Seq<char>, nat)>, n: nat, key: Seq<char>)
    requires
        n <= index.len(),
        key_seq(index).no_duplicates(),
    ensures
        has_key(index, key) <==> has_key(index.take(n as int), key) || has_key(
            index.skip(n as int),
            key,
        ),
        !(has_key(index.take(n as int), key) && has_key(index.skip(n as int), key)),
        key_seq(index.skip(n as int)).no_duplicates(),
        key_seq(index.take(n as int)).no_duplicates(),
{
    let keys = key_seq(index);
    let front = key_seq(index.take(n as int));
    let back = key_seq(index.skip(n as int));
    assert(front =~= keys.take(n as int));
    assert(back =~= keys.skip(n as int));
    if has_key(index, key) {
        let i = choose|i: int| 0 <= i < keys.len() && keys[i] == key;
        if i < n {
            assert(front[i] == key);
        } else {
            assert(back[i - n] == key);
        }
    }
    if has_key(index.take(n as int), key) {
        let i = choose|i: int| 0 <= i < front.len() && front[i] == key;
        if has_key(index.skip(n as int), key) {
            let j = choose|j: int| 0 <= j < back.len() && back[j] == key;
        }
    }
    if has_key(index.skip(n as int), key) {
        let j = choose|j: int| 0 <= j < back.len() && back[j] == key;
    }
}

/// Dropping oldest entries keeps a cache consistent.
pub proof fn lemma_drop_oldest_consistent(state: CacheState, n: nat)
    requires
        state.consistent(),
        n <= state.index.len(),
    ensures
        state.drop_oldest(n).consistent(),
        state.drop_oldest(n).current_size + released_by(state.index, n) == state.current_size,
{
    let after = state.drop_oldest(n);
    lemma_total_split(state.index, n);
    assert forall|k: Seq<char>| after.store.dom().contains(k) <==> key_seq(after.index).to_set().contains(k) by {
        lemma_keys_split(state.index, n, k);
    }
    lemma_keys_split(state.index, n, Seq::empty());
    assert forall|i: int| 0 <= i < after.index.len() implies (#[trigger] after.index[i]).1
        == accounted_size(after.index[i].0, after.store[after.index[i].0]) by {
        let entry = state.index[i + n];
        assert(key_seq(after.index)[i] == entry.0);
        lemma_keys_split(state.index, n, entry.0);
    }
}

/// Dropping no entry leaves a cache as it is.
pub proof fn lemma_drop_none(state: CacheState)
    ensures
        state.drop_oldest(0) == state,
{
    let after = state.drop_oldest(0);
    assert(after.index =~= state.index);
    assert(after.store =~= state.store);
}

/// One step of an eviction pass: after `k` of the oldest entries the next
/// to leave is the entry at `k`. With it, what has been released grows by
/// its size and stays within the accounted size, and the store without the
/// first `k` keys and without this one is the store without the first
/// `k + 1` keys.
pub proof fn lemma_evict_step(state: CacheState, k: nat)
    requires
        state.consistent(),
        k < state.index.len(),
    ensures
        state.index.skip(k as int)[0] == state.index[k as int],
        state.index.skip(k as int).skip(1) == state.index.skip(k as int + 1),
        released_by(state.index, k + 1) == released_by(state.index, k) + state.index[k as int].1,
        released_by(state.index, k + 1) <= state.current_size,
        state.store.remove_keys(key_seq(state.index.take(k as int)).to_set()).remove(
            state.index[k as int].0,
        ) == state.store.remove_keys(key_seq(state.index.take(k as int + 1)).to_set()),
{
    let index = state.index;
    let key = index[k as int].0;
    lemma_released_step(index, k);
    lemma_released_monotonic(index, k + 1, index.len());
    assert(index.take(index.len() as int) =~= index);
    let shorter = key_seq(index.take(k as int));
    let longer = key_seq(index.take(k as int + 1));
    assert(longer =~= shorter.push(key));
    assert forall|x: Seq<char>| longer.to_set().contains(x) <==> shorter.to_set().contains(x) || x
        == key by {
        if shorter.contains(x) {
            let i = choose|i: int| 0 <= i < shorter.len() && shorter[i] == x;
            assert(longer[i] == x);
        }
        if x == key {
            assert(longer[k as int] == x);
        }
    }
}

/// A pass that has dropped `n` entries and finds no more has run out; one
/// that meets the target with the `n`-th entry, and with none before, has
/// dropped the eviction count.
pub proof fn lemma_evict_done(index: Seq<(Seq<char>, nat)>, target: nat, n: nat, ran_out: bool)
    requires
        n <= index.len(),
        forall|m: nat| 1 <= m < n ==> !meets(index, target, m),
        if ran_out {
            n == index.len() && !meets(index, target, n)
        } else {
            meets(index, target, n)
        },
    ensures
        ran_out == exhausts(index, target),
        n == evict_count(index, target),
        released_by(index, n) <= total_size(index),
{
    lemma_released_monotonic(index, n, index.len());
    assert(index.take(index.len() as int) =~= index);
    if !ran_out {
        lemma_evict_count_is(index, target, n);
    }
}

/// A consistent cache lists as many keys as it stores payloads.
pub proof fn lemma_counts_agree(state: CacheState)
    requires
        state.consistent(),
    ensures
        state.store.dom().finite(),
        state.index.len() == state.store.dom().len(),
{
    key_seq(state.index).unique_seq_to_set();
}

/// A key that is not cached is not cached after an eviction pass either.
pub proof fn lemma_evicted_keeps_absent(state: CacheState, size: nat, key: Seq<char>)
    requires
        state.consistent(),
        !state.contains(key),
    ensures
        !state.evicted(size).contains(key),
{
    let n = state.evictions_for(size);
    lemma_evict_count(state.index, state.release_target(size));
    lemma_keys_split(state.index, n, key);
}

/// The keys of an index with one more entry are the keys of the index and
/// the key of the entry.
pub proof fn lemma_keys_push(index: Seq<(Seq<char>, nat)>, entry: (Seq<char>, nat), key: Seq<char>)
    ensures
        key_seq(index.push(entry)) == key_seq(index).push(entry.0),
        has_key(index.push(entry), key) <==> has_key(index, key) || key == entry.0,
{
    let longer = key_seq(index.push(entry));
    assert(longer =~= key_seq(index).push(entry.0));
    if has_key(index, key) {
        let i = choose|i: int| 0 <= i < index.len() && key_seq(index)[i] == key;
        assert(longer[i] == key);
    }
    if key == entry.0 {
        assert(longer[index.len() as int] == key);
    }
}

/// Appending an entry under a key that is not cached keeps a cache
/// consistent.
pub proof fn lemma_inserted_consistent(state: CacheState, key: Seq<char>, payload: Seq<u8>)
    requires
        state.consistent(),
        !state.contains(key),
    ensures
        state.inserted(key, payload).consistent(),
{
    let after = state.inserted(key, payload);
    let entry = (key, accounted_size(key, payload));
    lemma_total_push(state.index, entry);
    lemma_keys_push(state.index, entry, key);
    assert forall|k: Seq<char>| after.store.dom().contains(k) <==> key_seq(
        after.index,
    ).to_set().contains(k) by {
        lemma_keys_push(state.index, entry, k);
    }
    assert forall|i: int| 0 <= i < after.index.len() implies (#[trigger] after.index[i]).1
        == accounted_size(after.index[i].0, after.store[after.index[i].0]) by {
        if i < state.index.len() {
            assert(key_seq(state.index)[i] == state.index[i].0);
        }
    }
}

} // verus!
