//! What holds of the cache model: consistency of index and store, the
//! capacity bound, idempotence of `set`, read after write, the order of
//! eviction, and what a miss looks like.

use crate::model::accounted_size;
use crate::model::exhausts;
use crate::model::key_seq;
use crate::model::lemma_counts_agree;
use crate::model::lemma_drop_oldest_consistent;
use crate::model::lemma_evict_count;
use crate::model::lemma_evicted_keeps_absent;
use crate::model::lemma_inserted_consistent;
use crate::model::lemma_keys_split;
use crate::model::lemma_released_monotonic;
use crate::model::meets;
use crate::model::released_by;
use crate::model::CacheState;
use vstd::prelude::*;
use vstd::utf8::encode_scalar;

verus! {

/// The cache that results from an empty one of the given limits by one `set`
/// for each pair of key and payload in `calls`, in their order.
pub open spec fn replay(capacity: nat, release: nat, calls: Seq<(Seq<char>, Seq<u8>)>) -> CacheState
    decreases calls.len(),
{
    if calls.len() == 0 {
        CacheState::empty(capacity, release)
    } else {
        replay(capacity, release, calls.drop_last()).after_set(calls.last().0, calls.last().1)
    }
}

/// `set` never changes the limits that a cache was made with.
pub proof fn law_limits_stay(capacity: nat, release: nat, calls: Seq<(Seq<char>, Seq<u8>)>)
    ensures
        replay(capacity, release, calls).capacity == capacity,
        replay(capacity, release, calls).release == release,
    decreases calls.len(),
{
    if calls.len() > 0 {
        law_limits_stay(capacity, release, calls.drop_last());
    }
}

/// An empty cache is consistent.
pub proof fn law_empty_consistent(capacity: nat, release: nat)
    ensures
        CacheState::empty(capacity, release).consistent(),
{
}

/// An eviction pass keeps a cache consistent, removes no more entries than
/// there are, and lowers the accounted size by what the removed entries
/// held.
pub proof fn law_evicted_consistent(state: CacheState, size: nat)
    requires
        state.consistent(),
    ensures
        state.evicted(size).consistent(),
        state.evictions_for(size) <= state.index.len(),
        state.evicted(size).current_size + released_by(state.index, state.evictions_for(size))
            == state.current_size,
{
    lemma_evict_count(state.index, state.release_target(size));
    lemma_drop_oldest_consistent(state, state.evictions_for(size));
}

/// `set` keeps a cache consistent: index, store and counter agree after it
/// as they did before.
pub proof fn law_set_keeps_consistent(state: CacheState, key: Seq<char>, payload: Seq<u8>)
    requires
        state.consistent(),
    ensures
        state.after_set(key, payload).consistent(),
{
    if !state.contains(key) {
        let size = accounted_size(key, payload);
        law_evicted_consistent(state, size);
        lemma_evicted_keeps_absent(state, size, key);
        lemma_inserted_consistent(state.evicted(size), key, payload);
    }
}

/// Metadata and data agree after any sequence of `set` calls on an empty
/// cache: the recency index lists as many keys as the byte store holds
/// payloads.
pub proof fn law_counts_agree(capacity: nat, release: nat, calls: Seq<(Seq<char>, Seq<u8>)>)
    ensures
        replay(capacity, release, calls).consistent(),
        replay(capacity, release, calls).store.dom().finite(),
        replay(capacity, release, calls).index.len() == replay(
            capacity,
            release,
            calls,
        ).store.dom().len(),
    decreases calls.len(),
{
    if calls.len() == 0 {
        law_empty_consistent(capacity, release);
    } else {
        law_counts_agree(capacity, release, calls.drop_last());
        law_set_keeps_consistent(
            replay(capacity, release, calls.drop_last()),
            calls.last().0,
            calls.last().1,
        );
    }
    lemma_counts_agree(replay(capacity, release, calls));
}

/// Capacity bound, one call: where the accounted size is within the
/// capacity before a `set`, it is so after it, unless the new entry alone
/// is accounted above the capacity; and where the entry is new and so
/// large, the size after the call is above the capacity whatever was
/// evicted.
pub proof fn law_capacity_bound_step(state: CacheState, key: Seq<char>, payload: Seq<u8>)
    requires
        state.consistent(),
        state.current_size <= state.capacity,
    ensures
        accounted_size(key, payload) <= state.capacity ==> state.after_set(
            key,
            payload,
        ).current_size <= state.capacity,
        !state.contains(key) && accounted_size(key, payload) > state.capacity ==> state.after_set(
            key,
            payload,
        ).current_size > state.capacity,
{
    let size = accounted_size(key, payload);
    if !state.contains(key) {
        // the pass releases its target unless it runs out, and the target of
        // an entry within the capacity is no less than the entry
        law_evicted_consistent(state, size);
        lemma_evict_count(state.index, state.release_target(size));
    }
}

/// Capacity soft-bound: after each of any sequence of `set` calls on an
/// empty cache, the accounted size is within the capacity, provided that
/// each entry's accounted size, key and payload together, is.
pub proof fn law_capacity_bound(capacity: nat, release: nat, calls: Seq<(Seq<char>, Seq<u8>)>)
    requires
        forall|i: int|
            0 <= i < calls.len() ==> accounted_size(
                (#[trigger] calls[i]).0,
                calls[i].1,
            ) <= capacity,
    ensures
        replay(capacity, release, calls).current_size <= capacity,
    decreases calls.len(),
{
    if calls.len() > 0 {
        let earlier = calls.drop_last();
        assert forall|i: int| 0 <= i < earlier.len() implies accounted_size(
            (#[trigger] earlier[i]).0,
            earlier[i].1,
        ) <= capacity by {
            assert(earlier[i] == calls[i]);
        }
        law_capacity_bound(capacity, release, earlier);
        law_counts_agree(capacity, release, earlier);
        law_limits_stay(capacity, release, earlier);
        law_capacity_bound_step(replay(capacity, release, earlier), calls.last().0, calls.last().1);
    }
}

/// An entry that is accounted with no bytes has the empty key.
pub proof fn lemma_empty_entry_has_empty_key(key: Seq<char>, payload: Seq<u8>)
    requires
        accounted_size(key, payload) == 0,
    ensures
        key == Seq::<char>::empty(),
        payload.len() == 0,
{
    // each character takes a byte at least
    if key.len() > 0 {
        assert(encode_scalar(key[0] as u32).len() >= 1);
    }
}

/// What `set` keeps true of a cache besides its consistency: a cache of no
/// capacity holds one entry at most, and where the accounted size is above
/// the capacity, the newest entry alone accounts for all of it.
pub open spec fn settled(state: CacheState) -> bool {
    &&& state.consistent()
    &&& state.capacity == 0 ==> state.index.len() <= 1
    &&& state.current_size > state.capacity ==> state.index.len() > 0 && state.index.last().1
        == state.current_size
}

/// In a cache whose newest entry accounts for all of its size, the entries
/// before it release nothing.
proof fn lemma_only_newest_counts(state: CacheState, n: nat)
    requires
        state.consistent(),
        state.index.len() > 0,
        state.index.last().1 == state.current_size,
        n < state.index.len(),
    ensures
        released_by(state.index, n) == 0,
{
    let older = state.index.drop_last();
    assert(older.take(n as int) =~= state.index.take(n as int));
    lemma_released_monotonic(older, n, older.len());
    assert(older.take(older.len() as int) =~= older);
}

/// `set` keeps a cache settled, and a new entry that is accounted within
/// the capacity leaves the accounted size within the capacity.
pub proof fn law_set_keeps_settled(state: CacheState, key: Seq<char>, payload: Seq<u8>)
    requires
        settled(state),
    ensures
        settled(state.after_set(key, payload)),
        !state.contains(key) && accounted_size(key, payload) <= state.capacity
            ==> state.after_set(key, payload).current_size <= state.capacity,
{
    law_set_keeps_consistent(state, key, payload);
    let size = accounted_size(key, payload);
    let index = state.index;
    if !state.contains(key) && state.is_full_for(size) {
        let target = state.release_target(size);
        let n = state.evictions_for(size);
        law_evicted_consistent(state, size);
        lemma_evict_count(index, target);
        if !exhausts(index, target) {
            lemma_released_monotonic(index, n, index.len());
            if state.current_size > state.capacity && n < index.len() {
                // The entries that leave release nothing, so the target is
                // nothing: the new entry is empty, and so is the oldest. Both
                // have the empty key then, and the key would be listed.
                lemma_only_newest_counts(state, n);
                assert(meets(index, target, 1));
                lemma_empty_entry_has_empty_key(key, payload);
                assert(key_seq(index)[0] == index[0].0);
                lemma_empty_entry_has_empty_key(index[0].0, state.store[index[0].0]);
            }
        }
    }
}

/// Every cache that `set` calls have made from an empty one is settled.
pub proof fn law_replay_settled(capacity: nat, release: nat, calls: Seq<(Seq<char>, Seq<u8>)>)
    ensures
        settled(replay(capacity, release, calls)),
    decreases calls.len(),
{
    if calls.len() == 0 {
        law_empty_consistent(capacity, release);
    } else {
        law_replay_settled(capacity, release, calls.drop_last());
        law_set_keeps_settled(
            replay(capacity, release, calls.drop_last()),
            calls.last().0,
            calls.last().1,
        );
    }
}

/// Capacity soft-bound, whatever came before: after any sequence of `set`
/// calls on an empty cache, a `set` that stores a new entry accounted within
/// the capacity leaves the accounted size within the capacity, and one that
/// stores a new entry accounted above the capacity leaves it above.
pub proof fn law_capacity_soft_bound(
    capacity: nat,
    release: nat,
    calls: Seq<(Seq<char>, Seq<u8>)>,
    key: Seq<char>,
    payload: Seq<u8>,
)
    requires
        !replay(capacity, release, calls).contains(key),
    ensures
        accounted_size(key, payload) <= capacity ==> replay(capacity, release, calls).after_set(
            key,
            payload,
        ).current_size <= capacity,
        accounted_size(key, payload) > capacity ==> replay(capacity, release, calls).after_set(
            key,
            payload,
        ).current_size > capacity,
{
    law_replay_settled(capacity, release, calls);
    law_limits_stay(capacity, release, calls);
    law_set_keeps_settled(replay(capacity, release, calls), key, payload);
}

/// Idempotent `set`: a key that was set is cached, so a second `set` under
/// it, with whatever payload, leaves the cache as the first left it.
pub proof fn law_set_idempotent(
    state: CacheState,
    key: Seq<char>,
    first: Seq<u8>,
    second: Seq<u8>,
)
    ensures
        state.after_set(key, first).contains(key),
        state.after_set(key, first).after_set(key, second) == state.after_set(key, first),
{
    if !state.contains(key) {
        let after = state.after_set(key, first);
        let at = after.index.len() - 1;
        assert(key_seq(after.index)[at] == key);
    }
}

/// Read after write: once `set` has stored a payload under a key, `get`
/// without a range returns that payload. For a key that was cached already
/// this holds where the cached payload is the one given, since `set` then
/// changes nothing.
pub proof fn law_read_after_write(state: CacheState, key: Seq<char>, payload: Seq<u8>)
    requires
        state.consistent(),
        state.contains(key) ==> state.store[key] == payload,
    ensures
        state.after_set(key, payload).lookup(key, None) == Ok::<
            Option<Seq<u8>>,
            crate::errors::RangeError,
        >(Some(payload)),
{
}

/// Eviction removes the oldest first: where an entry outlasts an eviction
/// pass, so does every entry that was inserted after it, with its payload.
pub proof fn law_eviction_oldest_first(state: CacheState, size: nat, older: int, younger: int)
    requires
        state.consistent(),
        0 <= older <= younger < state.index.len(),
        state.evicted(size).contains(state.index[older].0),
    ensures
        state.evicted(size).contains(state.index[younger].0),
        state.evicted(size).store.dom().contains(state.index[younger].0),
        state.evicted(size).store[state.index[younger].0] == state.store[state.index[younger].0],
{
    let n = state.evictions_for(size);
    law_evicted_consistent(state, size);
    let after = state.evicted(size);
    lemma_keys_split(state.index, n, state.index[older].0);
    lemma_keys_split(state.index, n, state.index[younger].0);
    if older < n {
        assert(key_seq(state.index.take(n as int))[older] == state.index[older].0);
    }
    assert(key_seq(after.index)[younger - n] == state.index[younger].0);
}

/// What an eviction pass removes is a run of the oldest entries: the index
/// after it is the index before it without its first entries, and each key
/// of those is neither listed nor stored any more.
pub proof fn law_eviction_takes_prefix(state: CacheState, size: nat, i: int)
    requires
        state.consistent(),
        0 <= i < state.evictions_for(size),
    ensures
        state.evictions_for(size) <= state.index.len(),
        state.evicted(size).index == state.index.skip(state.evictions_for(size) as int),
        !state.evicted(size).contains(state.index[i].0),
        !state.evicted(size).store.dom().contains(state.index[i].0),
{
    let n = state.evictions_for(size);
    law_evicted_consistent(state, size);
    lemma_keys_split(state.index, n, state.index[i].0);
    assert(key_seq(state.index.take(n as int))[i] == state.index[i].0);
}

/// An eviction pass stops as soon as it has released its target: it removes
/// at least one entry where there is one, and without its last removal it
/// would have released less than the target.
pub proof fn law_eviction_is_minimal(state: CacheState, size: nat)
    requires
        state.consistent(),
        state.is_full_for(size),
    ensures
        state.index.len() > 0 ==> state.evictions_for(size) >= 1,
        forall|fewer: nat|
            1 <= fewer < state.evictions_for(size) ==> released_by(state.index, fewer)
                < state.release_target(size),
        state.degrades_for(size) <==> state.index.len() == 0 || state.current_size
            < state.release_target(size),
{
    let target = state.release_target(size);
    let n = state.evictions_for(size);
    lemma_evict_count(state.index, target);
    assert(state.index.take(state.index.len() as int) =~= state.index);
    assert forall|fewer: nat| 1 <= fewer < n implies released_by(state.index, fewer) < target by {
        assert(!meets(state.index, target, fewer));
    }
    if state.index.len() > 0 && state.current_size >= target {
        assert(meets(state.index, target, state.index.len()));
    }
    if !exhausts(state.index, target) {
        lemma_released_monotonic(state.index, n, state.index.len());
    }
}

/// Degraded eviction: where the pass before a new entry runs out of entries,
/// the entry is stored all the same, and the cache then holds it alone.
pub proof fn law_degraded_leaves_newest_alone(state: CacheState, key: Seq<char>, payload: Seq<u8>)
    requires
        state.consistent(),
        !state.contains(key),
        state.degrades_for(accounted_size(key, payload)),
    ensures
        state.after_set(key, payload).index == seq![(key, accounted_size(key, payload))],
        state.after_set(key, payload).store == Map::<Seq<char>, Seq<u8>>::empty().insert(
            key,
            payload,
        ),
        state.after_set(key, payload).current_size == accounted_size(key, payload),
{
    law_evicted_consistent(state, accounted_size(key, payload));
}

/// Miss semantics: a key that is not cached is not stored, and `get`
/// answers with nothing, whatever the range.
pub proof fn law_miss(state: CacheState, key: Seq<char>, range: Option<(int, int)>)
    requires
        state.consistent(),
        !state.contains(key),
    ensures
        !state.store.dom().contains(key),
        state.lookup(key, range) == Ok::<Option<Seq<u8>>, crate::errors::RangeError>(None),
{
}

} // verus!
