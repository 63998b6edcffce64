//! The cache over a queue of keys, a table of sizes and a table of
//! payloads.

use crate::errors::CacheError;
use crate::errors::RangeError;
use crate::hash_tables::byte_entries;
use crate::hash_tables::byte_table_get;
use crate::hash_tables::byte_table_insert;
use crate::hash_tables::byte_table_len;
use crate::hash_tables::byte_table_remove;
use crate::hash_tables::byte_table_shrink_to_fit;
use crate::hash_tables::byte_table_with_capacity;
use crate::hash_tables::size_entries;
use crate::hash_tables::size_table_contains_key;
use crate::hash_tables::size_table_insert;
use crate::hash_tables::size_table_len;
use crate::hash_tables::size_table_remove;
use crate::hash_tables::size_table_with_capacity;
use crate::hash_tables::ByteTable;
use crate::hash_tables::SizeTable;
use crate::model::accounted_size;
use crate::model::evict_count;
use crate::model::exhausts;
use crate::model::key_seq;
use crate::model::lemma_counts_agree;
use crate::model::lemma_drop_none;
use crate::model::lemma_drop_oldest_consistent;
use crate::model::lemma_evict_done;
use crate::model::lemma_evict_step;
use crate::model::lemma_evicted_keeps_absent;
use crate::model::lemma_inserted_consistent;
use crate::model::lemma_keys_push;
use crate::model::lemma_keys_split;
use crate::model::meets;
use crate::model::need_release_size;
use crate::model::released_by;
use crate::model::CacheState;
use crate::model::MAX_SIZE;
use crate::model::RELEASE_SIZE;
use crate::outcome::outcome_of_storing;
use crate::outcome::SetOutcome;
use crate::payload::answer_contents;
use crate::payload::bytes_contents;
use crate::payload::bytes_len;
use crate::payload::download_payload;
use crate::payload::payload_from;
use crate::payload::range_bounds;
use crate::payload::sample_payload;
use crate::payload::slice_range;
use bytes::Bytes;
use std::collections::VecDeque;
use std::ops::Range;
use vstd::prelude::*;

verus! {

broadcast use vstd::slice::group_slice_axioms;

/// The room that the tables of a new cache are made with, in entries.
pub const INITIAL_ENTRIES: usize = 200000;

/// A bounded cache of byte payloads under string keys. A queue lists the
/// keys in the order of insertion and a table holds the accounted size of
/// each; a second table holds the payloads. When an entry would bring the
/// accounted size up to the capacity, the oldest entries leave first.
pub struct FileData {
    max_size: usize,
    release_size: usize,
    cur_size: usize,
    data: VecDeque<String>,
    size_data: SizeTable,
    files: ByteTable,
}

/// The recency index that a queue of keys and a table of sizes make up.
pub open spec fn listed(keys: Seq<String>, sizes: Map<Seq<char>, nat>) -> Seq<(Seq<char>, nat)> {
    Seq::new(keys.len(), |i: int| (keys[i]@, sizes[keys[i]@]))
}

impl View for FileData {
    type V = CacheState;

    closed spec fn view(&self) -> CacheState {
        CacheState {
            capacity: self.max_size as nat,
            release: self.release_size as nat,
            current_size: self.cur_size as nat,
            index: listed(self.data@, size_entries(self.size_data)),
            store: byte_entries(self.files),
        }
    }
}

impl Default for FileData {
    fn default() -> (files: Self)
        ensures
            files.wf(),
            files@ == CacheState::empty(MAX_SIZE as nat, RELEASE_SIZE as nat),
    {
        Self::new()
    }
}

impl FileData {
    /// The queue lists no key twice, and the size table holds exactly the
    /// keys of the queue.
    pub closed spec fn index_wf(&self) -> bool {
        &&& key_seq(self@.index).no_duplicates()
        &&& size_entries(self.size_data).dom() =~= key_seq(self@.index).to_set()
    }

    /// Queue, tables and counter agree.
    /// Every cache that `new`, `with_capacity` or `with_limits` returns is
    /// well formed, and every function of this module leaves it so.
    pub closed spec fn wf(&self) -> bool {
        self@.consistent() && self.index_wf()
    }

    /// A well-formed cache is consistent: what holds of consistent cache
    /// states holds of it.
    pub proof fn lemma_wf_consistent(&self)
        requires
            self.wf(),
        ensures
            self@.consistent(),
    {
    }

    /// An empty cache with the default capacity and release threshold.
    pub fn new() -> (files: FileData)
        ensures
            files.wf(),
            files@ == CacheState::empty(MAX_SIZE as nat, RELEASE_SIZE as nat),
    {
        FileData::with_capacity(MAX_SIZE)
    }

    /// An empty cache of capacity `max_size` with the default release
    /// threshold.
    pub fn with_capacity(max_size: usize) -> (files: FileData)
        ensures
            files.wf(),
            files@ == CacheState::empty(max_size as nat, RELEASE_SIZE as nat),
    {
        FileData::with_limits(max_size, RELEASE_SIZE)
    }

    /// An empty cache of capacity `max_size` whose eviction passes aim to
    /// release `release_size` bytes at least.
    pub fn with_limits(max_size: usize, release_size: usize) -> (files: FileData)
        ensures
            files.wf(),
            files@ == CacheState::empty(max_size as nat, release_size as nat),
    {
        let files = FileData {
            max_size,
            release_size,
            cur_size: 0,
            data: VecDeque::with_capacity(INITIAL_ENTRIES),
            size_data: size_table_with_capacity(INITIAL_ENTRIES),
            files: byte_table_with_capacity(INITIAL_ENTRIES),
        };
        proof {
            assert(files@.index =~= Seq::empty());
            assert(files@.store =~= Map::empty());
        }
        files
    }

    /// Whether `file` is cached: membership in the recency index.
    pub fn exist(&self, file: &str) -> (found: bool)
        requires
            self.wf(),
        ensures
            found == self@.contains(file@),
    {
        size_table_contains_key(&self.size_data, file)
    }

    /// The payload stored under `file`, whole or the part `range` of it, as
    /// a handle on the stored bytes. The recency index is not touched.
    pub fn get(&self, file: &str, range: Option<Range<usize>>) -> (r: Result<
        Option<Bytes>,
        RangeError,
    >)
        ensures
            answer_contents(r) == self@.lookup(file@, range_bounds(range)),
    {
        let data = byte_table_get(&self.files, file);
        match data {
            None => Ok(None),
            Some(data) => match range {
                Some(range) => match slice_range(&data, range) {
                    Ok(part) => Ok(Some(part)),
                    Err(e) => Err(e),
                },
                None => Ok(Some(data)),
            },
        }
    }

    /// Removes the oldest line of the recency index, key and size, and
    /// returns it, or returns `None` where the index is empty. The byte
    /// store and the counter stay as they are.
    fn _pop(&mut self) -> (oldest: Option<(String, usize)>)
        requires
            old(self).index_wf(),
        ensures
            final(self).index_wf(),
            final(self)@.capacity == old(self)@.capacity,
            final(self)@.release == old(self)@.release,
            final(self)@.current_size == old(self)@.current_size,
            final(self)@.store == old(self)@.store,
            match oldest {
                Some((key, size)) => {
                    &&& old(self)@.index.len() > 0
                    &&& old(self)@.index[0] == (key@, size as nat)
                    &&& final(self)@.index == old(self)@.index.skip(1)
                },
                None => {
                    &&& old(self)@.index.len() == 0
                    &&& final(self)@.index == old(self)@.index
                },
            },
    {
        let ghost before = self@.index;
        match self.data.pop_front() {
            None => None,
            Some(key) => {
                proof {
                    assert(key_seq(before)[0] == key@);
                }
                let size = size_table_remove(&mut self.size_data, key.as_str()).unwrap();
                proof {
                    let after = self@.index;
                    assert forall|i: int| 0 <= i < after.len() implies after[i] == before[i
                        + 1] by {
                        assert(key_seq(before)[i + 1] == before[i + 1].0);
                    }
                    assert(after =~= before.skip(1));
                    lemma_keys_split(before, 1, key@);
                    assert forall|k: Seq<char>|
                        size_entries(self.size_data).dom().contains(k) <==> key_seq(
                            after,
                        ).to_set().contains(k) by {
                        lemma_keys_split(before, 1, k);
                        if k == key@ {
                            assert(key_seq(before.take(1))[0] == k);
                        }
                    }
                }
                Some((key, size))
            },
        }
    }

    /// Appends a line to the recency index as its newest, key and size.
    /// Fails, and changes nothing, where the key is listed already. The
    /// byte store and the counter stay as they are.
    fn _push(&mut self, file: &str, size: usize) -> (r: Result<(), CacheError>)
        requires
            old(self).index_wf(),
        ensures
            final(self).index_wf(),
            final(self)@.capacity == old(self)@.capacity,
            final(self)@.release == old(self)@.release,
            final(self)@.current_size == old(self)@.current_size,
            final(self)@.store == old(self)@.store,
            if old(self)@.contains(file@) {
                r == Err::<(), CacheError>(CacheError::Internal) && final(self)@.index == old(
                    self,
                )@.index
            } else {
                r is Ok && final(self)@.index == old(self)@.index.push((file@, size as nat))
            },
    {
        if size_table_contains_key(&self.size_data, file) {
            return Err(CacheError::Internal);
        }
        let ghost before = self@.index;
        self.data.push_back(file.to_owned());
        size_table_insert(&mut self.size_data, file.to_owned(), size);
        proof {
            let after = self@.index;
            assert forall|i: int| 0 <= i < before.len() implies after[i] == before[i] by {
                // the size of an older key is not touched: the keys differ
                assert(key_seq(before)[i] == before[i].0);
            }
            assert(after =~= before.push((file@, size as nat)));
            lemma_keys_push(before, (file@, size as nat), file@);
            assert forall|k: Seq<char>|
                size_entries(self.size_data).dom().contains(k) <==> key_seq(after).to_set().contains(
                    k,
                ) by {
                lemma_keys_push(before, (file@, size as nat), k);
            }
        }
        Ok(())
    }

    /// Stores `data` under `file`, after an eviction pass where the entry
    /// would bring the accounted size up to the capacity. The session label
    /// names the caller and takes no part in the result.
    ///
    /// Fails, and changes nothing, where the counters would leave `usize`.
    /// Fails after the eviction pass where the key is then still listed.
    pub fn set(&mut self, _session_id: &str, file: &str, data: Bytes) -> (r: Result<
        SetOutcome,
        CacheError,
    >)
        requires
            old(self).wf(),
        ensures
            final(self).wf(),
            ({
                let before = old(self)@;
                let size = accounted_size(file@, bytes_contents(data));
                let room = before.evicted(size);
                if !before.within_limits(size) {
                    r == Err::<SetOutcome, CacheError>(CacheError::Internal) && final(self)@
                        == before
                } else if room.contains(file@) {
                    r == Err::<SetOutcome, CacheError>(CacheError::Internal) && final(self)@
                        == room
                } else {
                    r == Ok::<SetOutcome, CacheError>(outcome_of_storing(before, size))
                        && final(self)@ == room.inserted(file@, bytes_contents(data))
                }
            }),
    {
        let ghost before = self@;
        let ghost size = accounted_size(file@, bytes_contents(data));
        let key_len = file.as_bytes().len();
        let data_len = bytes_len(&data);
        if key_len > usize::MAX - data_len {
            return Err(CacheError::Internal);
        }
        let data_size = key_len + data_len;
        if data_size > usize::MAX - self.cur_size {
            return Err(CacheError::Internal);
        }
        if self.data.len() == usize::MAX {
            return Err(CacheError::Internal);
        }
        let mut outcome = SetOutcome::Stored;
        if self.cur_size + data_size >= self.max_size {
            // cache is full, need release some space
            let need_release_size = need_release_size(
                self.max_size,
                self.release_size,
                data_size,
            );
            let ghost target = before.release_target(size);
            let mut release_size: usize = 0;
            let mut evicted: usize = 0;
            let mut exhausted = false;
            loop
                invariant_except_break
                    !exhausted,
                    forall|m: nat| 1 <= m <= evicted ==> !meets(before.index, target, m),
                invariant
                    before.consistent(),
                    before.index.len() <= usize::MAX,
                    need_release_size == target,
                    self.index_wf(),
                    self.max_size == before.capacity,
                    self.release_size == before.release,
                    self.cur_size == before.current_size,
                    evicted <= before.index.len(),
                    self@.index == before.index.skip(evicted as int),
                    self@.store == before.store.remove_keys(
                        key_seq(before.index.take(evicted as int)).to_set(),
                    ),
                    release_size == released_by(before.index, evicted as nat),
                ensures
                    self.index_wf(),
                    evicted == evict_count(before.index, target),
                    exhausted == exhausts(before.index, target),
                    release_size <= before.current_size,
                decreases before.index.len() - evicted,
            {
                let item = self._pop();
                match item {
                    None => {
                        // the index ran out before the target was released
                        exhausted = true;
                        proof {
                            lemma_evict_done(before.index, target, evicted as nat, true);
                        }
                        break ;
                    },
                    Some((key, entry_size)) => {
                        proof {
                            lemma_evict_step(before, evicted as nat);
                        }
                        // remove file from data cache
                        byte_table_remove(&mut self.files, key.as_str());
                        release_size += entry_size;
                        evicted += 1;
                        if release_size >= need_release_size {
                            proof {
                                lemma_evict_done(before.index, target, evicted as nat, false);
                            }
                            break ;
                        }
                    },
                }
            }
            proof {
                lemma_drop_oldest_consistent(before, evicted as nat);
            }
            self.cur_size -= release_size;
            byte_table_shrink_to_fit(&mut self.files);
            outcome = SetOutcome::StoredAfterEviction { evicted, released: release_size, exhausted };
        } else {
            proof {
                lemma_drop_none(before);
            }
        }
        let ghost room = before.evicted(size);
        match self._push(file, data_size) {
            Err(e) => {
                return Err(e);
            },
            Ok(()) => {},
        }
        proof {
            lemma_inserted_consistent(room, file@, bytes_contents(data));
        }
        self.cur_size += data_size;
        // write file into cache
        byte_table_insert(&mut self.files, file.to_owned(), data);
        Ok(outcome)
    }

    /// The number of keys in the queue, of sizes in the size table and of
    /// payloads in the byte store. In a well-formed cache the three are
    /// equal.
    pub fn len(&self) -> (counts: (usize, usize, usize))
        ensures
            counts.0 == self@.index.len(),
            counts.2 == self@.store.dom().len(),
            self.wf() ==> counts.0 == counts.1 && counts.1 == counts.2,
    {
        proof {
            if self.wf() {
                lemma_counts_agree(self@);
            }
        }
        (self.data.len(), size_table_len(&self.size_data), byte_table_len(&self.files))
    }

    /// The capacity in bytes.
    pub fn max_size(&self) -> (n: usize)
        ensures
            n == self@.capacity,
    {
        self.max_size
    }

    /// The release threshold in bytes.
    pub fn release_size(&self) -> (n: usize)
        ensures
            n == self@.release,
    {
        self.release_size
    }

    /// The accounted size of all cached entries.
    pub fn cur_size(&self) -> (n: usize)
        ensures
            n == self@.current_size,
    {
        self.cur_size
    }
}

/// The payload stored under `file`, whole or the part `range` of it.
/// Nothing is returned for a key that is not stored, whatever the range; a
/// range that does not lie within the payload is an error.
pub fn get(files: &FileData, file: &str, range: Option<Range<usize>>) -> (r: Result<
    Option<Bytes>,
    RangeError,
>)
    ensures
        answer_contents(r) == files@.lookup(file@, range_bounds(range)),
{
    files.get(file, range)
}

/// Whether `file` is cached.
pub fn exist(files: &FileData, file: &str) -> (found: bool)
    requires
        files.wf(),
    ensures
        found == files@.contains(file@),
{
    files.exist(file)
}

/// Caches `data` under `file`. Where the key is cached already nothing
/// changes, and the payload given is dropped. Else the entry is stored as
/// `FileData::set` stores it.
///
/// Fails, and changes nothing, where the key is new and the counters would
/// leave `usize`.
pub fn set(files: &mut FileData, session_id: &str, file: &str, data: Bytes) -> (r: Result<
    SetOutcome,
    CacheError,
>)
    requires
        old(files).wf(),
    ensures
        final(files).wf(),
        ({
            let before = old(files)@;
            let size = accounted_size(file@, bytes_contents(data));
            if before.contains(file@) {
                r == Ok::<SetOutcome, CacheError>(SetOutcome::AlreadyCached) && final(files)@
                    == before
            } else if !before.within_limits(size) {
                r == Err::<SetOutcome, CacheError>(CacheError::Internal) && final(files)@
                    == before
            } else {
                r == Ok::<SetOutcome, CacheError>(outcome_of_storing(before, size))
                    && final(files)@ == before.stored(file@, bytes_contents(data))
            }
        }),
        final(files)@ == old(files)@.after_set(file@, bytes_contents(data)) || r is Err,
{
    if files.exist(file) {
        return Ok(SetOutcome::AlreadyCached);
    }
    proof {
        let size = accounted_size(file@, bytes_contents(data));
        lemma_evicted_keeps_absent(files@, size, file@);
    }
    files.set(session_id, file, data)
}

/// The number of keys in the queue, of sizes in the size table and of
/// payloads in the byte store: equal, the cache being well formed.
pub fn len(files: &FileData) -> (counts: (usize, usize, usize))
    requires
        files.wf(),
    ensures
        counts.0 == files@.index.len(),
        counts.2 == files@.store.dom().len(),
        counts.0 == counts.1,
        counts.1 == counts.2,
{
    files.len()
}

/// Stands for a download: caches the sample payload under `file`, as `set`
/// does.
pub fn download(files: &mut FileData, session_id: &str, file: &str) -> (r: Result<
    SetOutcome,
    CacheError,
>)
    requires
        old(files).wf(),
    ensures
        final(files).wf(),
        ({
            let before = old(files)@;
            let size = accounted_size(file@, download_payload());
            if before.contains(file@) {
                r == Ok::<SetOutcome, CacheError>(SetOutcome::AlreadyCached) && final(files)@
                    == before
            } else if !before.within_limits(size) {
                r == Err::<SetOutcome, CacheError>(CacheError::Internal) && final(files)@
                    == before
            } else {
                r == Ok::<SetOutcome, CacheError>(outcome_of_storing(before, size))
                    && final(files)@ == before.stored(file@, download_payload())
            }
        }),
{
    let data = payload_from(sample_payload());
    set(files, session_id, file, data)
}

/// Checks the cache. There is nothing to check: queue and tables agree by
/// construction.
pub fn check() -> (r: Result<(), CacheError>)
    ensures
        r is Ok,
{
    Ok(())
}

} // verus!
