use bytes::Bytes;
use memory_cache::errors::CacheError;
use memory_cache::errors::RangeError;
use memory_cache::memory_v1;
use memory_cache::memory_v1::FileData;
use memory_cache::outcome::SetOutcome;

fn payload(n: usize) -> Bytes {
    Bytes::from(vec![7u8; n])
}

#[test]
fn new_cache_is_empty_with_default_limits() {
    let files = FileData::new();
    assert_eq!(files.max_size(), 1024 * 1024 * 1024);
    assert_eq!(files.release_size(), 1024 * 1024 * 100);
    assert_eq!(files.cur_size(), 0);
    assert_eq!(memory_v1::len(&files), (0, 0));
    let files = FileData::default();
    assert_eq!(files.max_size(), 1024 * 1024 * 1024);
}

#[test]
fn read_after_write() {
    let mut files = FileData::with_capacity(1000);
    let b = Bytes::from("some bytes");
    assert_eq!(memory_v1::set(&mut files, "s", "k", b.clone()), Ok(SetOutcome::Stored));
    assert_eq!(memory_v1::get(&files, "k", None), Ok(Some(b)));
    assert!(memory_v1::exist(&files, "k"));
}

#[test]
fn accounted_size_counts_key_and_payload() {
    let mut files = FileData::with_capacity(1000);
    memory_v1::set(&mut files, "s", "key", payload(10)).unwrap();
    assert_eq!(files.cur_size(), 13);
    // a key of two characters and three bytes
    memory_v1::set(&mut files, "s", "é!", payload(1)).unwrap();
    assert_eq!(files.cur_size(), 13 + 3 + 1);
}

#[test]
fn set_is_idempotent() {
    let mut files = FileData::with_capacity(1000);
    let first = Bytes::from("first");
    memory_v1::set(&mut files, "s", "k", first.clone()).unwrap();
    let size = files.cur_size();
    assert_eq!(memory_v1::set(&mut files, "s", "k", first.clone()), Ok(SetOutcome::AlreadyCached));
    assert_eq!(files.cur_size(), size);
    assert_eq!(memory_v1::set(&mut files, "s", "k", Bytes::from("second")), Ok(SetOutcome::AlreadyCached));
    assert_eq!(files.cur_size(), size);
    assert_eq!(memory_v1::get(&files, "k", None), Ok(Some(first)));
    assert_eq!(memory_v1::len(&files), (1, 1));
}

#[test]
fn eviction_removes_oldest_first() {
    let mut files = FileData::with_limits(1000, 10);
    memory_v1::set(&mut files, "s", "A", payload(499)).unwrap();
    memory_v1::set(&mut files, "s", "B", payload(494)).unwrap();
    // reading A does not make it younger
    assert!(memory_v1::get(&files, "A", None).unwrap().is_some());
    assert!(memory_v1::get(&files, "A", None).unwrap().is_some());
    let outcome = memory_v1::set(&mut files, "s", "C", payload(4)).unwrap();
    assert_eq!(
        outcome,
        SetOutcome::StoredAfterEviction { evicted: 1, released: 500, exhausted: false }
    );
    assert!(!memory_v1::exist(&files, "A"));
    assert_eq!(memory_v1::get(&files, "A", None), Ok(None));
    assert!(memory_v1::exist(&files, "B"));
    assert!(memory_v1::exist(&files, "C"));
    assert_eq!(files.cur_size(), 495 + 5);
    assert_eq!(memory_v1::len(&files), (2, 2));
}

#[test]
fn release_target_is_a_hundred_times_the_entry() {
    // entries of 10 bytes; the entry that fills the cache asks for 100 * 10
    // bytes, capped by nothing: capacity 5000, threshold 10
    let mut files = FileData::with_limits(5000, 10);
    for i in 0..499 {
        let key = format!("{:04}", i);
        assert_eq!(memory_v1::set(&mut files, "s", &key, payload(6)), Ok(SetOutcome::Stored));
    }
    assert_eq!(files.cur_size(), 4990);
    let outcome = memory_v1::set(&mut files, "s", "last", payload(6)).unwrap();
    assert_eq!(
        outcome,
        SetOutcome::StoredAfterEviction { evicted: 100, released: 1000, exhausted: false }
    );
    assert_eq!(files.cur_size(), 4000);
    assert_eq!(memory_v1::len(&files), (400, 400));
    assert!(!memory_v1::exist(&files, "0099"));
    assert!(memory_v1::exist(&files, "0100"));
}

#[test]
fn release_target_is_at_least_the_threshold() {
    let mut files = FileData::with_limits(991, 300);
    for i in 0..9 {
        let key = format!("{}", i);
        memory_v1::set(&mut files, "s", &key, payload(109)).unwrap();
    }
    assert_eq!(files.cur_size(), 990);
    // one byte of key, no payload: a hundred times the size is 100, the
    // threshold is 300, so three entries of 110 bytes leave
    let outcome = memory_v1::set(&mut files, "s", "x", Bytes::new()).unwrap();
    assert_eq!(
        outcome,
        SetOutcome::StoredAfterEviction { evicted: 3, released: 330, exhausted: false }
    );
    assert_eq!(files.cur_size(), 661);
}

#[test]
fn release_target_is_at_most_the_capacity() {
    let mut files = FileData::with_limits(100, 1000);
    memory_v1::set(&mut files, "s", "a", payload(49)).unwrap();
    memory_v1::set(&mut files, "s", "b", payload(48)).unwrap();
    assert_eq!(files.cur_size(), 99);
    // the target is the capacity, 100: both entries leave and the index
    // runs out at 99 bytes
    let outcome = memory_v1::set(&mut files, "s", "c", payload(1)).unwrap();
    assert_eq!(
        outcome,
        SetOutcome::StoredAfterEviction { evicted: 2, released: 99, exhausted: true }
    );
    assert_eq!(files.cur_size(), 2);
    assert_eq!(memory_v1::len(&files), (1, 1));
}

#[test]
fn eviction_starts_when_the_size_reaches_the_capacity() {
    let mut files = FileData::with_limits(101, 1);
    // 99 bytes, then 100: below the capacity
    assert_eq!(memory_v1::set(&mut files, "s", "a", payload(98)), Ok(SetOutcome::Stored));
    assert_eq!(memory_v1::set(&mut files, "s", "b", Bytes::new()), Ok(SetOutcome::Stored));
    assert_eq!(files.cur_size(), 100);

    let mut files = FileData::with_limits(100, 1);
    assert_eq!(memory_v1::set(&mut files, "s", "a", payload(98)), Ok(SetOutcome::Stored));
    // 99 + 1 reaches the capacity; the target is 100 bytes and only 99 are there
    let outcome = memory_v1::set(&mut files, "s", "b", Bytes::new()).unwrap();
    assert_eq!(
        outcome,
        SetOutcome::StoredAfterEviction { evicted: 1, released: 99, exhausted: true }
    );
    assert_eq!(files.cur_size(), 1);
}

#[test]
fn degraded_eviction_is_flagged_and_the_entry_is_stored() {
    let mut files = FileData::with_limits(10, 1);
    let big = payload(50);
    let outcome = memory_v1::set(&mut files, "s", "big", big.clone()).unwrap();
    assert_eq!(
        outcome,
        SetOutcome::StoredAfterEviction { evicted: 0, released: 0, exhausted: true }
    );
    assert_eq!(files.cur_size(), 53);
    assert!(files.cur_size() > files.max_size());
    assert_eq!(memory_v1::get(&files, "big", None), Ok(Some(big)));
    assert_eq!(memory_v1::len(&files), (1, 1));
}

#[test]
fn capacity_bound_holds_for_entries_within_the_capacity() {
    let mut files = FileData::with_limits(200, 20);
    for i in 0..300usize {
        let key = format!("k{}", i);
        let data = payload((i * 37) % 150);
        memory_v1::set(&mut files, "s", &key, data).unwrap();
        assert!(files.cur_size() <= files.max_size());
        let counts = memory_v1::len(&files);
        assert_eq!(counts.0, counts.1);
    }
}

#[test]
fn range_slicing() {
    let mut files = FileData::with_capacity(1000);
    memory_v1::set(&mut files, "s", "k", Bytes::from("0123456789")).unwrap();
    assert_eq!(memory_v1::get(&files, "k", Some(2..5)), Ok(Some(Bytes::from("234"))));
    assert_eq!(memory_v1::get(&files, "k", Some(0..10)), Ok(Some(Bytes::from("0123456789"))));
    assert_eq!(memory_v1::get(&files, "k", Some(10..10)), Ok(Some(Bytes::new())));
    assert_eq!(memory_v1::get(&files, "k", Some(0..11)), Err(RangeError::OutOfRange));
    assert_eq!(memory_v1::get(&files, "k", Some(5..2)), Err(RangeError::BadRange));
    assert_eq!(memory_v1::get(&files, "k", Some(12..11)), Err(RangeError::OutOfRange));
}

#[test]
fn miss_semantics() {
    let files = FileData::new();
    assert_eq!(memory_v1::get(&files, "missing", None), Ok(None));
    assert_eq!(memory_v1::get(&files, "missing", Some(5..2)), Ok(None));
    assert!(!memory_v1::exist(&files, "missing"));
}

#[test]
fn storing_a_listed_key_is_an_internal_error() {
    let mut files = FileData::with_capacity(1000);
    assert_eq!(files.set("s", "k", payload(3)), Ok(SetOutcome::Stored));
    assert_eq!(files.set("s", "k", payload(3)), Err(CacheError::Internal));
    assert_eq!(files.cur_size(), 4);
    assert_eq!(files.len(), (1, 1));
}

#[test]
fn download_caches_the_sample_payload() {
    let mut files = FileData::new();
    assert_eq!(memory_v1::download(&mut files, "test", "test.parquet"), Ok(SetOutcome::Stored));
    let expected = Bytes::from("DATA.DATA.".repeat(10240));
    assert_eq!(memory_v1::get(&files, "test.parquet", None), Ok(Some(expected)));
    assert_eq!(files.cur_size(), 102400 + 12);
    assert_eq!(memory_v1::download(&mut files, "test", "test.parquet"), Ok(SetOutcome::AlreadyCached));
    assert_eq!(memory_v1::len(&files), (1, 1));
}

#[test]
fn check_has_nothing_to_report() {
    assert_eq!(memory_v1::check(), Ok(()));
}

#[test]
fn error_messages() {
    assert_eq!(RangeError::OutOfRange.message(), "Out of range");
    assert_eq!(RangeError::BadRange.message(), "Bad range");
    assert_eq!(CacheError::Internal.message(), "memory cache bookkeeping failed");
}
