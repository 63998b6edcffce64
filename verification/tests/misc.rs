use memory_cache::db::etcd::EtcdDb;
use memory_cache::db::nats::NatsDb;
use memory_cache::db::DbEnum;
use memory_cache::dist_lock::next_action;
use memory_cache::dist_lock::LockAction;
use memory_cache::find::find;
use memory_cache::flatten::char_action;
use memory_cache::flatten::flatten;
use memory_cache::flatten::format_key;
use memory_cache::flatten::CharAction;
use memory_cache::flatten::FlattenError;
use memory_cache::flatten::Node;
use memory_cache::model::need_release_size;
use memory_cache::payload::payload_from;
use memory_cache::payload::slice_range;
use memory_cache::payload::slice_ranges;
use memory_cache::errors::RangeError;
use memory_cache::print_format::PrintFormat;
use memory_cache::print_options::row_label;
use memory_cache::print_options::PrintOptions;

#[test]
fn format_key_keeps_clean_keys() {
    assert_eq!(format_key("abc_123"), "abc_123");
    assert_eq!(format_key(""), "");
    assert_eq!(format_key("_"), "_");
}

#[test]
fn format_key_lowers_and_replaces() {
    assert_eq!(format_key("Hello World"), "hello_world");
    assert_eq!(format_key("kubernetes.container_name"), "kubernetes_container_name");
    assert_eq!(format_key("a-b/C"), "a_b_c");
    assert_eq!(format_key("ÄB9"), "äb9");
}

#[test]
fn char_action_by_case() {
    assert_eq!(char_action(true, false, false), CharAction::Keep);
    assert_eq!(char_action(false, true, false), CharAction::Keep);
    assert_eq!(char_action(true, false, true), CharAction::Keep);
    assert_eq!(char_action(false, false, true), CharAction::Lower);
    assert_eq!(char_action(false, false, false), CharAction::Underscore);
}

fn entry(key: &str, handle: usize) -> (String, usize) {
    (key.to_string(), handle)
}

#[test]
fn flatten_joins_formatted_keys() {
    let record = Node::Object(vec![
        (
            "Key".to_string(),
            Node::Object(vec![
                ("A".to_string(), Node::Array(Some(0))),
                ("b c".to_string(), Node::Leaf(1)),
                ("Deep".to_string(), Node::Object(vec![("X".to_string(), Node::Leaf(2))])),
            ]),
        ),
        ("x".to_string(), Node::Leaf(3)),
    ]);
    assert_eq!(
        flatten(&record),
        Ok(vec![entry("key_a", 0), entry("key_b_c", 1), entry("key_deep_x", 2), entry("x", 3)])
    );
}

#[test]
fn flatten_skips_empty_arrays_and_objects() {
    let record = Node::Object(vec![
        ("e".to_string(), Node::Array(None)),
        ("o".to_string(), Node::Object(vec![])),
        ("v".to_string(), Node::Leaf(7)),
    ]);
    assert_eq!(flatten(&record), Ok(vec![entry("v", 7)]));
    assert_eq!(flatten(&Node::Object(vec![])), Ok(vec![]));
}

#[test]
fn flatten_keeps_both_entries_of_a_path_that_comes_twice() {
    let record = Node::Object(vec![
        ("a".to_string(), Node::Object(vec![("b".to_string(), Node::Leaf(0))])),
        ("a_b".to_string(), Node::Leaf(1)),
        ("A_B".to_string(), Node::Leaf(2)),
    ]);
    assert_eq!(flatten(&record), Ok(vec![entry("a_b", 0), entry("a_b", 1), entry("a_b", 2)]));
}

#[test]
fn flatten_wants_an_object_at_the_top() {
    assert_eq!(flatten(&Node::Leaf(0)), Err(FlattenError::NotAnObject));
    assert_eq!(flatten(&Node::Array(None)), Err(FlattenError::NotAnObject));
    assert_eq!(flatten(&Node::Array(Some(0))), Err(FlattenError::NotAnObject));
    assert_eq!(FlattenError::NotAnObject.message(), "flatten value must be an object");
}

#[test]
fn find_needle() {
    assert!(find("foo bar baz", "bar"));
    assert!(find("foo bar baz", "foo"));
    assert!(find("foo bar baz", ""));
    assert!(!find("foo bar baz", "quux"));
    assert!(!find("", "a"));
    assert!(!find("ab", "abc"));
}

#[test]
fn slice_range_cuts_or_says_why() {
    let data = payload_from(vec![0, 1, 2, 3, 4]);
    assert_eq!(slice_range(&data, 1..3), Ok(payload_from(vec![1, 2])));
    assert_eq!(slice_range(&data, 5..5), Ok(payload_from(vec![])));
    assert_eq!(slice_range(&data, 0..6), Err(RangeError::OutOfRange));
    assert_eq!(slice_range(&data, 3..2), Err(RangeError::BadRange));
    assert_eq!(slice_range(&data, 7..6), Err(RangeError::OutOfRange));
}

#[test]
fn slice_ranges_cuts_all_or_fails_on_the_first() {
    let data = payload_from(vec![0, 1, 2, 3, 4]);
    assert_eq!(slice_ranges(&data, &[]), Ok(vec![]));
    assert_eq!(
        slice_ranges(&data, &[0..2, 2..5, 4..4]),
        Ok(vec![payload_from(vec![0, 1]), payload_from(vec![2, 3, 4]), payload_from(vec![])])
    );
    assert_eq!(slice_ranges(&data, &[0..2, 3..2, 0..9]), Err(RangeError::BadRange));
    assert_eq!(slice_ranges(&data, &[0..9, 3..2]), Err(RangeError::OutOfRange));
}

#[test]
fn release_target_is_clamped() {
    let mib = 1024 * 1024;
    // a hundred times a small entry is below the threshold
    assert_eq!(need_release_size(1024 * mib, 100 * mib, 10), 100 * mib);
    assert_eq!(need_release_size(1024 * mib, 100 * mib, mib), 100 * mib);
    // between threshold and capacity the target is a hundred times the entry
    assert_eq!(need_release_size(1024 * mib, 100 * mib, 2 * mib), 200 * mib);
    assert_eq!(need_release_size(1024 * mib, 100 * mib, mib + 1), 100 * mib + 100);
    // never more than the capacity
    assert_eq!(need_release_size(1024 * mib, 100 * mib, 20 * mib), 1024 * mib);
    assert_eq!(need_release_size(50 * mib, 100 * mib, 0), 50 * mib);
    assert_eq!(need_release_size(usize::MAX, 0, usize::MAX), usize::MAX);
    assert_eq!(need_release_size(0, 0, 0), 0);
    assert_eq!(need_release_size(10, 0, 0), 0);
}

#[test]
fn db_prefixes() {
    assert_eq!(EtcdDb::new().prefix(), "etcd");
    assert_eq!(NatsDb::new().prefix(), "nats");
    assert_eq!(EtcdDb::default().prefix(), "etcd");
    assert_eq!(NatsDb::default().prefix(), "nats");
    assert_eq!(DbEnum::EtcdDb(EtcdDb::new()).prefix(), "etcd");
    assert_eq!(DbEnum::NatsDb(NatsDb::new()).prefix(), "nats");
    assert_eq!(DbEnum::named("nats").prefix(), "nats");
    assert_eq!(DbEnum::named("etcd").prefix(), "etcd");
    assert_eq!(DbEnum::named("other").prefix(), "etcd");
    assert_eq!(DbEnum::named("").prefix(), "etcd");
}

#[test]
fn lock_retries_until_created_or_timed_out() {
    assert_eq!(next_action(true, None, 0), LockAction::Acquired);
    assert_eq!(next_action(true, Some(5), 9), LockAction::Acquired);
    assert_eq!(next_action(false, None, u128::MAX), LockAction::RetryAfter(100));
    assert_eq!(next_action(false, Some(5), 4), LockAction::RetryAfter(100));
    assert_eq!(next_action(false, Some(5), 5), LockAction::RetryAfter(100));
    assert_eq!(next_action(false, Some(5), 6), LockAction::TimedOut);
}

#[test]
fn print_helpers() {
    assert_eq!(PrintFormat::Csv.delimiter(), Some(b','));
    assert_eq!(PrintFormat::Tsv.delimiter(), Some(b'\t'));
    assert_eq!(PrintFormat::Table.delimiter(), None);
    assert_eq!(PrintFormat::Json.delimiter(), None);
    assert_eq!(PrintFormat::NdJson.delimiter(), None);
    assert_eq!(row_label(0), "rows");
    assert_eq!(row_label(1), "row");
    assert_eq!(row_label(2), "rows");
    let options = PrintOptions { format: PrintFormat::Table, quiet: false };
    assert_eq!(options.format, PrintFormat::Table);
    assert!(!options.quiet);
}
