use memory_cache::hash::cityhash;
use memory_cache::hash::fnv::new_default_hasher;
use memory_cache::hash::fnv::Fnv64a;
use memory_cache::hash::hash::Hasher;
use memory_cache::hash::Sum64;

#[test]
fn city_hash_of_world() {
    let mut h = cityhash::new();
    assert_eq!(h.sum64("world"), 16436542438370751598);
    assert_eq!(h.sum64("world"), 16436542438370751598);
    assert_eq!(h.sum64("hello"), 13009744463427800296);
}

#[test]
fn fnv_of_empty_key_is_offset_basis() {
    let h = Fnv64a::new();
    assert_eq!(h.sum64(""), 14695981039346656037);
}

#[test]
fn fnv_known_values() {
    let h = Fnv64a::new();
    assert_eq!(h.sum64("a"), 0xaf63dc4c8601ec8c);
    assert_eq!(h.sum64("foobar"), 0x85944171f73967e8);
}

#[test]
fn default_hasher_is_fnv() {
    let h = new_default_hasher();
    assert_eq!(h.sum64(""), 14695981039346656037);
    assert_eq!(h.sum64("a"), 0xaf63dc4c8601ec8c);
    assert_eq!(h.sum64("foobar"), Fnv64a::new().sum64("foobar"));
}

#[test]
fn fnv_buckets() {
    let h = new_default_hasher();
    let sum = h.sum64("foobar");
    assert_eq!(h.bucket_v1("foobar", 10, 0), sum % 10);
    assert_eq!(h.get_bucket_mask(16), 15);
    assert_eq!(h.bucket_v2("foobar", 16, 15), sum & 15);
}
