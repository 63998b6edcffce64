[package]
name = "memory_cache"
version = "0.1.0"
edition = "2021"
publish = false

[dependencies]
ahash = "=0.8.12"
allocator-api2 = "=0.2.21"
anyhow = "=1.0.104"
async-nats = "*"
async-trait = "=0.1.92"
bytes = "=1.12.1"
cityhasher = "=0.1.0"
dashmap = "=5.5.3"
flatten-json-object = "=0.6.1"
futures = "0.3"
hashbrown = "=0.14.5"
lru = "=0.12.5"
memchr = "=2.8.3"
once_cell = "=1.21.4"
parking_lot = "=0.12.5"
promql-parser = "=0.11.1"
rand = "=0.8.8"
rs-snowflake = "=0.6.0"
serde = "=1.0.229"
serde_json = "=1.0.154"
simd-json = "=0.18.1"
snafu = "=0.7.5"
thiserror = "=1.0.69"
tokio = { version = "=1.54.1", features = ["sync", "rt-multi-thread", "macros"] }
xxhash-rust = { version = "=0.8.19", features = ["xxh3"] }
