//! A bounded in-memory cache of byte payloads, with the small tools that
//! live beside it.
//!
//! The cache keeps payloads under string keys up to a capacity in accounted
//! bytes and evicts the oldest entries first. [`model`] states what the
//! cache is and does as a mathematical state; [`laws`] proves what holds of
//! that state; [`memory_v1`] and [`memory_v3`] are two caches that behave as
//! the model says, the first over an LRU list and a sharded map, the second
//! over a queue and two hash tables.

pub mod dash_store;
pub mod db;
pub mod dist_lock;
pub mod errors;
pub mod find;
pub mod flatten;
pub mod hash;
pub mod hash_tables;
pub mod laws;
pub mod lru_index;
pub mod memory_v1;
pub mod memory_v3;
pub mod model;
pub mod outcome;
pub mod payload;
pub mod print_format;
pub mod print_options;
