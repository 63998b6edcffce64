//! The errors of the cache.

use vstd::prelude::*;

verus! {

/// Why a byte range cannot be cut out of a payload.
#[derive(Debug, Clone, Copy, PartialEq, Eq, Structural)]
pub enum RangeError {
    /// The range ends behind the end of the payload.
    OutOfRange,
    /// The range starts behind its own end.
    BadRange,
}

impl RangeError {
    pub fn message(&self) -> (text: &'static str)
        ensures
            text@ == match *self {
                RangeError::OutOfRange => "Out of range"@,
                RangeError::BadRange => "Bad range"@,
            },
    {
        match self {
            RangeError::OutOfRange => "Out of range",
            RangeError::BadRange => "Bad range",
        }
    }
}

/// Why `set` could not store an entry.
#[derive(Debug, Clone, Copy, PartialEq, Eq, Structural)]
pub enum CacheError {
    /// The bookkeeping could not be completed: a counter would leave the
    /// range of `usize`, or the key was still listed when it was to be
    /// appended.
    Internal,
}

impl CacheError {
    pub fn message(&self) -> (text: &'static str)
        ensures
            text@ == "memory cache bookkeeping failed"@,
    {
        "memory cache bookkeeping failed"
    }
}

} // verus!
