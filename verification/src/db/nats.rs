//! The metadata store kept in NATS.

use vstd::prelude::*;

verus! {

/// A metadata store that keeps its tables under the prefix `"nats"`.
pub struct NatsDb {
    prefix: String,
}

impl View for NatsDb {
    type V = Seq<char>;

    /// The table prefix.
    closed spec fn view(&self) -> Seq<char> {
        self.prefix@
    }
}

impl NatsDb {
    pub fn new() -> (db: Self)
        ensures
            db@ == "nats"@,
    {
        Self { prefix: "nats".to_string() }
    }

    pub fn prefix(&self) -> (p: &str)
        ensures
            p@ == self@,
    {
        self.prefix.as_str()
    }
}

impl Default for NatsDb {
    fn default() -> (db: Self)
        ensures
            db@ == "nats"@,
    {
        Self::new()
    }
}

} // verus!
