//! The metadata store kept in etcd.

use vstd::prelude::*;

verus! {

/// A metadata store that keeps its tables under the prefix `"etcd"`.
pub struct EtcdDb {
    prefix: String,
}

impl View for EtcdDb {
    type V = Seq<char>;

    /// The table prefix.
    closed spec fn view(&self) -> Seq<char> {
        self.prefix@
    }
}

impl EtcdDb {
    pub fn new() -> (db: Self)
        ensures
            db@ == "etcd"@,
    {
        Self { prefix: "etcd".to_string() }
    }

    pub fn prefix(&self) -> (p: &str)
        ensures
            p@ == self@,
    {
        self.prefix.as_str()
    }
}

impl Default for EtcdDb {
    fn default() -> (db: Self)
        ensures
            db@ == "etcd"@,
    {
        Self::new()
    }
}

} // verus!
