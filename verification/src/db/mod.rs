//! The metadata stores.

use vstd::prelude::*;

pub mod etcd;
pub mod nats;

verus! {

/// A write that asks for change notification.
pub const NEED_WATCH: bool = true;

/// A write that asks for none.
pub const NO_NEED_WATCH: bool = false;

/// One of the metadata stores.
pub enum DbEnum {
    EtcdDb(etcd::EtcdDb),
    NatsDb(nats::NatsDb),
}

impl DbEnum {
    /// The store of the given name: the one under `"nats"` for that name,
    /// and the one under `"etcd"` for every other.
    pub fn named(meta_store: &str) -> (db: DbEnum)
        ensures
            meta_store@ == "nats"@ ==> db is NatsDb && db->NatsDb_0@ == "nats"@,
            meta_store@ != "nats"@ ==> db is EtcdDb && db->EtcdDb_0@ == "etcd"@,
    {
        if meta_store.to_owned() == "nats".to_owned() {
            DbEnum::NatsDb(nats::NatsDb::default())
        } else {
            DbEnum::EtcdDb(etcd::EtcdDb::default())
        }
    }

    /// The table prefix of the store that this value holds.
    pub fn prefix(&self) -> (p: &str)
        ensures
            p@ == match self {
                DbEnum::EtcdDb(db) => db@,
                DbEnum::NatsDb(db) => db@,
            },
    {
        match self {
            DbEnum::EtcdDb(db) => db.prefix(),
            DbEnum::NatsDb(db) => db.prefix(),
        }
    }
}

} // verus!
