use vstd::prelude::*;

use crate::memory::MemoryLease;

verus! {

/// Leases pre-reserved for specific vqueues, held in a `hashbrown::HashMap`
/// keyed by the vqueue handle. The wrappers below state what `new`, `insert`
/// and `remove` do to the stored leases; they leave unsaid that growing the
/// table aborts or panics when memory or the capacity computation runs out.
#[verifier::external_body]
pub struct LeaseMap {
    map: hashbrown::HashMap<u64, MemoryLease>,
}

/// The number of bytes of the lease stored under each handle of the map.
pub uninterp spec fn lease_map_sizes(m: LeaseMap) -> Map<u64, nat>;

/// The pool of the lease stored under each handle of the map.
pub uninterp spec fn lease_map_pools(m: LeaseMap) -> Map<u64, int>;

impl LeaseMap {
    /// `hashbrown::HashMap::new`: the map starts empty.
    #[verifier::external_body]
    pub fn new() -> (fresh: LeaseMap)
        ensures
            lease_map_sizes(fresh).dom().is_empty(),
            lease_map_pools(fresh).dom().is_empty(),
    {
        LeaseMap { map: hashbrown::HashMap::new() }
    }

    /// `hashbrown::HashMap::insert`: stores `lease` under `key`, replacing and
    /// handing back the lease stored there before, if any.
    #[verifier::external_body]
    pub fn insert(&mut self, key: u64, lease: MemoryLease) -> (prev: Option<MemoryLease>)
        ensures
            lease_map_sizes(*final(self)) == lease_map_sizes(*old(self)).insert(key, lease.bytes()),
            lease_map_pools(*final(self)) == lease_map_pools(*old(self)).insert(key, lease.pool_id()),
            match prev {
                Some(p) => lease_map_sizes(*old(self)).contains_key(key)
                    && p.bytes() == lease_map_sizes(*old(self))[key]
                    && lease_map_pools(*old(self)).contains_key(key)
                    && p.pool_id() == lease_map_pools(*old(self))[key],
                None => !lease_map_sizes(*old(self)).contains_key(key)
                    && !lease_map_pools(*old(self)).contains_key(key),
            },
    {
        self.map.insert(key, lease)
    }

    /// `hashbrown::HashMap::remove`: takes the lease stored under `key` out of
    /// the map, if any.
    #[verifier::external_body]
    pub fn remove(&mut self, key: u64) -> (removed: Option<MemoryLease>)
        ensures
            lease_map_sizes(*final(self)) == lease_map_sizes(*old(self)).remove(key),
            lease_map_pools(*final(self)) == lease_map_pools(*old(self)).remove(key),
            match removed {
                Some(l) => lease_map_sizes(*old(self)).contains_key(key)
                    && l.bytes() == lease_map_sizes(*old(self))[key]
                    && lease_map_pools(*old(self)).contains_key(key)
                    && l.pool_id() == lease_map_pools(*old(self))[key],
                None => !lease_map_sizes(*old(self)).contains_key(key)
                    && !lease_map_pools(*old(self)).contains_key(key),
            },
    {
        self.map.remove(&key)
    }
}

} // verus!
