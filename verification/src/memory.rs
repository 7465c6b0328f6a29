use vstd::prelude::*;

verus! {

/// A bounded pool of bytes from which leases are reserved.
pub struct MemoryPool {
    capacity: usize,
    used: usize,
    id: Ghost<int>,
}

/// Bytes reserved from a [`MemoryPool`]; they go back to that pool, and to no
/// other, when the lease is released. Dropping a lease does not return its
/// bytes: they stay lent, and later reservations see them as in use, until
/// the lease is handed to `release`.
pub struct MemoryLease {
    size: usize,
    pool: Ghost<int>,
}

/// The outcome of a poll: either a value is ready, or the caller must wait
/// until the pool is notified of released bytes.
#[derive(Debug, PartialEq, Eq, Structural)]
pub enum Poll<T> {
    Ready(T),
    Pending,
}

impl MemoryLease {
    /// The number of bytes held by the lease.
    pub closed spec fn bytes(&self) -> nat {
        self.size as nat
    }

    /// The identity of the pool the lease was reserved from.
    pub closed spec fn pool_id(&self) -> int {
        self.pool@
    }

    /// The number of bytes held by the lease.
    pub fn size(&self) -> (r: usize)
        ensures
            r == self.bytes(),
    {
        self.size
    }
}

impl MemoryPool {
    /// The pool's counts are machine integers.
    pub proof fn lemma_bounds(&self)
        ensures
            self.total() <= usize::MAX,
            self.in_use() <= usize::MAX,
            self.wf() ==> self.in_use() <= self.total(),
    {
    }

    /// Total number of bytes the pool can lend.
    pub closed spec fn total(&self) -> nat {
        self.capacity as nat
    }

    /// Number of bytes currently lent out.
    pub closed spec fn in_use(&self) -> nat {
        self.used as nat
    }

    /// The identity of the pool, which its leases carry.
    pub closed spec fn id(&self) -> int {
        self.id@
    }

    pub closed spec fn wf(&self) -> bool {
        self.used <= self.capacity
    }

    /// Number of bytes that can still be reserved.
    pub open spec fn free(&self) -> nat {
        (self.total() - self.in_use()) as nat
    }

    /// A pool of `capacity` bytes, none of them reserved.
    pub fn with_capacity(capacity: usize) -> (pool: MemoryPool)
        ensures
            pool.wf(),
            pool.total() == capacity,
            pool.in_use() == 0,
    {
        MemoryPool { capacity, used: 0, id: Ghost(arbitrary()) }
    }

    /// Total number of bytes the pool can lend.
    pub fn capacity(&self) -> (r: usize)
        ensures
            r == self.total(),
    {
        self.capacity
    }

    /// Number of bytes currently lent out.
    pub fn used(&self) -> (r: usize)
        ensures
            r == self.in_use(),
    {
        self.used
    }

    /// Number of bytes that can still be reserved.
    pub fn available(&self) -> (r: usize)
        requires
            self.wf(),
        ensures
            r == self.free(),
    {
        self.capacity - self.used
    }

    /// Reserves `size` bytes if the pool has them free; otherwise the caller has
    /// to wait for released bytes.
    pub fn poll_reserve(&mut self, size: usize) -> (r: Poll<MemoryLease>)
        requires
            old(self).wf(),
        ensures
            final(self).wf(),
            final(self).total() == old(self).total(),
            final(self).id() == old(self).id(),
            size <= old(self).free() ==> (r matches Poll::Ready(lease) && lease.bytes() == size
                && lease.pool_id() == old(self).id() && final(self).in_use() == old(self).in_use() + size),
            size > old(self).free() ==> (r is Pending && final(self).in_use() == old(self).in_use()),
    {
        if size <= self.capacity - self.used {
            self.used = self.used + size;
            Poll::Ready(MemoryLease { size, pool: Ghost(self.id@) })
        } else {
            Poll::Pending
        }
    }

    /// Returns the bytes of `lease` to the pool.
    pub fn release(&mut self, lease: MemoryLease)
        requires
            old(self).wf(),
            lease.bytes() <= old(self).in_use(),
            lease.pool_id() == old(self).id(),
        ensures
            final(self).wf(),
            final(self).total() == old(self).total(),
            final(self).id() == old(self).id(),
            final(self).in_use() == old(self).in_use() - lease.bytes(),
    {
        self.used = self.used - lease.size;
    }

    /// Gives `bytes` of `lease` back to the pool, keeping the rest.
    pub fn shrink(&mut self, lease: &mut MemoryLease, bytes: usize)
        requires
            old(self).wf(),
            bytes <= old(lease).bytes(),
            old(lease).bytes() <= old(self).in_use(),
            old(lease).pool_id() == old(self).id(),
        ensures
            final(self).wf(),
            final(self).total() == old(self).total(),
            final(self).id() == old(self).id(),
            final(self).in_use() == old(self).in_use() - bytes,
            final(lease).bytes() == old(lease).bytes() - bytes,
            final(lease).pool_id() == old(lease).pool_id(),
    {
        lease.size = lease.size - bytes;
        self.used = self.used - bytes;
    }

    /// Grows `lease` by `bytes` if the pool has them free; leaves everything
    /// unchanged otherwise.
    pub fn try_grow(&mut self, lease: &mut MemoryLease, bytes: usize) -> (grown: bool)
        requires
            old(self).wf(),
            old(lease).bytes() <= old(self).in_use(),
            old(lease).pool_id() == old(self).id(),
        ensures
            final(self).wf(),
            final(self).total() == old(self).total(),
            final(self).id() == old(self).id(),
            grown == (bytes <= old(self).free()),
            final(lease).pool_id() == old(lease).pool_id(),
            grown ==> final(self).in_use() == old(self).in_use() + bytes
                && final(lease).bytes() == old(lease).bytes() + bytes,
            !grown ==> final(self).in_use() == old(self).in_use()
                && final(lease).bytes() == old(lease).bytes(),
    {
        if bytes <= self.capacity - self.used {
            self.used = self.used + bytes;
            lease.size = lease.size + bytes;
            true
        } else {
            false
        }
    }
}

} // verus!
