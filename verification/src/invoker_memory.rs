use vstd::prelude::*;

use std::collections::VecDeque;

use crate::lease_map::{lease_map_pools, lease_map_sizes, LeaseMap};
use crate::memory::{MemoryLease, MemoryPool, Poll};

verus! {

/// Handle of a virtual queue, as the scheduler hands it to the limiter.
pub type VQueueHandle = u64;

/// Total number of bytes held by the leases of a map from handles to sizes.
pub open spec fn total_bytes(m: Map<u64, nat>) -> nat
    decreases m.dom().len(),
    when m.dom().finite()
{
    if m.dom().len() == 0 {
        0
    } else {
        let k = m.dom().choose();
        m[k] + total_bytes(m.remove(k))
    }
}

/// Removing one handle takes its bytes out of the total.
pub proof fn lemma_total_bytes_remove(m: Map<u64, nat>, k: u64)
    requires
        m.dom().finite(),
        m.contains_key(k),
    ensures
        total_bytes(m) == m[k] + total_bytes(m.remove(k)),
    decreases m.dom().len(),
{
    let c = m.dom().choose();
    assert(m.dom().contains(c));
    if c != k {
        let mc = m.remove(c);
        let mk = m.remove(k);
        assert(mc.dom() =~= m.dom().remove(c));
        assert(mk.dom() =~= m.dom().remove(k));
        lemma_total_bytes_remove(mc, k);
        lemma_total_bytes_remove(mk, c);
        assert(mc.remove(k) =~= mk.remove(c));
    }
}

/// Storing a lease under a fresh handle adds its bytes to the total.
pub proof fn lemma_total_bytes_insert(m: Map<u64, nat>, k: u64, v: nat)
    requires
        m.dom().finite(),
        !m.contains_key(k),
    ensures
        m.insert(k, v).dom().finite(),
        total_bytes(m.insert(k, v)) == v + total_bytes(m),
{
    let mi = m.insert(k, v);
    assert(mi.dom() =~= m.dom().insert(k));
    lemma_total_bytes_remove(mi, k);
    assert(mi.remove(k) =~= m);
}

/// The abstract state of an [`InvokerMemoryLimiter`].
#[verifier::ext_equal]
pub struct LimiterView {
    /// Size reserved for an invocation without a memory hint.
    pub initial_memory: nat,
    /// Bytes the pool can lend.
    pub capacity: nat,
    /// Bytes the pool has lent out, to handed-out and to pre-reserved leases.
    pub used: nat,
    /// Bytes of the leases handed out to callers and not released yet.
    pub leased: nat,
    /// Vqueues waiting for memory, in FIFO order, with the size each needs.
    pub waiters: Seq<(u64, usize)>,
    /// Bytes pre-reserved for each promised vqueue.
    pub pending: Map<u64, nat>,
    /// Identity of the pool the limiter lends from.
    pub pool: int,
}

/// `s.waiters` holds `h`.
pub open spec fn is_waiting(s: LimiterView, h: u64) -> bool {
    exists|i: int| 0 <= i < s.waiters.len() && #[trigger] s.waiters[i].0 == h
}

/// Every handle is tracked at most once: at most once among the waiters, and
/// never both waiting and holding a promised lease.
pub open spec fn tracked_once(s: LimiterView) -> bool {
    &&& forall|i: int, j: int|
        0 <= i < j < s.waiters.len() ==> #[trigger] s.waiters[i].0 != #[trigger] s.waiters[j].0
    &&& forall|i: int|
        0 <= i < s.waiters.len() ==> !s.pending.contains_key(#[trigger] s.waiters[i].0)
}

/// The standard FIFO path of a reservation: the caller joins the queue, and
/// only the head of the queue may take bytes from the pool.
pub open spec fn fifo_reserve(s: LimiterView, vqueue: u64, size: usize) -> (LimiterView, Option<nat>) {
    let queued = s.waiters.push((vqueue, size));
    if queued[0].0 != vqueue {
        (LimiterView { waiters: queued, ..s }, None)
    } else if size <= s.capacity - s.used {
        (
            LimiterView {
                waiters: queued.drop_first(),
                used: (s.used + size) as nat,
                leased: (s.leased + size) as nat,
                ..s
            },
            Some(size as nat),
        )
    } else {
        (LimiterView { waiters: queued, ..s }, None)
    }
}

/// A reservation of `size` bytes for `vqueue`: a lease promised to `vqueue`
/// is consumed first (shrunk or grown to `size`); if it cannot grow, its bytes
/// go back to the pool and the request takes the FIFO path.
pub open spec fn reserve(s: LimiterView, vqueue: u64, size: usize) -> (LimiterView, Option<nat>) {
    if s.pending.contains_key(vqueue) {
        let held = s.pending[vqueue];
        let s1 = LimiterView { pending: s.pending.remove(vqueue), ..s };
        if size <= held {
            (
                LimiterView {
                    used: (s.used - (held - size)) as nat,
                    leased: (s.leased + size) as nat,
                    ..s1
                },
                Some(size as nat),
            )
        } else if size - held <= s.capacity - s.used {
            (
                LimiterView { used: (s.used + (size - held)) as nat, leased: (s.leased + size) as nat, ..s1 },
                Some(size as nat),
            )
        } else {
            fifo_reserve(LimiterView { used: (s.used - held) as nat, ..s1 }, vqueue, size)
        }
    } else {
        fifo_reserve(s, vqueue, size)
    }
}

/// Pre-reservation for the head waiter: when the pool can lend the head's
/// bytes, the head leaves the queue and its lease is promised to it.
pub open spec fn head_step(s: LimiterView) -> (LimiterView, Poll<Option<u64>>) {
    if s.waiters.len() == 0 {
        (s, Poll::Ready(None))
    } else {
        let head = s.waiters[0].0;
        let size = s.waiters[0].1;
        if size <= s.capacity - s.used {
            let replaced: nat = if s.pending.contains_key(head) { s.pending[head] } else { 0 };
            (
                LimiterView {
                    waiters: s.waiters.drop_first(),
                    pending: s.pending.insert(head, size as nat),
                    used: (s.used + size - replaced) as nat,
                    ..s
                },
                Poll::Ready(Some(head)),
            )
        } else {
            (s, Poll::Pending)
        }
    }
}

/// Whether a waiter belongs to a vqueue other than `vqueue`.
pub open spec fn other_than(vqueue: u64) -> spec_fn((u64, usize)) -> bool {
    |e: (u64, usize)| e.0 != vqueue
}

/// Stops tracking `vqueue`: it leaves the waiters, and the bytes promised to
/// it go back to the pool.
pub open spec fn remove_step(s: LimiterView, vqueue: u64) -> LimiterView {
    let returned: nat = if s.pending.contains_key(vqueue) { s.pending[vqueue] } else { 0 };
    LimiterView {
        waiters: s.waiters.filter(other_than(vqueue)),
        pending: s.pending.remove(vqueue),
        used: (s.used - returned) as nat,
        ..s
    }
}

/// A handed-out lease of `bytes` bytes goes back to the pool.
pub open spec fn release_step(s: LimiterView, bytes: nat) -> LimiterView {
    LimiterView { used: (s.used - bytes) as nat, leased: (s.leased - bytes) as nat, ..s }
}

/// A call on the limiter, as the laws over sequences of calls see it.
pub enum LimiterOp {
    /// `poll_reserve` of a vqueue for a number of bytes.
    Reserve(u64, usize),
    /// `poll_head`.
    Head,
    /// `remove_from_waiters` of a vqueue.
    Remove(u64),
    /// `release` of a lease of a number of bytes.
    Release(nat),
}

/// The state after one call, and the vqueue that obtained memory by it: the
/// caller of a reservation that succeeded, or the head that was promised a
/// lease.
pub open spec fn limiter_step(s: LimiterView, op: LimiterOp) -> (LimiterView, Option<u64>) {
    match op {
        LimiterOp::Reserve(vqueue, size) => (
            reserve(s, vqueue, size).0,
            if reserve(s, vqueue, size).1 is Some { Some(vqueue) } else { None },
        ),
        LimiterOp::Head => (
            head_step(s).0,
            match head_step(s).1 {
                Poll::Ready(Some(h)) => Some(h),
                _ => None,
            },
        ),
        LimiterOp::Remove(vqueue) => (remove_step(s, vqueue), None),
        LimiterOp::Release(bytes) => (release_step(s, bytes), None),
    }
}

/// The state after a sequence of calls, and for each call the vqueue that
/// obtained memory by it.
pub open spec fn limiter_run(s: LimiterView, ops: Seq<LimiterOp>) -> (LimiterView, Seq<Option<u64>>)
    decreases ops.len(),
{
    if ops.len() == 0 {
        (s, Seq::<Option<u64>>::empty())
    } else {
        let next = limiter_step(s, ops[0]);
        let rest = limiter_run(next.0, ops.drop_first());
        (rest.0, seq![next.1] + rest.1)
    }
}

/// Whether a call meets what the limiter's methods require of it: a
/// reservation asks for some bytes, and a release returns no more bytes than
/// are leased.
pub open spec fn op_allowed(s: LimiterView, op: LimiterOp) -> bool {
    match op {
        LimiterOp::Reserve(_, size) => size > 0,
        LimiterOp::Release(bytes) => bytes <= s.leased,
        _ => true,
    }
}

/// Whether every call of a sequence meets what the limiter's methods require
/// of it, in the state the calls before it leave.
pub open spec fn run_allowed(s: LimiterView, ops: Seq<LimiterOp>) -> bool
    decreases ops.len(),
{
    ops.len() == 0 || (op_allowed(s, ops[0]) && run_allowed(limiter_step(s, ops[0]).0, ops.drop_first()))
}

/// Gates the start of invocations on the memory they need.
///
/// Waiters are served in FIFO order. When the head of the queue can be served,
/// [`InvokerMemoryLimiter::poll_head`] reserves its bytes and stores the lease
/// under the head's handle; only that vqueue can consume it, on its next
/// [`InvokerMemoryLimiter::poll_reserve`]. Other callers reserve their own
/// bytes through the FIFO path.
pub struct InvokerMemoryLimiter {
    initial_invocation_memory: usize,
    memory_pool: MemoryPool,
    leased: usize,
    waiters: VecDeque<(u64, usize)>,
    pending_leases: LeaseMap,
}

impl View for InvokerMemoryLimiter {
    type V = LimiterView;

    closed spec fn view(&self) -> LimiterView {
        LimiterView {
            initial_memory: self.initial_invocation_memory as nat,
            capacity: self.memory_pool.total(),
            used: self.memory_pool.in_use(),
            leased: self.leased as nat,
            waiters: self.waiters@,
            pending: lease_map_sizes(self.pending_leases),
            pool: self.memory_pool.id(),
        }
    }
}

/// The invariant of the limiter's abstract state: the pool never lends more
/// than it has, and every lent byte belongs either to a handed-out lease or to
/// a promised one.
pub open spec fn limiter_inv(s: LimiterView) -> bool {
    &&& s.used <= s.capacity
    &&& s.capacity <= usize::MAX
    &&& s.initial_memory > 0
    &&& forall|i: int| 0 <= i < s.waiters.len() ==> #[trigger] s.waiters[i].1 > 0
    &&& s.pending.dom().finite()
    &&& forall|k: u64| #[trigger] s.pending.contains_key(k) ==> s.pending[k] > 0
    &&& s.used == s.leased + total_bytes(s.pending)
}

impl InvokerMemoryLimiter {
    pub closed spec fn wf(&self) -> bool {
        &&& self.memory_pool.wf()
        &&& limiter_inv(self@)
        &&& forall|k: u64| #[trigger] lease_map_sizes(self.pending_leases).contains_key(k)
            ==> lease_map_pools(self.pending_leases).contains_key(k)
            && lease_map_pools(self.pending_leases)[k] == self.memory_pool.id()
    }

    /// A limiter that lends from `memory_pool` and reserves
    /// `initial_invocation_memory` bytes for an invocation without a hint.
    /// Bytes the pool has lent already count as leases handed out; they go
    /// back through [`InvokerMemoryLimiter::release`].
    pub fn new(memory_pool: MemoryPool, initial_invocation_memory: usize) -> (l: Self)
        requires
            memory_pool.wf(),
            initial_invocation_memory > 0,
        ensures
            l.wf(),
            l@.initial_memory == initial_invocation_memory,
            l@.capacity == memory_pool.total(),
            l@.used == memory_pool.in_use(),
            l@.leased == memory_pool.in_use(),
            l@.waiters == Seq::<(u64, usize)>::empty(),
            l@.pending == Map::<u64, nat>::empty(),
            l@.pool == memory_pool.id(),
    {
        let leased = memory_pool.used();
        let l = InvokerMemoryLimiter {
            initial_invocation_memory,
            memory_pool,
            leased,
            waiters: VecDeque::new(),
            pending_leases: LeaseMap::new(),
        };
        proof {
            l.memory_pool.lemma_bounds();
            assert(l@.pending.dom() =~= Set::<u64>::empty());
            assert(total_bytes(l@.pending) == 0);
        }
        l
    }

    /// Number of bytes the pool has lent out.
    pub fn used_bytes(&self) -> (r: usize)
        ensures
            r == self@.used,
    {
        self.memory_pool.used()
    }

    /// Number of bytes of handed-out leases not released yet.
    pub fn leased_bytes(&self) -> (r: usize)
        ensures
            r == self@.leased,
    {
        self.leased
    }

    /// Size to reserve for an invocation: the larger of the invoker-reported
    /// hint and the default floor.
    pub fn reservation_size(&self, memory_hint: Option<usize>) -> (r: usize)
        ensures
            r == match memory_hint {
                Some(hint) => if hint >= self@.initial_memory { hint as nat } else { self@.initial_memory },
                None => self@.initial_memory,
            },
    {
        match memory_hint {
            Some(hint) => if hint >= self.initial_invocation_memory {
                hint
            } else {
                self.initial_invocation_memory
            },
            None => self.initial_invocation_memory,
        }
    }

    /// Returns the bytes of a handed-out lease to the pool.
    pub fn release(&mut self, lease: MemoryLease)
        requires
            old(self).wf(),
            lease.bytes() <= old(self)@.leased,
            lease.pool_id() == old(self)@.pool,
        ensures
            final(self).wf(),
            final(self)@ == release_step(old(self)@, lease.bytes()),
    {
        let ghost s0 = self@;
        let size = lease.size();
        self.memory_pool.release(lease);
        self.leased = self.leased - size;
        proof {
            assert(self@ =~= release_step(s0, size as nat));
        }
    }

    /// Reserves `size` bytes for `vqueue`.
    ///
    /// A lease that [`InvokerMemoryLimiter::poll_head`] promised to `vqueue` is
    /// consumed first, shrunk or grown to `size`; when it cannot grow, its bytes
    /// return to the pool. Otherwise `vqueue` joins the FIFO of waiters and
    /// reserves from the pool only when it is the head; `None` means it has to
    /// wait its turn or for released bytes.
    pub fn poll_reserve(&mut self, vqueue: VQueueHandle, size: usize) -> (r: Option<MemoryLease>)
        requires
            old(self).wf(),
            size > 0,
        ensures
            final(self).wf(),
            final(self)@ == reserve(old(self)@, vqueue, size).0,
            match r {
                Some(lease) => reserve(old(self)@, vqueue, size).1 == Some(lease.bytes())
                    && lease.pool_id() == old(self)@.pool,
                None => reserve(old(self)@, vqueue, size).1 is None,
            },
            tracked_once(old(self)@) && !is_waiting(old(self)@, vqueue) ==> tracked_once(final(self)@),
    {
        let ghost s0 = self@;
        let removed = self.pending_leases.remove(vqueue);
        match removed {
            Some(lease) => {
                let mut lease = lease;
                proof {
                    lemma_total_bytes_remove(s0.pending, vqueue);
                    assert(self@.pending.dom() =~= s0.pending.dom().remove(vqueue));
                }
                let held = lease.size();
                if size < held {
                    self.memory_pool.shrink(&mut lease, held - size);
                    self.leased = self.leased + size;
                    return Some(lease);
                } else if size == held {
                    self.leased = self.leased + size;
                    return Some(lease);
                } else {
                    if self.memory_pool.try_grow(&mut lease, size - held) {
                        self.leased = self.leased + size;
                        return Some(lease);
                    }
                    self.memory_pool.release(lease);
                }
            },
            None => {
                proof {
                    assert(s0.pending.remove(vqueue) =~= s0.pending);
                }
            },
        }
        let ghost s1 = self@;
        // Standard FIFO path for callers without a promised lease.
        self.waiters.push_back((vqueue, size));
        proof {
            let s = self@;
            assert forall|i: int| 0 <= i < s.waiters.len() implies #[trigger] s.waiters[i].1 > 0 by {
                if i < s1.waiters.len() {
                    assert(s.waiters[i] == s1.waiters[i]);
                }
            }
        }
        if self.waiters[0].0 != vqueue {
            proof {
                lemma_fifo_tracked_once(s0, s1, vqueue, size);
            }
            return None;
        }
        match self.memory_pool.poll_reserve(size) {
            Poll::Ready(lease) => {
                let _ = self.waiters.pop_front();
                self.leased = self.leased + size;
                proof {
                    let s = self@;
                    assert forall|i: int| 0 <= i < s.waiters.len() implies #[trigger] s.waiters[i].1 > 0 by {
                        assert(s.waiters[i] == s1.waiters.push((vqueue, size))[i + 1]);
                    }
                    lemma_fifo_tracked_once(s0, s1, vqueue, size);
                }
                Some(lease)
            },
            Poll::Pending => {
                proof {
                    lemma_fifo_tracked_once(s0, s1, vqueue, size);
                }
                None
            },
        }
    }

    /// Stops tracking `vqueue`: it leaves the waiters, and a lease promised to
    /// it goes back to the pool.
    pub fn remove_from_waiters(&mut self, vqueue: VQueueHandle)
        requires
            old(self).wf(),
        ensures
            final(self).wf(),
            final(self)@ == remove_step(old(self)@, vqueue),
            tracked_once(old(self)@) ==> tracked_once(final(self)@),
    {
        let ghost w = self.waiters@;
        let ghost pred = other_than(vqueue);
        let mut kept: VecDeque<(u64, usize)> = VecDeque::new();
        let n = self.waiters.len();
        let mut i: usize = 0;
        while i < n
            invariant
                n == w.len(),
                w == self.waiters@,
                pred == other_than(vqueue),
                0 <= i <= n,
                kept@ == w.take(i as int).filter(pred),
            decreases n - i,
        {
            let e = self.waiters[i];
            if e.0 != vqueue {
                kept.push_back(e);
            }
            proof {
                let t = w.take(i + 1);
                assert(t.drop_last() =~= w.take(i as int));
                assert(t.last() == e);
                assert(pred(e) == (e.0 != vqueue));
                reveal_with_fuel(Seq::<_>::filter, 1);
                assert(t.filter(pred) == (if pred(e) {
                    w.take(i as int).filter(pred).push(e)
                } else {
                    w.take(i as int).filter(pred)
                }));
            }
            i = i + 1;
        }
        proof {
            assert(w.take(n as int) =~= w);
        }
        self.waiters = kept;
        let ghost p = self@.pending;
        let removed = self.pending_leases.remove(vqueue);
        match removed {
            Some(lease) => {
                proof {
                    lemma_total_bytes_remove(p, vqueue);
                }
                self.memory_pool.release(lease);
            },
            None => {
                proof {
                    assert(p.remove(vqueue) =~= p);
                }
            },
        }
        proof {
            let s = self@;
            assert(s.pending.dom() =~= p.dom().remove(vqueue));
            assert forall|i: int| 0 <= i < s.waiters.len() implies #[trigger] s.waiters[i].1 > 0 by {
                assert(s.waiters.contains(s.waiters[i]));
                lemma_filter_subset(w, pred, s.waiters[i]);
                let k = choose|k: int| 0 <= k < w.len() && w[k] == s.waiters[i];
                assert(old(self)@.waiters[k].1 > 0);
            }
            assert(w == old(self)@.waiters);
            assert(s =~= remove_step(old(self)@, vqueue));
            if tracked_once(old(self)@) {
                lemma_filter_tracked_once(w, old(self)@.pending, vqueue);
            }
        }
    }

    /// Pre-reserves memory for the head waiter: on success its lease is stored
    /// under its handle and it leaves the queue. `Ready(None)` only when no one
    /// waits.
    pub fn poll_head(&mut self) -> (r: Poll<Option<VQueueHandle>>)
        requires
            old(self).wf(),
        ensures
            final(self).wf(),
            final(self)@ == head_step(old(self)@).0,
            r == head_step(old(self)@).1,
            tracked_once(old(self)@) ==> tracked_once(final(self)@),
    {
        if self.waiters.len() == 0 {
            return Poll::Ready(None);
        }
        let (head_vqueue, head_size) = self.waiters[0];
        let ghost s0 = self@;
        match self.memory_pool.poll_reserve(head_size) {
            Poll::Ready(lease) => {
                let ghost s1 = self@;
                proof {
                    if s1.pending.contains_key(head_vqueue) {
                        lemma_total_bytes_remove(s1.pending, head_vqueue);
                        assert(s1.pending.remove(head_vqueue).insert(head_vqueue, head_size as nat)
                            =~= s1.pending.insert(head_vqueue, head_size as nat));
                        lemma_total_bytes_insert(s1.pending.remove(head_vqueue), head_vqueue, head_size as nat);
                    } else {
                        lemma_total_bytes_insert(s1.pending, head_vqueue, head_size as nat);
                    }
                }
                let prev = self.pending_leases.insert(head_vqueue, lease);
                match prev {
                    Some(p) => {
                        self.memory_pool.release(p);
                    },
                    None => {},
                }
                let _ = self.waiters.pop_front();
                proof {
                    let s = self@;
                    assert(s.pending.dom() =~= s1.pending.dom().insert(head_vqueue));
                    assert forall|i: int| 0 <= i < s.waiters.len() implies #[trigger] s.waiters[i].1 > 0 by {
                        assert(s.waiters[i] == s0.waiters[i + 1]);
                    }
                    assert(s0.waiters[0].1 > 0);
                    assert forall|k: u64| #[trigger] s.pending.contains_key(k) implies s.pending[k] > 0 by {
                        if k != head_vqueue {
                            assert(s1.pending.contains_key(k));
                        }
                    }
                    if tracked_once(s0) {
                        assert forall|i: int, j: int|
                            0 <= i < j < s.waiters.len() implies #[trigger] s.waiters[i].0 != #[trigger] s.waiters[j].0 by {
                            assert(s.waiters[i] == s0.waiters[i + 1]);
                            assert(s.waiters[j] == s0.waiters[j + 1]);
                        }
                        assert forall|i: int|
                            0 <= i < s.waiters.len() implies !s.pending.contains_key(#[trigger] s.waiters[i].0) by {
                            assert(s.waiters[i] == s0.waiters[i + 1]);
                            assert(s0.waiters[0].0 != s0.waiters[i + 1].0);
                        }
                    }
                }
                Poll::Ready(Some(head_vqueue))
            },
            Poll::Pending => Poll::Pending,
        }
    }
}

/// A lease promised to `promised` is never taken by a reservation of another
/// vqueue: it stays stored, with its size, whatever the other caller asks.
pub proof fn law_promise_not_stolen(s: LimiterView, vqueue: u64, size: usize, promised: u64)
    requires
        s.pending.contains_key(promised),
        vqueue != promised,
    ensures
        reserve(s, vqueue, size).0.pending.contains_key(promised),
        reserve(s, vqueue, size).0.pending[promised] == s.pending[promised],
{
}

/// The vqueue that holds a promised lease gets its reservation at once when
/// it asks for no more than the lease holds, without touching the waiters.
pub proof fn law_promise_consumed_by_owner(s: LimiterView, vqueue: u64, size: usize)
    requires
        s.pending.contains_key(vqueue),
        size <= s.pending[vqueue],
    ensures
        reserve(s, vqueue, size).1 == Some(size as nat),
        !reserve(s, vqueue, size).0.pending.contains_key(vqueue),
        reserve(s, vqueue, size).0.waiters == s.waiters,
{
}

/// Strict FIFO: a caller without a promised lease that arrives behind a
/// waiting head gets nothing and takes no byte from the pool, however many
/// bytes are free.
pub proof fn law_fifo_no_overtaking(s: LimiterView, vqueue: u64, size: usize)
    requires
        !s.pending.contains_key(vqueue),
        s.waiters.len() > 0,
        s.waiters[0].0 != vqueue,
    ensures
        reserve(s, vqueue, size).1 is None,
        reserve(s, vqueue, size).0.used == s.used,
        reserve(s, vqueue, size).0.waiters == s.waiters.push((vqueue, size)),
{
}

/// A removed vqueue is no longer tracked: none of its entries is left among
/// the waiters and it holds no promised lease, while every other waiting
/// vqueue still waits, its promise, if any, stays, and the bytes promised to
/// the removed vqueue go back to the pool.
pub proof fn law_remove_stops_tracking(s: LimiterView, vqueue: u64)
    requires
        limiter_inv(s),
    ensures
        !is_waiting(remove_step(s, vqueue), vqueue),
        !remove_step(s, vqueue).pending.contains_key(vqueue),
        forall|h: u64| h != vqueue && is_waiting(s, h) ==> is_waiting(remove_step(s, vqueue), h),
        forall|h: u64| h != vqueue && s.pending.contains_key(h) ==> {
            &&& remove_step(s, vqueue).pending.contains_key(h)
            &&& remove_step(s, vqueue).pending[h] == s.pending[h]
        },
        remove_step(s, vqueue).waiters.len() <= s.waiters.len(),
        s.pending.contains_key(vqueue) ==> remove_step(s, vqueue).used == s.used - s.pending[vqueue],
        !s.pending.contains_key(vqueue) ==> remove_step(s, vqueue).used == s.used,
        remove_step(s, vqueue).leased == s.leased,
{
    let pred = other_than(vqueue);
    let f = s.waiters.filter(pred);
    s.waiters.lemma_filter_len(pred);
    assert forall|i: int| 0 <= i < f.len() implies #[trigger] f[i].0 != vqueue by {
        s.waiters.lemma_filter_pred(pred, i);
    }
    assert forall|h: u64| h != vqueue && is_waiting(s, h) implies is_waiting(remove_step(s, vqueue), h) by {
        let i = choose|i: int| 0 <= i < s.waiters.len() && #[trigger] s.waiters[i].0 == h;
        s.waiters.lemma_filter_contains(pred, i);
        let k = choose|k: int| 0 <= k < f.len() && f[k] == s.waiters[i];
        assert(remove_step(s, vqueue).waiters[k].0 == h);
    }
    if s.pending.contains_key(vqueue) {
        lemma_total_bytes_remove(s.pending, vqueue);
    }
}

/// A vqueue that holds a promised lease of `held` bytes and asks for more
/// gets the whole size at once, without queueing, whenever the pool has the
/// missing bytes free: the lease grows in place, and only the difference is
/// taken from the pool.
pub proof fn law_promise_grows_in_place(s: LimiterView, vqueue: u64, size: usize)
    requires
        s.pending.contains_key(vqueue),
        s.pending[vqueue] < size,
        size - s.pending[vqueue] <= s.capacity - s.used,
    ensures
        reserve(s, vqueue, size).1 == Some(size as nat),
        reserve(s, vqueue, size).0.waiters == s.waiters,
        reserve(s, vqueue, size).0.used == s.used + (size - s.pending[vqueue]),
        reserve(s, vqueue, size).0.leased == s.leased + size,
        !reserve(s, vqueue, size).0.pending.contains_key(vqueue),
{
}

/// Every byte the pool lends belongs to a lease handed out or to a lease
/// promised to a vqueue, and the pool never lends more than it has.
pub proof fn law_bytes_accounted(l: &InvokerMemoryLimiter)
    requires
        l.wf(),
    ensures
        l@.used == l@.leased + total_bytes(l@.pending),
        l@.used <= l@.capacity,
{
}

/// Every reservation that succeeds hands out exactly the bytes asked for, and
/// the pool never lends more than its capacity.
pub proof fn law_reserve_exact(s: LimiterView, vqueue: u64, size: usize)
    requires
        limiter_inv(s),
        size > 0,
    ensures
        reserve(s, vqueue, size).1 matches Some(b) ==> b == size,
        reserve(s, vqueue, size).0.used <= s.capacity,
{
    if s.pending.contains_key(vqueue) {
        lemma_total_bytes_remove(s.pending, vqueue);
    }
}

/// The FIFO path keeps the limiter's invariant.
proof fn lemma_fifo_inv(s: LimiterView, vqueue: u64, size: usize)
    requires
        limiter_inv(s),
        size > 0,
    ensures
        limiter_inv(fifo_reserve(s, vqueue, size).0),
{
    let q = s.waiters.push((vqueue, size));
    assert forall|i: int| 0 <= i < q.len() implies #[trigger] q[i].1 > 0 by {
        if i < s.waiters.len() {
            assert(q[i] == s.waiters[i]);
        }
    }
    let d = q.drop_first();
    assert forall|i: int| 0 <= i < d.len() implies #[trigger] d[i].1 > 0 by {
        assert(d[i] == q[i + 1]);
    }
}

/// Every allowed call keeps the limiter's invariant.
proof fn lemma_step_inv(s: LimiterView, op: LimiterOp)
    requires
        limiter_inv(s),
        op_allowed(s, op),
    ensures
        limiter_inv(limiter_step(s, op).0),
{
    match op {
        LimiterOp::Reserve(x, size) => {
            if s.pending.contains_key(x) {
                lemma_total_bytes_remove(s.pending, x);
                let p1 = s.pending.remove(x);
                assert(p1.dom() =~= s.pending.dom().remove(x));
                let held = s.pending[x];
                assert forall|k: u64| #[trigger] p1.contains_key(k) implies p1[k] > 0 by {
                    assert(s.pending.contains_key(k));
                }
                if size > held && size - held > s.capacity - s.used {
                    lemma_fifo_inv(LimiterView { used: (s.used - held) as nat, pending: p1, ..s }, x, size);
                }
            } else {
                lemma_fifo_inv(s, x, size);
            }
        },
        LimiterOp::Head => {
            if s.waiters.len() > 0 && s.waiters[0].1 <= s.capacity - s.used {
                let head = s.waiters[0].0;
                let size = s.waiters[0].1 as nat;
                let p = s.pending;
                let p2 = p.insert(head, size);
                assert(p2.dom() =~= p.dom().insert(head));
                if p.contains_key(head) {
                    lemma_total_bytes_remove(p, head);
                    assert(p.remove(head).insert(head, size) =~= p2);
                    assert(p.remove(head).dom() =~= p.dom().remove(head));
                    lemma_total_bytes_insert(p.remove(head), head, size);
                } else {
                    lemma_total_bytes_insert(p, head, size);
                }
                assert forall|k: u64| #[trigger] p2.contains_key(k) implies p2[k] > 0 by {
                    if k != head {
                        assert(p.contains_key(k));
                    }
                }
                let d = s.waiters.drop_first();
                assert forall|i: int| 0 <= i < d.len() implies #[trigger] d[i].1 > 0 by {
                    assert(d[i] == s.waiters[i + 1]);
                }
            }
        },
        LimiterOp::Remove(x) => {
            let p = s.pending;
            let p1 = p.remove(x);
            assert(p1.dom() =~= p.dom().remove(x));
            if p.contains_key(x) {
                lemma_total_bytes_remove(p, x);
            } else {
                assert(p1 =~= p);
            }
            assert forall|k: u64| #[trigger] p1.contains_key(k) implies p1[k] > 0 by {
                assert(p.contains_key(k));
            }
            let f = s.waiters.filter(other_than(x));
            assert forall|i: int| 0 <= i < f.len() implies #[trigger] f[i].1 > 0 by {
                assert(f.contains(f[i]));
                lemma_filter_subset(s.waiters, other_than(x), f[i]);
                let k = choose|k: int| 0 <= k < s.waiters.len() && s.waiters[k] == f[i];
                assert(s.waiters[k].1 > 0);
            }
        },
        LimiterOp::Release(_) => {},
    }
}

/// Whether a call reserves for `vqueue` or stops tracking it.
pub open spec fn touches(op: LimiterOp, vqueue: u64) -> bool {
    match op {
        LimiterOp::Reserve(h, _) => h == vqueue,
        LimiterOp::Remove(h) => h == vqueue,
        _ => false,
    }
}

/// `w` waits in `q` ahead of every entry of `v`.
pub open spec fn queued_ahead(q: Seq<(u64, usize)>, w: u64, v: u64) -> bool {
    exists|i: int| 0 <= i < q.len() && #[trigger] q[i].0 == w && (forall|k: int| 0 <= k < i ==> q[k].0 != v)
}

/// A promise survives every call that neither reserves for nor removes the
/// vqueue that holds it: the lease stays stored with its size and the vqueue
/// does not wait.
proof fn lemma_step_keeps_promise(s: LimiterView, op: LimiterOp, v: u64)
    requires
        s.pending.contains_key(v),
        !is_waiting(s, v),
        !touches(op, v),
    ensures
        limiter_step(s, op).0.pending.contains_key(v),
        limiter_step(s, op).0.pending[v] == s.pending[v],
        !is_waiting(limiter_step(s, op).0, v),
{
    let t = limiter_step(s, op).0;
    match op {
        LimiterOp::Reserve(x, size) => {
            let q = s.waiters.push((x, size));
            assert forall|i: int| 0 <= i < q.len() implies #[trigger] q[i].0 != v by {
                if i < s.waiters.len() {
                    assert(q[i] == s.waiters[i]);
                }
            }
            let d = q.drop_first();
            assert forall|i: int| 0 <= i < d.len() implies #[trigger] d[i].0 != v by {
                assert(d[i] == q[i + 1]);
            }
        },
        LimiterOp::Head => {
            if s.waiters.len() > 0 {
                assert(s.waiters[0].0 != v);
                let d = s.waiters.drop_first();
                assert forall|i: int| 0 <= i < d.len() implies #[trigger] d[i].0 != v by {
                    assert(d[i] == s.waiters[i + 1]);
                }
            }
        },
        LimiterOp::Remove(x) => {
            let f = s.waiters.filter(other_than(x));
            assert forall|i: int| 0 <= i < f.len() implies #[trigger] f[i].0 != v by {
                assert(f.contains(f[i]));
                lemma_filter_subset(s.waiters, other_than(x), f[i]);
            }
        },
        LimiterOp::Release(_) => {},
    }
}

/// A promise survives a run of calls that neither reserve for nor remove the
/// vqueue that holds it, and allowed calls keep the limiter's invariant.
proof fn lemma_run_keeps_promise(s: LimiterView, ops: Seq<LimiterOp>, v: u64)
    requires
        limiter_inv(s),
        run_allowed(s, ops),
        s.pending.contains_key(v),
        !is_waiting(s, v),
        forall|i: int| 0 <= i < ops.len() ==> !touches(#[trigger] ops[i], v),
    ensures
        limiter_inv(limiter_run(s, ops).0),
        limiter_run(s, ops).0.pending.contains_key(v),
        limiter_run(s, ops).0.pending[v] == s.pending[v],
    decreases ops.len(),
{
    if ops.len() > 0 {
        assert(!touches(ops[0], v));
        lemma_step_keeps_promise(s, ops[0], v);
        lemma_step_inv(s, ops[0]);
        let rest = ops.drop_first();
        assert forall|i: int| 0 <= i < rest.len() implies !touches(#[trigger] rest[i], v) by {
            assert(rest[i] == ops[i + 1]);
        }
        lemma_run_keeps_promise(limiter_step(s, ops[0]).0, rest, v);
    }
}

/// A promise is kept: once `poll_head` has served `v`, queued for `promised`
/// bytes, `v` holds that lease whatever other vqueues reserve, release or
/// leave in between. Its next reservation of at most `promised` bytes then
/// succeeds at once, without queueing; the surplus goes back to the pool, and
/// the promise is consumed.
pub proof fn law_promise_kept(s: LimiterView, v: u64, ops: Seq<LimiterOp>, size: usize)
    requires
        limiter_inv(s),
        tracked_once(s),
        head_step(s).1 == Poll::<Option<u64>>::Ready(Some(v)),
        run_allowed(head_step(s).0, ops),
        forall|i: int| 0 <= i < ops.len() ==> !touches(#[trigger] ops[i], v),
        size <= s.waiters[0].1,
    ensures
        ({
            let promised = s.waiters[0].1 as nat;
            let t = limiter_run(head_step(s).0, ops).0;
            &&& t.pending.contains_key(v)
            &&& t.pending[v] == promised
            &&& reserve(t, v, size).1 == Some(size as nat)
            &&& reserve(t, v, size).0.used == t.used - (promised - size)
            &&& reserve(t, v, size).0.leased == t.leased + size
            &&& reserve(t, v, size).0.waiters == t.waiters
            &&& !reserve(t, v, size).0.pending.contains_key(v)
        }),
{
    let s1 = head_step(s).0;
    assert(s.waiters[0].0 == v);
    assert forall|i: int| 0 <= i < s1.waiters.len() implies #[trigger] s1.waiters[i].0 != v by {
        assert(s1.waiters[i] == s.waiters[i + 1]);
    }
    lemma_step_inv(s, LimiterOp::Head);
    lemma_run_keeps_promise(s1, ops, v);
    let t = limiter_run(s1, ops).0;
    lemma_total_bytes_remove(t.pending, v);
}

/// Removing other vqueues from the waiters keeps `w` ahead of `v`.
proof fn lemma_filter_queued_ahead(q: Seq<(u64, usize)>, x: u64, w: u64, v: u64)
    requires
        x != w,
        queued_ahead(q, w, v),
    ensures
        queued_ahead(q.filter(other_than(x)), w, v),
    decreases q.len(),
{
    reveal_with_fuel(Seq::<_>::filter, 1);
    let pred = other_than(x);
    let d = q.drop_last();
    let fd = d.filter(pred);
    let f = q.filter(pred);
    assert(f == if pred(q.last()) { fd.push(q.last()) } else { fd });
    if queued_ahead(d, w, v) {
        lemma_filter_queued_ahead(d, x, w, v);
        let i = choose|i: int| 0 <= i < fd.len() && #[trigger] fd[i].0 == w && (forall|k: int| 0 <= k < i ==> fd[k].0 != v);
        assert(f[i] == fd[i]);
        assert forall|k: int| 0 <= k < i implies f[k].0 != v by {
            assert(f[k] == fd[k]);
        }
    } else {
        let i = choose|i: int| 0 <= i < q.len() && #[trigger] q[i].0 == w && (forall|k: int| 0 <= k < i ==> q[k].0 != v);
        if i < d.len() {
            assert(d[i] == q[i]);
            assert forall|k: int| 0 <= k < i implies d[k].0 != v by {
                assert(d[k] == q[k]);
            }
            assert(false);
        }
        assert(q.last().0 == w);
        assert(f == fd.push(q.last()));
        let n = fd.len() as int;
        assert(f[n].0 == w);
        assert forall|k: int| 0 <= k < n implies f[k].0 != v by {
            assert(f[k] == fd[k]);
            assert(fd.contains(fd[k]));
            lemma_filter_subset(d, pred, fd[k]);
            let m = choose|m: int| 0 <= m < d.len() && d[m] == fd[k];
            assert(q[m] == d[m]);
        }
    }
}

/// One call keeps `w` ahead of `v`, and `v` without a promise, unless it is
/// the call that serves `w`; and `v` obtains no memory by it.
proof fn lemma_step_fifo(s: LimiterView, op: LimiterOp, w: u64, v: u64)
    requires
        w != v,
        queued_ahead(s.waiters, w, v),
        !s.pending.contains_key(v),
        !touches(op, w),
    ensures
        limiter_step(s, op).1 != Some(v),
        limiter_step(s, op).1 != Some(w) ==> {
            &&& queued_ahead(limiter_step(s, op).0.waiters, w, v)
            &&& !limiter_step(s, op).0.pending.contains_key(v)
        },
{
    let i = choose|i: int| 0 <= i < s.waiters.len() && #[trigger] s.waiters[i].0 == w && (forall|k: int| 0 <= k < i ==> s.waiters[k].0 != v);
    assert(s.waiters[0].0 != v) by {
        if i > 0 {
            assert(s.waiters[0].0 != v);
        }
    }
    match op {
        LimiterOp::Reserve(x, size) => {
            let q = s.waiters.push((x, size));
            assert(q[i] == s.waiters[i]);
            assert forall|k: int| 0 <= k < i implies q[k].0 != v by {
                assert(q[k] == s.waiters[k]);
            }
            assert(queued_ahead(q, w, v));
            assert(q[0] == s.waiters[0]);
            if q[0].0 == x && i > 0 {
                let d = q.drop_first();
                assert(d[i - 1] == q[i]);
                assert forall|k: int| 0 <= k < i - 1 implies d[k].0 != v by {
                    assert(d[k] == q[k + 1]);
                }
                assert(queued_ahead(d, w, v));
            }
        },
        LimiterOp::Head => {
            if i > 0 {
                let d = s.waiters.drop_first();
                assert(d[i - 1] == s.waiters[i]);
                assert forall|k: int| 0 <= k < i - 1 implies d[k].0 != v by {
                    assert(d[k] == s.waiters[k + 1]);
                }
                assert(queued_ahead(d, w, v));
            }
        },
        LimiterOp::Remove(x) => {
            lemma_filter_queued_ahead(s.waiters, x, w, v);
        },
        LimiterOp::Release(_) => {},
    }
}

/// A reservation that is refused queues its caller: it waits ahead of every
/// vqueue that was not waiting yet, and the pool lends no more than before.
pub proof fn law_refused_reservation_queues(s: LimiterView, w: u64, size: usize, v: u64)
    requires
        limiter_inv(s),
        !is_waiting(s, v),
        reserve(s, w, size).1 is None,
    ensures
        queued_ahead(reserve(s, w, size).0.waiters, w, v),
        reserve(s, w, size).0.used <= s.used,
        reserve(s, w, size).0.leased == s.leased,
{
    let q = s.waiters.push((w, size));
    let n = s.waiters.len() as int;
    assert(q[n].0 == w);
    assert forall|k: int| 0 <= k < n implies q[k].0 != v by {
        assert(q[k] == s.waiters[k]);
    }
    assert(reserve(s, w, size).0.waiters == q);
    if s.pending.contains_key(w) {
        lemma_total_bytes_remove(s.pending, w);
    }
}

/// A run answers each call with one outcome.
proof fn lemma_run_len(s: LimiterView, ops: Seq<LimiterOp>)
    ensures
        limiter_run(s, ops).1.len() == ops.len(),
    decreases ops.len(),
{
    if ops.len() > 0 {
        lemma_run_len(limiter_step(s, ops[0]).0, ops.drop_first());
    }
}

/// FIFO across calls: while `w` waits ahead of every entry of `v`, and `v`
/// holds no promised lease, `v` obtains no memory, neither by a reservation
/// nor by `poll_head`, before `poll_head` has served `w`, whatever calls come
/// in between, as long as none of them reserves for `w` or removes it.
pub proof fn law_fifo_precedence(s: LimiterView, w: u64, v: u64, ops: Seq<LimiterOp>)
    requires
        w != v,
        queued_ahead(s.waiters, w, v),
        !s.pending.contains_key(v),
        forall|i: int| 0 <= i < ops.len() ==> !touches(#[trigger] ops[i], w),
    ensures
        forall|k: int|
            0 <= k < ops.len() && #[trigger] limiter_run(s, ops).1[k] == Some(v) ==> exists|j: int|
                0 <= j < k && limiter_run(s, ops).1[j] == Some(w),
    decreases ops.len(),
{
    if ops.len() > 0 {
        let first = limiter_step(s, ops[0]);
        let rest = ops.drop_first();
        let outs = limiter_run(s, ops).1;
        let tail = limiter_run(first.0, rest).1;
        assert(outs == seq![first.1] + tail);
        lemma_run_len(first.0, rest);
        assert(!touches(ops[0], w));
        lemma_step_fifo(s, ops[0], w, v);
        if first.1 == Some(w) {
            assert forall|k: int| 0 <= k < ops.len() && #[trigger] outs[k] == Some(v) implies exists|j: int|
                0 <= j < k && outs[j] == Some(w) by {
                assert(outs[0] == Some(w));
            }
        } else {
            assert forall|i: int| 0 <= i < rest.len() implies !touches(#[trigger] rest[i], w) by {
                assert(rest[i] == ops[i + 1]);
            }
            law_fifo_precedence(first.0, w, v, rest);
            assert forall|k: int| 0 <= k < ops.len() && #[trigger] outs[k] == Some(v) implies exists|j: int|
                0 <= j < k && outs[j] == Some(w) by {
                assert(k > 0);
                assert(outs[k] == tail[k - 1]);
                let j = choose|j: int| 0 <= j < k - 1 && tail[j] == Some(w);
                assert(outs[j + 1] == tail[j]);
            }
        }
    }
}

/// The FIFO path keeps every handle tracked at most once, given that the
/// caller was not waiting already.
proof fn lemma_fifo_tracked_once(s0: LimiterView, s1: LimiterView, vqueue: u64, size: usize)
    requires
        s1.waiters == s0.waiters,
        s1.pending == s0.pending.remove(vqueue),
    ensures
        tracked_once(s0) && !is_waiting(s0, vqueue) ==> ({
            let q = s1.waiters.push((vqueue, size));
            &&& tracked_once(LimiterView { waiters: q, ..s1 })
            &&& tracked_once(LimiterView { waiters: q.drop_first(), ..s1 })
        }),
{
    if tracked_once(s0) && !is_waiting(s0, vqueue) {
        let q = s1.waiters.push((vqueue, size));
        let t = LimiterView { waiters: q, ..s1 };
        assert forall|i: int, j: int| 0 <= i < j < q.len() implies #[trigger] q[i].0 != #[trigger] q[j].0 by {
            if j == q.len() - 1 {
                assert(q[i] == s0.waiters[i]);
            } else {
                assert(q[i] == s0.waiters[i]);
                assert(q[j] == s0.waiters[j]);
            }
        }
        assert forall|i: int| 0 <= i < q.len() implies !s1.pending.contains_key(#[trigger] q[i].0) by {
            if i < q.len() - 1 {
                assert(q[i] == s0.waiters[i]);
            }
        }
        let d = q.drop_first();
        assert forall|i: int, j: int| 0 <= i < j < d.len() implies #[trigger] d[i].0 != #[trigger] d[j].0 by {
            assert(d[i] == q[i + 1]);
            assert(d[j] == q[j + 1]);
        }
        assert forall|i: int| 0 <= i < d.len() implies !s1.pending.contains_key(#[trigger] d[i].0) by {
            assert(d[i] == q[i + 1]);
        }
    }
}

/// Every element kept by a filter was in the filtered sequence.
proof fn lemma_filter_subset(s: Seq<(u64, usize)>, pred: spec_fn((u64, usize)) -> bool, e: (u64, usize))
    requires
        s.filter(pred).contains(e),
    ensures
        s.contains(e),
        pred(e),
    decreases s.len(),
{
    reveal_with_fuel(Seq::<_>::filter, 1);
    if s.len() > 0 {
        let last = s.last();
        if s.drop_last().filter(pred).contains(e) {
            lemma_filter_subset(s.drop_last(), pred, e);
            assert(s.drop_last().contains(e));
            let k = choose|k: int| 0 <= k < s.drop_last().len() && s.drop_last()[k] == e;
            assert(s[k] == e);
        } else {
            assert(e == last);
            assert(s[s.len() - 1] == e);
        }
    }
}

/// Removing a handle from the waiters and the promised leases keeps every
/// handle tracked at most once.
proof fn lemma_filter_tracked_once(w: Seq<(u64, usize)>, p: Map<u64, nat>, v: u64)
    requires
        forall|i: int, j: int| 0 <= i < j < w.len() ==> #[trigger] w[i].0 != #[trigger] w[j].0,
        forall|i: int| 0 <= i < w.len() ==> !p.contains_key(#[trigger] w[i].0),
    ensures
        ({
            let f = w.filter(other_than(v));
            let q = p.remove(v);
            &&& forall|i: int, j: int| 0 <= i < j < f.len() ==> #[trigger] f[i].0 != #[trigger] f[j].0
            &&& forall|i: int| 0 <= i < f.len() ==> !q.contains_key(#[trigger] f[i].0)
        }),
    decreases w.len(),
{
    let pred = other_than(v);
    reveal_with_fuel(Seq::<_>::filter, 1);
    if w.len() > 0 {
        let d = w.drop_last();
        lemma_filter_tracked_once(d, p, v);
        let fd = d.filter(pred);
        let f = w.filter(pred);
        let q = p.remove(v);
        if pred(w.last()) {
            assert(f == fd.push(w.last()));
            assert forall|i: int, j: int| 0 <= i < j < f.len() implies #[trigger] f[i].0 != #[trigger] f[j].0 by {
                if j == f.len() - 1 {
                    assert(fd.contains(f[i]));
                    lemma_filter_subset(d, pred, f[i]);
                    let k = choose|k: int| 0 <= k < d.len() && d[k] == f[i];
                    assert(w[k] == d[k]);
                    assert(w[w.len() - 1] == w.last());
                } else {
                    assert(f[i] == fd[i]);
                    assert(f[j] == fd[j]);
                }
            }
            assert forall|i: int| 0 <= i < f.len() implies !q.contains_key(#[trigger] f[i].0) by {
                if i == f.len() - 1 {
                    assert(w[w.len() - 1] == w.last());
                } else {
                    assert(f[i] == fd[i]);
                }
            }
        } else {
            assert(f == fd);
        }
    }
}

} // verus!
