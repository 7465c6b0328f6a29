use restate_logic::identifiers::{InvocationId, InvocationUuid};
use restate_logic::invoker_memory::InvokerMemoryLimiter;
use restate_logic::journal::{EnrichedRawEntry, EntryHeader, JournalBuffer, JournalEntry};
use restate_logic::journal_table::write_journal_entry_key;
use restate_logic::memory::{MemoryPool, Poll};

fn journal_entry_key(invocation_id: &InvocationId, journal_index: u32) -> Vec<u8> {
    write_journal_entry_key(invocation_id, journal_index).serialize()
}

#[test]
fn is_empty() {
    let mut journal_buffer = JournalBuffer::new(1024, None);

    assert!(journal_buffer.is_empty());

    journal_buffer.push_entry(
        JournalEntry {
            entry: EnrichedRawEntry::new(EntryHeader::ClearState, Vec::new()),
            entry_index: 0,
        },
        false,
    );

    assert!(!journal_buffer.is_empty());

    {
        // drain the buffer
        drop(journal_buffer.drain());
    }

    assert!(journal_buffer.is_empty());
}

#[test]
fn journal_keys_sort_lex() {
    //
    // across invocations
    //
    assert!(
        journal_entry_key(
            &InvocationId::from_parts(1337, InvocationUuid::from_parts(0, 1)),
            0
        ) < journal_entry_key(
            &InvocationId::from_parts(1337, InvocationUuid::from_parts(0, 2)),
            0
        )
    );
    //
    // within the same service and key
    //
    let mut previous_key = journal_entry_key(
        &InvocationId::from_parts(1337, InvocationUuid::from_parts(0, 1)),
        0,
    );
    for i in 1..300 {
        let current_key = journal_entry_key(
            &InvocationId::from_parts(1337, InvocationUuid::from_parts(0, 1)),
            i,
        );
        assert!(previous_key < current_key);
        previous_key = current_key;
    }
}

#[test]
fn poll_head_promise_is_not_stolen_by_fresh_arrival() {
    // Pool of 150 with 100-byte reservations: after V1 runs, the pool has
    // exactly 100 bytes free — enough for either V2 (promised) or V3 (fresh),
    // but not both.
    let mut limiter = InvokerMemoryLimiter::new(MemoryPool::with_capacity(150), 100);
    let (v1, v2, v3) = (1u64, 2u64, 3u64);

    // V1 reserves 100 — succeeds.
    let lease_v1 = limiter
        .poll_reserve(v1, 100)
        .expect("V1 should get its reservation");

    // V2 reserves 100 — pool has only 50 left, so it blocks.
    assert!(limiter.poll_reserve(v2, 100).is_none());

    // V1 releases its lease — 100 bytes return to the pool.
    limiter.release(lease_v1);

    // poll_head pre-reserves V2's 100 bytes and pops V2 from waiters.
    match limiter.poll_head() {
        Poll::Ready(Some(handle)) => assert_eq!(handle, v2),
        other => panic!("expected Ready(Some(V2)), got {other:?}"),
    }

    // A fresh V3 shows up before V2 polls: it has no promised lease, takes
    // the FIFO path and finds the pool exhausted, since V2's 100 bytes are
    // held for V2.
    assert!(limiter.poll_reserve(v3, 100).is_none());

    // V2 now consumes its promised lease.
    let lease_v2 = limiter
        .poll_reserve(v2, 100)
        .expect("V2 should consume the promised lease");
    assert_eq!(lease_v2.size(), 100);
}

#[test]
fn remove_from_waiters_drops_pending_lease() {
    let mut limiter = InvokerMemoryLimiter::new(MemoryPool::with_capacity(100), 100);
    let (v1, v2) = (1u64, 2u64);

    // V1 acquires immediately.
    let lease_v1 = limiter.poll_reserve(v1, 100).expect("V1 acquires");
    // V2 blocks.
    assert!(limiter.poll_reserve(v2, 100).is_none());
    // Release V1 so poll_head can promise V2.
    limiter.release(lease_v1);
    assert!(matches!(
        limiter.poll_head(),
        Poll::Ready(Some(h)) if h == v2
    ));

    // Dropping V2 (e.g., its vqueue became dormant) should return the
    // pre-reserved bytes to the pool.
    limiter.remove_from_waiters(v2);

    // V1 can now reserve a fresh 100 — pool is fully free again.
    let lease_v1_again = limiter
        .poll_reserve(v1, 100)
        .expect("pool must be free after V2's pending lease is dropped");
    assert_eq!(lease_v1_again.size(), 100);
}
