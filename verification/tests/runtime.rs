use restate_logic::action_effect::{
    ActionEffect, ActionEffectHandler, AckCommand, BuiltInInvokerOutput, Command, OutboxTruncation,
};
use restate_logic::batch::into_batches;
use restate_logic::bifrost_dump::{next_read_pointer, payload, LogletRecord, Record};
use restate_logic::identifiers::{InvocationId, InvocationUuid};
use restate_logic::ingress::{
    ExponentialRetry, FixedDelayRetry, RemoteError, RpcRequestDispatcher, SubmitAction, SubmitEvent, SubmitFailure, SubmitState,
};
use restate_logic::invocation::{
    InvocationOutput, InvocationQuery, InvocationTargetType, SubmittedInvocationNotification, ServiceInvocation, WorkflowHandlerType,
};
use restate_logic::invoker_fake::{EffectKind, InputCommand, InvokeCommand, InvokeInputJournal, Service};
use restate_logic::invoker_memory::InvokerMemoryLimiter;
use restate_logic::journal::{EnrichedRawEntry, EntryHeader, JournalBuffer, JournalEntry};
use restate_logic::memory::{MemoryPool, Poll};
use restate_logic::outbox::{
    for_each_state, MessageType, OutboxMessage, OutboxProjection, TerminationFlavor,
};
use restate_logic::protobuf::encode_varint;
use restate_logic::rpc_client::{
    attach_invocation_outcome, get_invocation_output_outcome, into_body, output_outcome,
    submitted_outcome, AttachInvocationResponse,
    GetInvocationOutputResponse, PartitionProcessorRpcClient, PartitionProcessorRpcClientError,
    PartitionProcessorRpcResponse, PartitionRouting, PartitionTable, RpcError, StreamingRequestKind,
};
use restate_logic::keys::StorageError;
use restate_logic::timer_options::Options;

fn id(pk: u64) -> InvocationId {
    InvocationId::from_parts(pk, InvocationUuid::from_parts(0, 1))
}

#[test]
fn reservation_size_takes_larger_of_hint_and_floor() {
    let limiter = InvokerMemoryLimiter::new(MemoryPool::with_capacity(1000), 100);
    assert_eq!(limiter.reservation_size(None), 100);
    assert_eq!(limiter.reservation_size(Some(50)), 100);
    assert_eq!(limiter.reservation_size(Some(300)), 300);
}

#[test]
fn poll_head_on_empty_queue_is_ready_none() {
    let mut limiter = InvokerMemoryLimiter::new(MemoryPool::with_capacity(10), 5);
    assert_eq!(limiter.poll_head(), Poll::Ready(None));
}

#[test]
fn poll_head_pending_without_memory() {
    let mut limiter = InvokerMemoryLimiter::new(MemoryPool::with_capacity(100), 100);
    let lease = limiter.poll_reserve(1, 100).unwrap();
    assert!(limiter.poll_reserve(2, 100).is_none());
    assert_eq!(limiter.poll_head(), Poll::Pending);
    limiter.release(lease);
    assert_eq!(limiter.used_bytes(), 0);
}

#[test]
fn promised_lease_shrinks_and_grows() {
    let mut limiter = InvokerMemoryLimiter::new(MemoryPool::with_capacity(300), 100);
    let a = limiter.poll_reserve(1, 100).unwrap();
    let b = limiter.poll_reserve(2, 150).unwrap();
    assert!(limiter.poll_reserve(3, 100).is_none());
    limiter.release(b);
    assert_eq!(limiter.poll_head(), Poll::Ready(Some(3)));
    assert_eq!(limiter.used_bytes(), 200);
    // The promised 100 bytes shrink to 60.
    let c = limiter.poll_reserve(3, 60).unwrap();
    assert_eq!(c.size(), 60);
    assert_eq!(limiter.used_bytes(), 160);
    limiter.release(c);
    assert!(limiter.poll_reserve(4, 100).is_some());
    assert_eq!(limiter.used_bytes(), 200);
    assert_eq!(limiter.leased_bytes(), 200);
    limiter.release(a);
}

#[test]
fn promised_lease_that_cannot_grow_goes_back_to_the_pool() {
    let mut limiter = InvokerMemoryLimiter::new(MemoryPool::with_capacity(200), 100);
    let a = limiter.poll_reserve(1, 100).unwrap();
    let b = limiter.poll_reserve(2, 100).unwrap();
    assert!(limiter.poll_reserve(3, 100).is_none());
    limiter.release(b);
    assert_eq!(limiter.poll_head(), Poll::Ready(Some(3)));
    // 3 now asks for 150: the pool cannot grow its lease by 50, so the
    // lease returns and 3 queues again; as head it cannot get 150 of 100.
    assert!(limiter.poll_reserve(3, 150).is_none());
    assert_eq!(limiter.used_bytes(), 100);
    limiter.release(a);
    assert_eq!(limiter.poll_head(), Poll::Ready(Some(3)));
    assert_eq!(limiter.used_bytes(), 150);
}

#[test]
fn memory_pool_accounting() {
    let mut pool = MemoryPool::with_capacity(10);
    let lease = match pool.poll_reserve(4) {
        Poll::Ready(l) => l,
        Poll::Pending => panic!("4 of 10 bytes must be free"),
    };
    assert_eq!(pool.available(), 6);
    assert!(matches!(pool.poll_reserve(7), Poll::Pending));
    let mut lease = lease;
    assert!(pool.try_grow(&mut lease, 6));
    assert!(!pool.try_grow(&mut lease, 1));
    pool.shrink(&mut lease, 3);
    assert_eq!(lease.size(), 7);
    pool.release(lease);
    assert_eq!(pool.used(), 0);
}

#[test]
fn journal_buffer_fills_by_count_and_by_size() {
    let entry = |n: usize| JournalEntry {
        entry: EnrichedRawEntry::new(EntryHeader::SetState, vec![0; n]),
        entry_index: 0,
    };
    let mut by_count = JournalBuffer::new(2, None);
    by_count.push_entry(entry(1), true);
    assert!(!by_count.is_full());
    by_count.push_entry(entry(1), false);
    assert!(by_count.is_full());
    let (n, entries, acks) = by_count.drain();
    assert_eq!(n, 2);
    assert_eq!(entries.len(), 2);
    assert_eq!(acks, vec![true, false]);

    let mut by_size = JournalBuffer::new(10, Some(5));
    by_size.push_entry(entry(4), false);
    assert!(!by_size.is_full());
    by_size.push_entry(entry(1), false);
    assert!(by_size.is_full());
}

fn invocation(idempotent: bool) -> ServiceInvocation {
    ServiceInvocation {
        invocation_id: id(5),
        invocation_target_ty: InvocationTargetType::Service,
        idempotency_key: if idempotent { Some("key".to_string()) } else { None },
    }
}

#[test]
fn idempotency_rules() {
    assert!(!invocation(false).is_idempotent());
    assert!(invocation(true).is_idempotent());
    let workflow = ServiceInvocation {
        invocation_id: id(5),
        invocation_target_ty: InvocationTargetType::Workflow(WorkflowHandlerType::Workflow),
        idempotency_key: None,
    };
    assert!(workflow.is_idempotent());
    let shared = ServiceInvocation {
        invocation_id: id(5),
        invocation_target_ty: InvocationTargetType::Workflow(WorkflowHandlerType::Shared),
        idempotency_key: None,
    };
    assert!(!shared.is_idempotent());
    let d = RpcRequestDispatcher::new(());
    assert_eq!(d.rpc_timeout_millis, 5000);
    assert_eq!(d.retry_policy.interval_millis, 50);
    assert!(d.wait_for_submit_notification(&workflow));
    assert!(!d.output_request_retryable(&shared));
    let n = d.appended_notification(9);
    assert_eq!(n.request_id, 9);
    assert!(n.is_new_invocation);
}

#[test]
fn submit_happy_path() {
    let (mut s, a) = SubmitState::start(false);
    assert_eq!(a, SubmitAction::CallSubmit);
    assert_eq!(s.step(SubmitEvent::StreamOpened), SubmitAction::ReadStream);
    assert_eq!(s.step(SubmitEvent::Submitted), SubmitAction::ReadStream);
    assert_eq!(s.step(SubmitEvent::Output), SubmitAction::ReturnOutput);
}

#[test]
fn non_idempotent_submission_fails_on_closed_stream() {
    let (mut s, _) = SubmitState::start(false);
    s.step(SubmitEvent::StreamOpened);
    assert_eq!(s.step(SubmitEvent::StreamClosed), SubmitAction::Fail(SubmitFailure::StreamClosed));
}

#[test]
fn idempotent_submission_resubmits_on_closed_stream() {
    let (mut s, _) = SubmitState::start(true);
    s.step(SubmitEvent::StreamOpened);
    assert_eq!(s.step(SubmitEvent::StreamClosed), SubmitAction::CallSubmit);
    assert_eq!(s.step(SubmitEvent::StreamOpened), SubmitAction::ReadStream);
    assert_eq!(s.step(SubmitEvent::Rejected(RemoteError::Internal)), SubmitAction::Retry { refresh: false });
    assert_eq!(s.step(SubmitEvent::RetryAllowed(false)), SubmitAction::Fail(SubmitFailure::RpcError));
}

#[test]
fn non_idempotent_submissions_stay_within_retry_budget() {
    let (mut s, first) = SubmitState::start(false);
    let mut retry = ExponentialRetry::for_submission();
    let mut submissions = 0usize;
    let mut action = first;
    // Every attempt fails to reach the partition processor.
    loop {
        let event = match action {
            SubmitAction::CallSubmit => {
                submissions += 1;
                SubmitEvent::CallFailed { shutdown: false }
            }
            SubmitAction::Retry { .. } => SubmitEvent::RetryAllowed(retry.next().is_some()),
            SubmitAction::Fail(f) => {
                assert_eq!(f, SubmitFailure::SubmitRequestFailed);
                break;
            }
            other => panic!("unexpected action {other:?}"),
        };
        action = s.step(event);
    }
    assert_eq!(submissions, 21);
}

#[test]
fn not_leader_refreshes_and_retries() {
    let (mut s, _) = SubmitState::start(false);
    s.step(SubmitEvent::StreamOpened);
    assert_eq!(s.step(SubmitEvent::Rejected(RemoteError::NotLeader)), SubmitAction::Retry { refresh: true });
    assert_eq!(s.step(SubmitEvent::RetryAllowed(true)), SubmitAction::CallSubmit);
    assert_eq!(s.step(SubmitEvent::CallFailed { shutdown: true }), SubmitAction::Fail(SubmitFailure::Shutdown));
}

#[test]
fn output_stream_errors_reattach() {
    let (mut s, _) = SubmitState::start(false);
    s.step(SubmitEvent::StreamOpened);
    s.step(SubmitEvent::Submitted);
    assert_eq!(s.step(SubmitEvent::NetworkError), SubmitAction::Retry { refresh: false });
    assert_eq!(s.step(SubmitEvent::RetryAllowed(true)), SubmitAction::CallAttach);
    assert_eq!(s.step(SubmitEvent::CallFailed { shutdown: false }), SubmitAction::Retry { refresh: false });
    assert_eq!(s.step(SubmitEvent::RetryAllowed(false)), SubmitAction::Fail(SubmitFailure::AttachRequestFailed));
}

fn client() -> PartitionProcessorRpcClient {
    PartitionProcessorRpcClient::new(
        PartitionTable { partitions: vec![(0, 0, 99), (1, 100, 199)] },
        PartitionRouting { nodes: vec![(0, 10)] },
    )
}

#[test]
fn rpc_client_routes_by_partition_key() {
    let c = client();
    let req = c.submit_invocation(3, invocation(false)).ok().unwrap();
    assert_eq!((req.node_id, req.partition_id, req.request_id), (10, 0, 3));
    assert!(matches!(req.request, StreamingRequestKind::Invoke(_)));
    let attach = c.attach_to_invocation(4, id(50)).ok().unwrap();
    assert!(matches!(attach.request, StreamingRequestKind::Attach(InvocationQuery::Invocation(i)) if i == id(50)));
    assert!(matches!(
        c.attach_invocation(1, InvocationQuery::Invocation(id(150))),
        Err(PartitionProcessorRpcClientError::UnknownNodePerPartition(1))
    ));
    assert!(matches!(
        c.get_invocation_output(1, InvocationQuery::Workflow { partition_key: 500 }),
        Err(PartitionProcessorRpcClientError::UnknownPartition(500))
    ));
}

#[test]
fn rpc_replies() {
    assert!(matches!(
        PartitionProcessorRpcClientError::from(RpcError::SendError),
        PartitionProcessorRpcClientError::SendFailed
    ));
    assert!(matches!(
        into_body::<u8>(Err("boom".to_string())),
        Err(PartitionProcessorRpcClientError::Internal(m)) if m == "boom"
    ));
    assert!(matches!(
        attach_invocation_outcome(PartitionProcessorRpcResponse::Output(7u8)),
        AttachInvocationResponse::Ready(7)
    ));
    assert!(matches!(
        get_invocation_output_outcome::<u8>(PartitionProcessorRpcResponse::NotReady),
        GetInvocationOutputResponse::NotReady
    ));
}

#[test]
fn outcomes_answer_their_request() {
    let notification = submitted_outcome::<u8>(
        PartitionProcessorRpcResponse::Submitted(SubmittedInvocationNotification {
            request_id: 42,
            is_new_invocation: true,
        }),
        42,
    );
    assert_eq!(notification, SubmittedInvocationNotification { request_id: 42, is_new_invocation: true });
    let output = output_outcome(
        PartitionProcessorRpcResponse::Output(InvocationOutput { request_id: 9, response: vec![1u8, 2] }),
        9,
    );
    assert_eq!(output, InvocationOutput { request_id: 9, response: vec![1u8, 2] });
}

#[test]
fn fixed_delay_retry_counts_failed_attempts() {
    let bounded = FixedDelayRetry { interval_millis: 50, max_attempts: Some(3) };
    assert!(bounded.allows_retry(0));
    assert!(bounded.allows_retry(2));
    assert!(!bounded.allows_retry(3));
    assert!(!bounded.allows_retry(4));
    let unbounded = FixedDelayRetry { interval_millis: 50, max_attempts: None };
    assert!(unbounded.allows_retry(1_000_000));
}

#[test]
fn promise_kept_across_other_vqueues() {
    let mut limiter = InvokerMemoryLimiter::new(MemoryPool::with_capacity(300), 100);
    let a = limiter.poll_reserve(1, 250).unwrap();
    assert!(limiter.poll_reserve(2, 100).is_none());
    assert!(limiter.poll_reserve(3, 100).is_none());
    limiter.release(a);
    assert_eq!(limiter.poll_head(), Poll::Ready(Some(2)));
    // Others come and go while vqueue 2 holds its promise.
    assert_eq!(limiter.poll_head(), Poll::Ready(Some(3)));
    assert!(limiter.poll_reserve(4, 150).is_none());
    limiter.remove_from_waiters(4);
    let b = limiter.poll_reserve(3, 100).unwrap();
    assert_eq!(limiter.used_bytes(), 200);
    // Vqueue 2 gets its bytes at once; the surplus goes back to the pool.
    let lease = limiter.poll_reserve(2, 40).unwrap();
    assert_eq!(lease.size(), 40);
    assert_eq!(limiter.used_bytes(), 140);
    limiter.release(b);
}

#[test]
fn limiter_over_a_pool_already_in_use() {
    let mut pool = MemoryPool::with_capacity(200);
    let earlier = match pool.poll_reserve(150) {
        Poll::Ready(lease) => lease,
        Poll::Pending => panic!("the pool has room"),
    };
    let mut limiter = InvokerMemoryLimiter::new(pool, 100);
    assert_eq!(limiter.used_bytes(), 150);
    assert_eq!(limiter.leased_bytes(), 150);
    assert!(limiter.poll_reserve(1, 100).is_none());
    limiter.release(earlier);
    assert_eq!(limiter.used_bytes(), 0);
    assert_eq!(limiter.poll_head(), Poll::Ready(Some(1)));
    assert!(limiter.poll_reserve(1, 100).is_some());
    assert_eq!(limiter.used_bytes(), 100);
}

#[test]
fn fifo_precedence_across_calls() {
    let mut limiter = InvokerMemoryLimiter::new(MemoryPool::with_capacity(100), 100);
    let a = limiter.poll_reserve(1, 100).unwrap();
    assert!(limiter.poll_reserve(2, 80).is_none());
    assert!(limiter.poll_reserve(3, 10).is_none());
    limiter.release(a);
    // Vqueue 3 asks again while 2 waits ahead of it: nothing for 3.
    assert!(limiter.poll_reserve(3, 10).is_none());
    assert_eq!(limiter.used_bytes(), 0);
    assert_eq!(limiter.poll_head(), Poll::Ready(Some(2)));
    assert_eq!(limiter.poll_head(), Poll::Ready(Some(3)));
}

#[test]
fn action_effects_become_commands() {
    let handler = ActionEffectHandler::new(());
    let mut single: Vec<ActionEffect<u8, u8, u8>> = vec![ActionEffect::Shuffle(OutboxTruncation { index: 4 })];
    assert!(matches!(handler.handle(&mut single), AckCommand::Single(Command::OutboxTruncation(4))));
    assert!(single.is_empty());
    let mut many: Vec<ActionEffect<u8, u8, u8>> = vec![
        ActionEffect::Timer(1),
        ActionEffect::BuiltInInvoker(BuiltInInvokerOutput { full_invocation_id: id(1), effects: vec![2, 3] }),
    ];
    match handler.handle(&mut many) {
        AckCommand::Batch(cmds) => {
            assert_eq!(cmds.len(), 2);
            assert!(matches!(cmds[0], Command::Timer(1)));
            assert!(matches!(&cmds[1], Command::BuiltInInvoker(e) if e.effects == vec![2, 3]));
        }
        AckCommand::Single(_) => panic!("two effects are batched"),
    }
    let mut none: Vec<ActionEffect<u8, u8, u8>> = Vec::new();
    assert!(matches!(handler.handle(&mut none), AckCommand::Batch(c) if c.is_empty()));
}

#[test]
fn timer_options_default_and_build() {
    let options = Options::default();
    assert_eq!(options.num_timers_in_memory_limit, Some(1024));
    let service = options.build("reader", "clock");
    assert_eq!(service.num_timers_in_memory_limit, Some(1024));
    assert_eq!(service.clock, "clock");
    assert_eq!(service.timer_reader, "reader");
}

#[test]
fn fake_invoker_answers_with_counter_effects() {
    let mut service: Service<u8, ()> = Service::new(());
    assert!(service.handle_cmd(InputCommand::RegisterPartition { partition: (1, 1), partition_key_range: (0, 10), sender: 7 }).is_none());
    assert_eq!(service.partition_sender((1, 1)), Some(&7));
    assert_eq!(service.partition_sender((1, 2)), None);
    let work = service
        .handle_cmd(InputCommand::Invoke(InvokeCommand {
            partition: (1, 1),
            full_invocation_id: id(3),
            journal: InvokeInputJournal::NoCachedJournal,
        }))
        .unwrap();
    assert_eq!(work.partition, (1, 1));
    assert_eq!(work.effects.len(), 4);
    let bytes: Vec<Vec<u8>> = work.effects[..3]
        .iter()
        .map(|e| match &e.kind {
            EffectKind::JournalEntry { entry, .. } => entry.serialized_entry.clone(),
            EffectKind::End => panic!("journal entries come first"),
        })
        .collect();
    assert_eq!(bytes, vec![vec![0x72, 0x02, 0x31, 0x30], vec![0x1a, 0x02, 0x31, 0x30], vec![0x72, 0x00]]);
    assert!(matches!(work.effects[3].kind, EffectKind::End));
    service.register_partition((1, 1), 9);
    assert_eq!(service.partition_sender((1, 1)), Some(&9));
}

#[test]
fn varint_encoding() {
    let mut out = Vec::new();
    encode_varint(&mut out, 300);
    assert_eq!(out, vec![0xac, 0x02]);
}

#[test]
fn outbox_rows_stop_at_first_error() {
    let messages = vec![
        Ok((1, 0, OutboxMessage::ServiceInvocation { invocation_id: id(1), invocation_target: "svc/handler".to_string() })),
        Ok((1, 1, OutboxMessage::ServiceResponse { invocation_id: id(2), entry_index: 4 })),
        Ok((1, 2, OutboxMessage::InvocationTermination { invocation_id: id(3), flavor: TerminationFlavor::Kill })),
        Err(StorageError::CorruptKey),
        Ok((1, 3, OutboxMessage::ServiceResponse { invocation_id: id(4), entry_index: 1 })),
    ];
    let batches = for_each_state(OutboxProjection { target_id: true, invocation_target: false }, messages, 2);
    assert_eq!(batches.len(), 2);
    assert_eq!(batches[0].len(), 2);
    assert_eq!(batches[1].len(), 1);
    let first = &batches[0][0];
    assert_eq!(first.message_type.as_str(), "invocation");
    assert_eq!(first.target_id, Some(id(1)));
    assert_eq!(first.invocation_target, None);
    assert_eq!(batches[0][1].response_entry_index, Some(4));
    assert_eq!(batches[1][0].termination_flavor.map(|f| f.as_str()), Some("kill"));
    assert_eq!(MessageType::Termination.as_str(), "termination");
    assert_eq!(TerminationFlavor::Cancel.as_str(), "cancel");
}

#[test]
fn batches_split_in_order() {
    let batches = into_batches(vec![1, 2, 3, 4, 5], 2);
    assert_eq!(batches, vec![vec![1, 2], vec![3, 4], vec![5]]);
    assert!(into_batches(Vec::<u8>::new(), 3).is_empty());
}

#[test]
fn read_pointer_skips_trim_gaps() {
    let gap = LogletRecord { offset: 3, record: Record::TrimGap { until: 10 } };
    assert_eq!(next_read_pointer(&gap), 10);
    assert!(payload(&gap).is_none());
    let data = LogletRecord { offset: 4, record: Record::Data(vec![1]) };
    assert_eq!(next_read_pointer(&data), 4);
    assert_eq!(payload(&data), Some(&vec![1]));
    let seal = LogletRecord { offset: 5, record: Record::Seal };
    assert_eq!(next_read_pointer(&seal), 5);
}

#[test]
fn submission_retries_back_off_exponentially() {
    let mut retry = ExponentialRetry::for_submission();
    let delays: Vec<u64> = std::iter::from_fn(|| retry.next()).collect();
    assert_eq!(delays.len(), 20);
    assert_eq!(&delays[..7], &[100, 200, 400, 800, 1600, 3200, 5000]);
    assert!(delays[7..].iter().all(|d| *d == 5000));
}
