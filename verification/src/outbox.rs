use vstd::prelude::*;

use crate::batch::{flat, into_batches, reverse_vec, views, well_batched};
use crate::identifiers::{InvocationId, PartitionId};
use crate::keys::StorageError;

verus! {

/// How an invocation is terminated.
#[derive(Debug, Copy, Clone, PartialEq, Eq, Structural)]
pub enum TerminationFlavor {
    Kill,
    Cancel,
}

impl TerminationFlavor {
    /// The flavor's name in the `sys_outbox` table.
    pub fn as_str(&self) -> (r: &'static str)
        ensures
            *self == TerminationFlavor::Kill ==> r@ == "kill"@,
            *self == TerminationFlavor::Cancel ==> r@ == "cancel"@,
    {
        match self {
            TerminationFlavor::Kill => "kill",
            TerminationFlavor::Cancel => "cancel",
        }
    }
}

/// A message waiting in a partition's outbox.
pub enum OutboxMessage {
    /// Invoke the target; the invocation is `invocation_id`.
    ServiceInvocation { invocation_id: InvocationId, invocation_target: String },
    /// Complete entry `entry_index` of `invocation_id`'s journal.
    ServiceResponse { invocation_id: InvocationId, entry_index: u32 },
    /// Terminate `invocation_id`.
    InvocationTermination { invocation_id: InvocationId, flavor: TerminationFlavor },
}

/// The invocation an outbox message is addressed to.
pub open spec fn message_target(m: &OutboxMessage) -> InvocationId {
    match m {
        OutboxMessage::ServiceInvocation { invocation_id, .. } => *invocation_id,
        OutboxMessage::ServiceResponse { invocation_id, .. } => *invocation_id,
        OutboxMessage::InvocationTermination { invocation_id, .. } => *invocation_id,
    }
}

/// Kind of an outbox message, as the `sys_outbox` table names it.
#[derive(Debug, Copy, Clone, PartialEq, Eq, Structural)]
pub enum MessageType {
    Invocation,
    Response,
    Termination,
}

impl MessageType {
    /// The type's name in the `sys_outbox` table.
    pub fn as_str(&self) -> (r: &'static str)
        ensures
            *self == MessageType::Invocation ==> r@ == "invocation"@,
            *self == MessageType::Response ==> r@ == "response"@,
            *self == MessageType::Termination ==> r@ == "termination"@,
    {
        match self {
            MessageType::Invocation => "invocation",
            MessageType::Response => "response",
            MessageType::Termination => "termination",
        }
    }
}

/// A message of a partition's outbox, with its partition and its number.
pub type KeyedOutboxMessage = (PartitionId, u64, OutboxMessage);

/// Which optional columns of `sys_outbox` a query reads.
#[derive(Debug, Copy, Clone, PartialEq, Eq, Structural)]
pub struct OutboxProjection {
    pub target_id: bool,
    pub invocation_target: bool,
}

/// A row of the `sys_outbox` table.
pub struct OutboxRow {
    pub partition_id: PartitionId,
    pub outbox_number: u64,
    pub message_type: MessageType,
    pub target_id: Option<InvocationId>,
    pub invocation_target: Option<String>,
    pub response_entry_index: Option<u32>,
    pub termination_flavor: Option<TerminationFlavor>,
}

/// The row of an outbox message under a projection.
pub open spec fn row_matches(row: OutboxRow, projection: OutboxProjection, message: KeyedOutboxMessage) -> bool {
    let (partition_id, index, m) = message;
    &&& row.partition_id == partition_id
    &&& row.outbox_number == index
    &&& row.target_id == (if projection.target_id { Some(message_target(&m)) } else { None })
    &&& match m {
        OutboxMessage::ServiceInvocation { invocation_target, .. } => {
            &&& row.message_type == MessageType::Invocation
            &&& (if projection.invocation_target {
                row.invocation_target matches Some(t) && t@ == invocation_target@
            } else {
                row.invocation_target is None
            })
            &&& row.response_entry_index is None
            &&& row.termination_flavor is None
        },
        OutboxMessage::ServiceResponse { entry_index, .. } => {
            &&& row.message_type == MessageType::Response
            &&& row.invocation_target is None
            &&& row.response_entry_index == Some(entry_index)
            &&& row.termination_flavor is None
        },
        OutboxMessage::InvocationTermination { flavor, .. } => {
            &&& row.message_type == MessageType::Termination
            &&& row.invocation_target is None
            &&& row.response_entry_index is None
            &&& row.termination_flavor == Some(flavor)
        },
    }
}

/// The `sys_outbox` row of an outbox message.
pub fn append_outbox_message(projection: OutboxProjection, outbox_message: KeyedOutboxMessage) -> (row: OutboxRow)
    ensures
        row_matches(row, projection, outbox_message),
{
    let (partition_id, index, message) = outbox_message;
    let target = match &message {
        OutboxMessage::ServiceInvocation { invocation_id, .. } => *invocation_id,
        OutboxMessage::ServiceResponse { invocation_id, .. } => *invocation_id,
        OutboxMessage::InvocationTermination { invocation_id, .. } => *invocation_id,
    };
    let target_id = if projection.target_id { Some(target) } else { None };
    match message {
        OutboxMessage::ServiceInvocation { invocation_target, .. } => OutboxRow {
            partition_id,
            outbox_number: index,
            message_type: MessageType::Invocation,
            target_id,
            invocation_target: if projection.invocation_target { Some(invocation_target) } else { None },
            response_entry_index: None,
            termination_flavor: None,
        },
        OutboxMessage::ServiceResponse { entry_index, .. } => OutboxRow {
            partition_id,
            outbox_number: index,
            message_type: MessageType::Response,
            target_id,
            invocation_target: None,
            response_entry_index: Some(entry_index),
            termination_flavor: None,
        },
        OutboxMessage::InvocationTermination { flavor, .. } => OutboxRow {
            partition_id,
            outbox_number: index,
            message_type: MessageType::Termination,
            target_id,
            invocation_target: None,
            response_entry_index: None,
            termination_flavor: Some(flavor),
        },
    }
}

/// The number of messages a scan yields before its first error.
pub open spec fn ok_prefix_len(messages: Seq<Result<KeyedOutboxMessage, StorageError>>) -> nat
    decreases messages.len(),
{
    if messages.len() == 0 || messages[0] is Err {
        0
    } else {
        1 + ok_prefix_len(messages.drop_first())
    }
}

/// The rows of `sys_outbox` for a scan of outbox messages: one row per
/// message up to the scan's first error, in batches of `batch_size` rows.
pub fn for_each_state(
    projection: OutboxProjection,
    outbox_messages: Vec<Result<KeyedOutboxMessage, StorageError>>,
    batch_size: usize,
) -> (batches: Vec<Vec<OutboxRow>>)
    requires
        batch_size > 0,
    ensures
        well_batched(views(batches@), batch_size as nat),
        flat(batches@).len() == ok_prefix_len(outbox_messages@),
        forall|i: int|
            0 <= i < ok_prefix_len(outbox_messages@) ==> outbox_messages@[i] is Ok && row_matches(
                #[trigger] flat(batches@)[i],
                projection,
                outbox_messages@[i]->Ok_0,
            ),
{
    let ghost msgs = outbox_messages@;
    let n = outbox_messages.len();
    let mut pending = reverse_vec(outbox_messages);
    let mut rows: Vec<OutboxRow> = Vec::new();
    let mut i: usize = 0;
    let ghost mut done = false;
    while i < n
        invariant_except_break
            !done,
            pending@.len() == n - i,
            forall|j: int| 0 <= j < pending@.len() ==> #[trigger] pending@[j] == msgs[n - 1 - j],
        invariant
            n == msgs.len(),
            i <= n,
            forall|j: int| 0 <= j < i ==> msgs[j] is Ok,
            rows@.len() == i,
            forall|j: int| 0 <= j < i ==> msgs[j] is Ok && row_matches(#[trigger] rows@[j], projection, msgs[j]->Ok_0),
            done ==> ok_prefix_len(msgs) == i,
        ensures
            done || i == n,
        decreases n - i,
    {
        let next = pending.pop().unwrap();
        proof {
            assert(next == msgs[i as int]);
        }
        match next {
            Ok(outbox_message) => {
                rows.push(append_outbox_message(projection, outbox_message));
                i = i + 1;
            },
            Err(_) => {
                proof {
                    lemma_ok_prefix_stop(msgs, i as nat);
                    done = true;
                }
                break;
            },
        }
    }
    proof {
        if !done {
            lemma_ok_prefix_stop(msgs, n as nat);
        }
    }
    into_batches(rows, batch_size)
}

/// The Ok prefix ends at the first error, or at the end.
proof fn lemma_ok_prefix_stop(messages: Seq<Result<KeyedOutboxMessage, StorageError>>, i: nat)
    requires
        i <= messages.len(),
        forall|j: int| 0 <= j < i ==> messages[j] is Ok,
        i == messages.len() || messages[i as int] is Err,
    ensures
        ok_prefix_len(messages) == i,
    decreases i,
{
    if i > 0 {
        let d = messages.drop_first();
        assert forall|j: int| 0 <= j < i - 1 implies d[j] is Ok by {
            assert(d[j] == messages[j + 1]);
        }
        if i < messages.len() {
            assert(d[i - 1] == messages[i as int]);
        }
        lemma_ok_prefix_stop(d, (i - 1) as nat);
    }
}

} // verus!
