use vstd::prelude::*;

use crate::identifiers::{EntryIndex, InvocationId, PartitionKey};

verus! {

/// Kind of a workflow handler.
#[derive(Debug, Copy, Clone, PartialEq, Eq, Structural)]
pub enum WorkflowHandlerType {
    Workflow,
    Shared,
}

/// Kind of a virtual object handler.
#[derive(Debug, Copy, Clone, PartialEq, Eq, Structural)]
pub enum VirtualObjectHandlerType {
    Exclusive,
    Shared,
}

/// Kind of the target of an invocation.
#[derive(Debug, Copy, Clone, PartialEq, Eq, Structural)]
pub enum InvocationTargetType {
    Service,
    VirtualObject(VirtualObjectHandlerType),
    Workflow(WorkflowHandlerType),
}

/// An invocation, as the ingress submits it.
pub struct ServiceInvocation {
    pub invocation_id: InvocationId,
    pub invocation_target_ty: InvocationTargetType,
    pub idempotency_key: Option<String>,
}

/// Submitting the invocation twice has no more effect than submitting it
/// once: it carries an idempotency key, or it runs a workflow.
pub open spec fn spec_is_idempotent(invocation: &ServiceInvocation) -> bool {
    invocation.idempotency_key is Some || invocation.invocation_target_ty
        == InvocationTargetType::Workflow(WorkflowHandlerType::Workflow)
}

impl ServiceInvocation {
    /// Whether submitting the invocation twice has no more effect than
    /// submitting it once.
    pub fn is_idempotent(&self) -> (r: bool)
        ensures
            r == spec_is_idempotent(self),
    {
        self.idempotency_key.is_some() || match self.invocation_target_ty {
            InvocationTargetType::Workflow(WorkflowHandlerType::Workflow) => true,
            _ => false,
        }
    }
}

/// An invocation with an idempotency key is idempotent, and so is the run of
/// a workflow; without a key, no other invocation is, whatever its target.
pub proof fn law_idempotent_only_with_key_or_workflow(invocation: ServiceInvocation)
    ensures
        invocation.idempotency_key is Some ==> spec_is_idempotent(&invocation),
        invocation.invocation_target_ty == InvocationTargetType::Workflow(WorkflowHandlerType::Workflow)
            ==> spec_is_idempotent(&invocation),
        invocation.idempotency_key is None && invocation.invocation_target_ty
            != InvocationTargetType::Workflow(WorkflowHandlerType::Workflow) ==> !spec_is_idempotent(&invocation),
{
}

/// Identifier of a request to a partition processor.
pub type RequestId = u128;

/// Notification that the partition processor accepted an invocation.
#[derive(Debug, Copy, Clone, PartialEq, Eq, Structural)]
pub struct SubmittedInvocationNotification {
    pub request_id: RequestId,
    pub is_new_invocation: bool,
}

/// The output of an invocation, as the partition processor sends it to the
/// request that waits for it.
#[derive(Debug, PartialEq, Eq)]
pub struct InvocationOutput<R> {
    /// The request the output answers.
    pub request_id: RequestId,
    /// The invocation's result.
    pub response: R,
}

/// Which invocation a query is about.
#[derive(Debug, Copy, Clone, PartialEq, Eq, Structural)]
pub enum InvocationQuery {
    Invocation(InvocationId),
    Workflow { partition_key: PartitionKey },
    IdempotencyId { partition_key: PartitionKey },
}

/// The partition key that routes a query.
pub open spec fn query_partition_key(q: InvocationQuery) -> PartitionKey {
    match q {
        InvocationQuery::Invocation(id) => id.partition_key,
        InvocationQuery::Workflow { partition_key } => partition_key,
        InvocationQuery::IdempotencyId { partition_key } => partition_key,
    }
}

impl InvocationQuery {
    pub fn partition_key(&self) -> (r: PartitionKey)
        ensures
            r == query_partition_key(*self),
    {
        match self {
            InvocationQuery::Invocation(id) => id.partition_key,
            InvocationQuery::Workflow { partition_key } => *partition_key,
            InvocationQuery::IdempotencyId { partition_key } => *partition_key,
        }
    }
}

/// The result of an invocation, sent back to the journal entry that waits for
/// it.
pub struct InvocationResponse {
    pub invocation_id: InvocationId,
    pub entry_index: EntryIndex,
    pub result: Vec<u8>,
}

} // verus!
