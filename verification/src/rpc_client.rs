use vstd::prelude::*;

use crate::identifiers::{InvocationId, PartitionId, PartitionKey};
use crate::invocation::{
    query_partition_key, InvocationOutput, InvocationQuery, InvocationResponse, RequestId, ServiceInvocation,
    SubmittedInvocationNotification,
};

verus! {

/// Identifier of a cluster node.
pub type NodeId = u64;

/// Errors of the partition processor RPC client.
pub enum PartitionProcessorRpcClientError {
    /// No partition holds the partition key.
    UnknownPartition(PartitionKey),
    /// No node is known to run the partition.
    UnknownNodePerPartition(PartitionId),
    /// The request could not be sent.
    SendFailed,
    /// The node is shutting down.
    Shutdown,
    /// The partition processor failed the operation.
    Internal(String),
}

/// Why sending an RPC failed.
#[derive(Debug, Copy, Clone, PartialEq, Eq, Structural)]
pub enum RpcError {
    SendError,
    Shutdown,
}

/// The client error for an RPC that could not be sent.
pub open spec fn spec_from_rpc_error(value: RpcError) -> PartitionProcessorRpcClientError {
    match value {
        RpcError::SendError => PartitionProcessorRpcClientError::SendFailed,
        RpcError::Shutdown => PartitionProcessorRpcClientError::Shutdown,
    }
}

impl From<RpcError> for PartitionProcessorRpcClientError {
    fn from(value: RpcError) -> (r: Self) {
        match value {
            RpcError::SendError => PartitionProcessorRpcClientError::SendFailed,
            RpcError::Shutdown => PartitionProcessorRpcClientError::Shutdown,
        }
    }
}

impl vstd::std_specs::convert::FromSpecImpl<RpcError> for PartitionProcessorRpcClientError {
    open spec fn obeys_from_spec() -> bool {
        true
    }

    open spec fn from_spec(v: RpcError) -> Self {
        spec_from_rpc_error(v)
    }
}

/// The partitions of the key space, each with the inclusive range of partition
/// keys it holds.
pub struct PartitionTable {
    pub partitions: Vec<(PartitionId, PartitionKey, PartitionKey)>,
}

/// The first partition whose range holds `key`.
pub open spec fn find_partition(partitions: Seq<(PartitionId, PartitionKey, PartitionKey)>, key: PartitionKey) -> Option<PartitionId>
    decreases partitions.len(),
{
    if partitions.len() == 0 {
        None
    } else if partitions[0].1 <= key <= partitions[0].2 {
        Some(partitions[0].0)
    } else {
        find_partition(partitions.drop_first(), key)
    }
}

impl PartitionTable {
    /// The partition that holds `key`.
    pub fn find_partition_id(&self, key: PartitionKey) -> (r: Result<PartitionId, PartitionProcessorRpcClientError>)
        ensures
            match find_partition(self.partitions@, key) {
                Some(p) => r matches Ok(q) && q == p,
                None => r matches Err(PartitionProcessorRpcClientError::UnknownPartition(k)) && k == key,
            },
    {
        let mut i: usize = 0;
        assert(self.partitions@.skip(0) =~= self.partitions@);
        while i < self.partitions.len()
            invariant
                i <= self.partitions@.len(),
                find_partition(self.partitions@.skip(i as int), key) == find_partition(self.partitions@, key),
            decreases self.partitions@.len() - i,
        {
            let (partition_id, start, end) = self.partitions[i];
            proof {
                let rest = self.partitions@.skip(i as int);
                assert(rest[0] == self.partitions@[i as int]);
                assert(rest.drop_first() =~= self.partitions@.skip(i + 1));
            }
            if start <= key && key <= end {
                return Ok(partition_id);
            }
            i = i + 1;
        }
        Err(PartitionProcessorRpcClientError::UnknownPartition(key))
    }
}

/// Which node runs each partition.
pub struct PartitionRouting {
    pub nodes: Vec<(PartitionId, NodeId)>,
}

/// The node that the first entry for `partition` names.
pub open spec fn find_node(nodes: Seq<(PartitionId, NodeId)>, partition: PartitionId) -> Option<NodeId>
    decreases nodes.len(),
{
    if nodes.len() == 0 {
        None
    } else if nodes[0].0 == partition {
        Some(nodes[0].1)
    } else {
        find_node(nodes.drop_first(), partition)
    }
}

impl PartitionRouting {
    /// The node that runs `partition_id`, if known.
    pub fn get_node_by_partition(&self, partition_id: PartitionId) -> (r: Option<NodeId>)
        ensures
            r == find_node(self.nodes@, partition_id),
    {
        let mut i: usize = 0;
        assert(self.nodes@.skip(0) =~= self.nodes@);
        while i < self.nodes.len()
            invariant
                i <= self.nodes@.len(),
                find_node(self.nodes@.skip(i as int), partition_id) == find_node(self.nodes@, partition_id),
            decreases self.nodes@.len() - i,
        {
            let (p, node) = self.nodes[i];
            proof {
                let rest = self.nodes@.skip(i as int);
                assert(rest[0] == self.nodes@[i as int]);
                assert(rest.drop_first() =~= self.nodes@.skip(i + 1));
            }
            if p == partition_id {
                return Some(node);
            }
            i = i + 1;
        }
        None
    }
}

/// When the partition processor answers an appended invocation.
#[derive(Debug, Copy, Clone, PartialEq, Eq, Structural)]
pub enum AppendInvocationReplyOn {
    Appended,
    Submitted,
    Output,
}

/// Whether a query for an output waits until the output is ready.
#[derive(Debug, Copy, Clone, PartialEq, Eq, Structural)]
pub enum GetInvocationOutputResponseMode {
    BlockWhenNotReady,
    ReplyIfNotReady,
}

/// What a request asks of a partition processor.
pub enum PartitionProcessorRpcRequestInner {
    AppendInvocation(ServiceInvocation, AppendInvocationReplyOn),
    GetInvocationOutput(InvocationQuery, GetInvocationOutputResponseMode),
    AppendInvocationResponse(InvocationResponse),
}

/// The partition key that routes a request.
pub open spec fn request_partition_key(inner: &PartitionProcessorRpcRequestInner) -> PartitionKey {
    match inner {
        PartitionProcessorRpcRequestInner::AppendInvocation(i, _) => i.invocation_id.partition_key,
        PartitionProcessorRpcRequestInner::GetInvocationOutput(q, _) => query_partition_key(*q),
        PartitionProcessorRpcRequestInner::AppendInvocationResponse(r) => r.invocation_id.partition_key,
    }
}

impl PartitionProcessorRpcRequestInner {
    pub fn partition_key(&self) -> (r: PartitionKey)
        ensures
            r == request_partition_key(self),
    {
        match self {
            PartitionProcessorRpcRequestInner::AppendInvocation(i, _) => i.invocation_id.partition_key,
            PartitionProcessorRpcRequestInner::GetInvocationOutput(q, _) => q.partition_key(),
            PartitionProcessorRpcRequestInner::AppendInvocationResponse(r) => r.invocation_id.partition_key,
        }
    }
}

/// A request addressed to the node that runs the partition of its key.
pub struct PartitionProcessorRpcRequest {
    pub node_id: NodeId,
    pub request_id: RequestId,
    pub partition_id: PartitionId,
    pub inner: PartitionProcessorRpcRequestInner,
}

/// What a streaming request asks of a partition processor.
pub enum StreamingRequestKind {
    Invoke(ServiceInvocation),
    Attach(InvocationQuery),
}

/// A streaming request addressed to the node that runs the partition of its
/// key.
pub struct StreamingPartitionProcessorRpcRequest {
    pub node_id: NodeId,
    pub request_id: RequestId,
    pub partition_id: PartitionId,
    pub request: StreamingRequestKind,
}

/// The answer of a partition processor to a request.
pub enum PartitionProcessorRpcResponse<O> {
    Appended,
    Submitted(SubmittedInvocationNotification),
    Output(O),
    NotFound,
    NotReady,
    NotSupported,
}

/// The answer to attaching to an invocation.
pub enum AttachInvocationResponse<O> {
    NotFound,
    NotSupported,
    Ready(O),
}

/// The answer to asking for an invocation's output.
pub enum GetInvocationOutputResponse<O> {
    NotFound,
    NotReady,
    NotSupported,
    Ready(O),
}

/// Routes requests to the partition processors that own their keys.
pub struct PartitionProcessorRpcClient {
    pub partition_table: PartitionTable,
    pub partition_routing: PartitionRouting,
}

/// Where a request for partition key `key` goes: its partition and the node
/// that runs it.
pub open spec fn destination(client: &PartitionProcessorRpcClient, key: PartitionKey) -> Result<(PartitionId, NodeId), ()> {
    match find_partition(client.partition_table.partitions@, key) {
        None => Err(()),
        Some(p) => match find_node(client.partition_routing.nodes@, p) {
            None => Err(()),
            Some(n) => Ok((p, n)),
        },
    }
}

/// `r` is the error of resolving a destination for `key` that failed.
pub open spec fn resolve_error(client: &PartitionProcessorRpcClient, key: PartitionKey, e: PartitionProcessorRpcClientError) -> bool {
    match find_partition(client.partition_table.partitions@, key) {
        None => e matches PartitionProcessorRpcClientError::UnknownPartition(k) && k == key,
        Some(p) => e matches PartitionProcessorRpcClientError::UnknownNodePerPartition(q) && q == p,
    }
}

impl PartitionProcessorRpcClient {
    pub fn new(partition_table: PartitionTable, partition_routing: PartitionRouting) -> (c: Self)
        ensures
            c.partition_table == partition_table,
            c.partition_routing == partition_routing,
    {
        PartitionProcessorRpcClient { partition_table, partition_routing }
    }

    /// The partition that holds `key` and the node that runs it.
    pub fn resolve(&self, key: PartitionKey) -> (r: Result<(PartitionId, NodeId), PartitionProcessorRpcClientError>)
        ensures
            match destination(self, key) {
                Ok(d) => r matches Ok(x) && x == d,
                Err(_) => r matches Err(e) && resolve_error(self, key, e),
            },
    {
        let partition_id = self.partition_table.find_partition_id(key)?;
        match self.partition_routing.get_node_by_partition(partition_id) {
            Some(node_id) => Ok((partition_id, node_id)),
            None => Err(PartitionProcessorRpcClientError::UnknownNodePerPartition(partition_id)),
        }
    }

    /// The streaming request that submits `service_invocation`.
    pub fn submit_invocation(&self, request_id: RequestId, service_invocation: ServiceInvocation) -> (r: Result<StreamingPartitionProcessorRpcRequest, PartitionProcessorRpcClientError>)
        ensures
            match destination(self, service_invocation.invocation_id.partition_key) {
                Ok((p, n)) => r matches Ok(req) && req.node_id == n && req.partition_id == p
                    && req.request_id == request_id
                    && req.request == StreamingRequestKind::Invoke(service_invocation),
                Err(_) => r matches Err(e) && resolve_error(self, service_invocation.invocation_id.partition_key, e),
            },
    {
        let (partition_id, node_id) = self.resolve(service_invocation.invocation_id.partition_key)?;
        Ok(StreamingPartitionProcessorRpcRequest {
            node_id,
            request_id,
            partition_id,
            request: StreamingRequestKind::Invoke(service_invocation),
        })
    }

    /// The streaming request that attaches to `invocation_id`.
    pub fn attach_to_invocation(&self, request_id: RequestId, invocation_id: InvocationId) -> (r: Result<StreamingPartitionProcessorRpcRequest, PartitionProcessorRpcClientError>)
        ensures
            match destination(self, invocation_id.partition_key) {
                Ok((p, n)) => r matches Ok(req) && req.node_id == n && req.partition_id == p
                    && req.request_id == request_id
                    && req.request == StreamingRequestKind::Attach(InvocationQuery::Invocation(invocation_id)),
                Err(_) => r matches Err(e) && resolve_error(self, invocation_id.partition_key, e),
            },
    {
        let (partition_id, node_id) = self.resolve(invocation_id.partition_key)?;
        Ok(StreamingPartitionProcessorRpcRequest {
            node_id,
            request_id,
            partition_id,
            request: StreamingRequestKind::Attach(InvocationQuery::Invocation(invocation_id)),
        })
    }

    /// Addresses `inner_request` to the node that runs the partition of its
    /// key.
    pub fn resolve_partition_id(&self, request_id: RequestId, inner_request: PartitionProcessorRpcRequestInner) -> (r: Result<PartitionProcessorRpcRequest, PartitionProcessorRpcClientError>)
        ensures
            match destination(self, request_partition_key(&inner_request)) {
                Ok((p, n)) => r matches Ok(req) && req.node_id == n && req.partition_id == p
                    && req.request_id == request_id && req.inner == inner_request,
                Err(_) => r matches Err(e) && resolve_error(self, request_partition_key(&inner_request), e),
            },
    {
        let key = inner_request.partition_key();
        let (partition_id, node_id) = self.resolve(key)?;
        Ok(PartitionProcessorRpcRequest { node_id, request_id, partition_id, inner: inner_request })
    }

    /// The request that appends `service_invocation`, answered once appended.
    pub fn append_invocation(&self, request_id: RequestId, service_invocation: ServiceInvocation) -> (r: Result<PartitionProcessorRpcRequest, PartitionProcessorRpcClientError>)
        ensures
            match destination(self, service_invocation.invocation_id.partition_key) {
                Ok((p, n)) => r matches Ok(req) && req.node_id == n && req.partition_id == p
                    && req.request_id == request_id
                    && req.inner == PartitionProcessorRpcRequestInner::AppendInvocation(service_invocation, AppendInvocationReplyOn::Appended),
                Err(_) => r matches Err(e) && resolve_error(self, service_invocation.invocation_id.partition_key, e),
            },
    {
        self.resolve_partition_id(
            request_id,
            PartitionProcessorRpcRequestInner::AppendInvocation(service_invocation, AppendInvocationReplyOn::Appended),
        )
    }

    /// The request that appends `service_invocation`, answered once the
    /// invocation is submitted.
    pub fn append_invocation_and_wait_submit_notification(&self, request_id: RequestId, service_invocation: ServiceInvocation) -> (r: Result<PartitionProcessorRpcRequest, PartitionProcessorRpcClientError>)
        ensures
            match destination(self, service_invocation.invocation_id.partition_key) {
                Ok((p, n)) => r matches Ok(req) && req.node_id == n && req.partition_id == p
                    && req.request_id == request_id
                    && req.inner == PartitionProcessorRpcRequestInner::AppendInvocation(service_invocation, AppendInvocationReplyOn::Submitted),
                Err(_) => r matches Err(e) && resolve_error(self, service_invocation.invocation_id.partition_key, e),
            },
    {
        self.resolve_partition_id(
            request_id,
            PartitionProcessorRpcRequestInner::AppendInvocation(service_invocation, AppendInvocationReplyOn::Submitted),
        )
    }

    /// The request that appends `service_invocation`, answered with its
    /// output.
    pub fn append_invocation_and_wait_output(&self, request_id: RequestId, service_invocation: ServiceInvocation) -> (r: Result<PartitionProcessorRpcRequest, PartitionProcessorRpcClientError>)
        ensures
            match destination(self, service_invocation.invocation_id.partition_key) {
                Ok((p, n)) => r matches Ok(req) && req.node_id == n && req.partition_id == p
                    && req.request_id == request_id
                    && req.inner == PartitionProcessorRpcRequestInner::AppendInvocation(service_invocation, AppendInvocationReplyOn::Output),
                Err(_) => r matches Err(e) && resolve_error(self, service_invocation.invocation_id.partition_key, e),
            },
    {
        self.resolve_partition_id(
            request_id,
            PartitionProcessorRpcRequestInner::AppendInvocation(service_invocation, AppendInvocationReplyOn::Output),
        )
    }

    /// The request that waits for the output of the queried invocation.
    pub fn attach_invocation(&self, request_id: RequestId, invocation_query: InvocationQuery) -> (r: Result<PartitionProcessorRpcRequest, PartitionProcessorRpcClientError>)
        ensures
            match destination(self, query_partition_key(invocation_query)) {
                Ok((p, n)) => r matches Ok(req) && req.node_id == n && req.partition_id == p
                    && req.request_id == request_id
                    && req.inner == PartitionProcessorRpcRequestInner::GetInvocationOutput(invocation_query, GetInvocationOutputResponseMode::BlockWhenNotReady),
                Err(_) => r matches Err(e) && resolve_error(self, query_partition_key(invocation_query), e),
            },
    {
        self.resolve_partition_id(
            request_id,
            PartitionProcessorRpcRequestInner::GetInvocationOutput(invocation_query, GetInvocationOutputResponseMode::BlockWhenNotReady),
        )
    }

    /// The request that asks for the output of the queried invocation without
    /// waiting for it.
    pub fn get_invocation_output(&self, request_id: RequestId, invocation_query: InvocationQuery) -> (r: Result<PartitionProcessorRpcRequest, PartitionProcessorRpcClientError>)
        ensures
            match destination(self, query_partition_key(invocation_query)) {
                Ok((p, n)) => r matches Ok(req) && req.node_id == n && req.partition_id == p
                    && req.request_id == request_id
                    && req.inner == PartitionProcessorRpcRequestInner::GetInvocationOutput(invocation_query, GetInvocationOutputResponseMode::ReplyIfNotReady),
                Err(_) => r matches Err(e) && resolve_error(self, query_partition_key(invocation_query), e),
            },
    {
        self.resolve_partition_id(
            request_id,
            PartitionProcessorRpcRequestInner::GetInvocationOutput(invocation_query, GetInvocationOutputResponseMode::ReplyIfNotReady),
        )
    }

    /// The request that appends an invocation response.
    pub fn append_invocation_response(&self, request_id: RequestId, invocation_response: InvocationResponse) -> (r: Result<PartitionProcessorRpcRequest, PartitionProcessorRpcClientError>)
        ensures
            match destination(self, invocation_response.invocation_id.partition_key) {
                Ok((p, n)) => r matches Ok(req) && req.node_id == n && req.partition_id == p
                    && req.request_id == request_id
                    && req.inner == PartitionProcessorRpcRequestInner::AppendInvocationResponse(invocation_response),
                Err(_) => r matches Err(e) && resolve_error(self, invocation_response.invocation_id.partition_key, e),
            },
    {
        self.resolve_partition_id(
            request_id,
            PartitionProcessorRpcRequestInner::AppendInvocationResponse(invocation_response),
        )
    }
}

/// The answer a partition processor sent, or the error it sent instead,
/// described by its message.
pub type RpcReply<O> = Result<PartitionProcessorRpcResponse<O>, String>;

/// The body of a reply; an error sent by the partition processor becomes an
/// internal error that carries its message.
pub fn into_body<O>(reply: RpcReply<O>) -> (r: Result<PartitionProcessorRpcResponse<O>, PartitionProcessorRpcClientError>)
    ensures
        match reply {
            Ok(resp) => r matches Ok(x) && x == resp,
            Err(msg) => r matches Err(PartitionProcessorRpcClientError::Internal(m)) && m@ == msg@,
        },
{
    match reply {
        Ok(resp) => Ok(resp),
        Err(msg) => Err(PartitionProcessorRpcClientError::Internal(msg)),
    }
}

/// The answer to an invocation appended until submitted: the submit
/// notification, which answers the request it was sent for.
pub fn submitted_outcome<O>(response: PartitionProcessorRpcResponse<O>, request_id: RequestId) -> (n: SubmittedInvocationNotification)
    requires
        response matches PartitionProcessorRpcResponse::Submitted(sent) && sent.request_id == request_id,
    ensures
        response == PartitionProcessorRpcResponse::<O>::Submitted(n),
        n.request_id == request_id,
{
    match response {
        PartitionProcessorRpcResponse::Submitted(n) => n,
        _ => {
            assert(false);
            SubmittedInvocationNotification { request_id, is_new_invocation: false }
        },
    }
}

/// The answer to an invocation appended until it has an output: the output,
/// which answers the request it was sent for.
#[verifier::loop_isolation(false)]
pub fn output_outcome<R>(response: PartitionProcessorRpcResponse<InvocationOutput<R>>, request_id: RequestId) -> (o: InvocationOutput<R>)
    requires
        response matches PartitionProcessorRpcResponse::Output(sent) && sent.request_id == request_id,
    ensures
        response == PartitionProcessorRpcResponse::<InvocationOutput<R>>::Output(o),
        o.request_id == request_id,
{
    match response {
        PartitionProcessorRpcResponse::Output(o) => o,
        _ => {
            proof {
                assert(false);
            }
            loop
                decreases 0nat,
            {
            }
        },
    }
}

/// The answer to attaching to an invocation.
pub fn attach_invocation_outcome<O>(response: PartitionProcessorRpcResponse<O>) -> (r: AttachInvocationResponse<O>)
    requires
        response is NotFound || response is NotSupported || response is Output,
    ensures
        match response {
            PartitionProcessorRpcResponse::NotFound => r is NotFound,
            PartitionProcessorRpcResponse::NotSupported => r is NotSupported,
            PartitionProcessorRpcResponse::Output(o) => r == AttachInvocationResponse::Ready(o),
            _ => false,
        },
{
    match response {
        PartitionProcessorRpcResponse::NotFound => AttachInvocationResponse::NotFound,
        PartitionProcessorRpcResponse::NotSupported => AttachInvocationResponse::NotSupported,
        PartitionProcessorRpcResponse::Output(output) => AttachInvocationResponse::Ready(output),
        _ => {
            proof {
                assert(false);
            }
            AttachInvocationResponse::NotFound
        },
    }
}

/// The answer to asking for an invocation's output.
pub fn get_invocation_output_outcome<O>(response: PartitionProcessorRpcResponse<O>) -> (r: GetInvocationOutputResponse<O>)
    requires
        response is NotFound || response is NotSupported || response is NotReady || response is Output,
    ensures
        match response {
            PartitionProcessorRpcResponse::NotFound => r is NotFound,
            PartitionProcessorRpcResponse::NotSupported => r is NotSupported,
            PartitionProcessorRpcResponse::NotReady => r is NotReady,
            PartitionProcessorRpcResponse::Output(o) => r == GetInvocationOutputResponse::Ready(o),
            _ => false,
        },
{
    match response {
        PartitionProcessorRpcResponse::NotFound => GetInvocationOutputResponse::NotFound,
        PartitionProcessorRpcResponse::NotSupported => GetInvocationOutputResponse::NotSupported,
        PartitionProcessorRpcResponse::NotReady => GetInvocationOutputResponse::NotReady,
        PartitionProcessorRpcResponse::Output(output) => GetInvocationOutputResponse::Ready(output),
        _ => {
            proof {
                assert(false);
            }
            GetInvocationOutputResponse::NotFound
        },
    }
}

} // verus!
