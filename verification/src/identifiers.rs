use vstd::prelude::*;

verus! {

/// Key that places an invocation in the partition key space.
pub type PartitionKey = u64;

/// Identifier of a partition.
pub type PartitionId = u64;

/// Index of an entry in an invocation's journal.
pub type EntryIndex = u32;

/// The unique part of an invocation identifier.
#[derive(Debug, Copy, Clone, PartialEq, Eq, Structural)]
pub struct InvocationUuid {
    pub value: u128,
}

impl InvocationUuid {
    /// The uuid whose high 64 bits are `high` and low 64 bits are `low`.
    pub fn from_parts(high: u64, low: u64) -> (r: InvocationUuid)
        ensures
            r.value == high * 0x1_0000_0000_0000_0000 + low,
    {
        assert(high * 0x1_0000_0000_0000_0000 + low <= u128::MAX) by (nonlinear_arith)
            requires
                high <= u64::MAX,
                low <= u64::MAX,
        ;
        InvocationUuid { value: (high as u128) * 0x1_0000_0000_0000_0000u128 + (low as u128) }
    }
}

/// Identifier of an invocation: its partition key and its uuid.
#[derive(Debug, Copy, Clone, PartialEq, Eq, Structural)]
pub struct InvocationId {
    pub partition_key: PartitionKey,
    pub invocation_uuid: InvocationUuid,
}

impl InvocationId {
    pub fn from_parts(partition_key: PartitionKey, invocation_uuid: InvocationUuid) -> (r: InvocationId)
        ensures
            r.partition_key == partition_key,
            r.invocation_uuid == invocation_uuid,
    {
        InvocationId { partition_key, invocation_uuid }
    }

    pub fn partition_key(&self) -> (r: PartitionKey)
        ensures
            r == self.partition_key,
    {
        self.partition_key
    }

    pub fn invocation_uuid(&self) -> (r: InvocationUuid)
        ensures
            r == self.invocation_uuid,
    {
        self.invocation_uuid
    }
}

} // verus!
