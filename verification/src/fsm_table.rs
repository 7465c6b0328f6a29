use vstd::prelude::*;

use crate::codec::{
    be_bytes, be_value, lemma_be_bytes_len, lemma_be_value_bound, lemma_be_value_of_bytes,
    lemma_pow256_values, push_be, read_be,
};
use crate::fsm::{fsm_variable_repr, FsmVariable};
use crate::identifiers::PartitionId;
use crate::keys::{decode_fsm_key, fsm_key_bytes, PartitionStateMachineKey, StorageError};

verus! {

/// A stored state machine variable: its partition, which variable, and its
/// stored value.
pub type FsmKeyValue = (PartitionId, FsmVariable, Vec<u8>);

/// The key of variable `state_id` of partition `partition_id`.
pub open spec fn state_key(partition_id: PartitionId, state_id: u64) -> PartitionStateMachineKey {
    PartitionStateMachineKey { partition_id: Some(partition_id), state_id: Some(state_id) }
}

fn state_key_bytes(partition_id: PartitionId, state_id: u64) -> (r: Vec<u8>)
    ensures
        r@ == fsm_key_bytes(state_key(partition_id, state_id)),
{
    PartitionStateMachineKey::empty().partition_id(partition_id).state_id(state_id).serialize()
}

/// The key to read to get variable `state_id` of partition `partition_id`.
pub fn get(partition_id: PartitionId, state_id: u64) -> (key: Vec<u8>)
    ensures
        key@ == fsm_key_bytes(state_key(partition_id, state_id)),
{
    state_key_bytes(partition_id, state_id)
}

/// The record that stores `state_value` as variable `state_id` of partition
/// `partition_id`.
pub fn put(partition_id: PartitionId, state_id: u64, state_value: Vec<u8>) -> (kv: (Vec<u8>, Vec<u8>))
    ensures
        kv.0@ == fsm_key_bytes(state_key(partition_id, state_id)),
        kv.1@ == state_value@,
{
    (state_key_bytes(partition_id, state_id), state_value)
}

/// The key to delete to clear variable `state_id` of partition
/// `partition_id`.
pub fn clear(partition_id: PartitionId, state_id: u64) -> (key: Vec<u8>)
    ensures
        key@ == fsm_key_bytes(state_key(partition_id, state_id)),
{
    state_key_bytes(partition_id, state_id)
}

/// What a stored record of the state machine table stands for.
pub open spec fn fsm_record(key: Seq<u8>, value: Seq<u8>) -> Result<(PartitionId, FsmVariable, Seq<u8>), StorageError> {
    match decode_fsm_key(key) {
        None => Err(StorageError::CorruptKey),
        Some(k) => match (k.partition_id, k.state_id) {
            (Some(p), Some(s)) => if s <= 2 {
                Ok((p, choose|v: FsmVariable| fsm_variable_repr(v) == s, value))
            } else {
                Err(StorageError::DataIntegrityError)
            },
            _ => Err(StorageError::DataIntegrityError),
        },
    }
}

/// Whether `r` stands for the same record as `spec_r`.
pub open spec fn fsm_result_matches(
    r: Result<FsmKeyValue, StorageError>,
    spec_r: Result<(PartitionId, FsmVariable, Seq<u8>), StorageError>,
) -> bool {
    match r {
        Ok((p, v, value)) => spec_r == Ok::<(PartitionId, FsmVariable, Seq<u8>), StorageError>((p, v, value@)),
        Err(e) => spec_r == Err::<(PartitionId, FsmVariable, Seq<u8>), StorageError>(e),
    }
}

/// The partition, variable and value of a stored state machine record.
pub fn extract_fsm_variable(key: &[u8], value: Vec<u8>) -> (r: Result<FsmKeyValue, StorageError>)
    ensures
        fsm_result_matches(r, fsm_record(key@, value@)),
{
    let k = PartitionStateMachineKey::deserialize_from(key)?;
    match (k.partition_id, k.state_id) {
        (Some(partition_id), Some(state_id)) => {
            match FsmVariable::from_repr(state_id) {
                Some(fsm_variable) => {
                    proof {
                        let c = choose|v: FsmVariable| fsm_variable_repr(v) == state_id;
                        assert(fsm_variable_repr(fsm_variable) == state_id);
                        assert(fsm_variable_repr(c) == state_id);
                        assert(c == fsm_variable);
                    }
                    Ok((partition_id, fsm_variable, value))
                },
                None => Err(StorageError::DataIntegrityError),
            }
        },
        _ => Err(StorageError::DataIntegrityError),
    }
}

/// Every record of a scan over the state machine table, read as a variable.
pub fn all_fsm_variables(records: Vec<(Vec<u8>, Vec<u8>)>) -> (r: Vec<Result<FsmKeyValue, StorageError>>)
    ensures
        r@.len() == records@.len(),
        forall|i: int|
            0 <= i < r@.len() ==> fsm_result_matches(
                #[trigger] r@[i],
                fsm_record(records@[i].0@, records@[i].1@),
            ),
{
    let mut out: Vec<Result<FsmKeyValue, StorageError>> = Vec::new();
    let mut i: usize = 0;
    while i < records.len()
        invariant
            i <= records@.len(),
            out@.len() == i,
            forall|j: int|
                0 <= j < i ==> fsm_result_matches(
                    #[trigger] out@[j],
                    fsm_record(records@[j].0@, records@[j].1@),
                ),
        decreases records@.len() - i,
    {
        let (key, value) = &records[i];
        out.push(extract_fsm_variable(key.as_slice(), value.clone()));
        i = i + 1;
    }
    out
}

/// The stored form of a sequence number: its eight big-endian bytes. This
/// layout stands in for the partition store's value codec, which this
/// library does not implement.
pub open spec fn sequence_number_bytes(n: u64) -> Seq<u8> {
    be_bytes(n as nat, 8)
}

/// Encodes a sequence number for storage.
pub fn encode_sequence_number(n: u64) -> (r: Vec<u8>)
    ensures
        r@ == sequence_number_bytes(n),
{
    let mut out: Vec<u8> = Vec::new();
    push_be(&mut out, n as u128, 8);
    assert(out@ =~= sequence_number_bytes(n));
    out
}

/// Decodes a stored sequence number.
pub fn decode_sequence_number(value: &[u8]) -> (r: Result<u64, StorageError>)
    ensures
        match r {
            Ok(n) => value@.len() == 8 && n == be_value(value@) && value@ == sequence_number_bytes(n),
            Err(e) => value@.len() != 8 && e == StorageError::Conversion,
        },
{
    if value.len() != 8 {
        return Err(StorageError::Conversion);
    }
    let v = read_be(value, 0, 8);
    proof {
        lemma_pow256_values();
        assert(value@.subrange(0, 8) =~= value@);
        lemma_be_value_bound(value@);
        crate::keys::lemma_be_bytes_of_value(value@);
    }
    Ok(v as u64)
}

/// A stored sequence number decodes to the number that was stored.
pub proof fn law_sequence_number_roundtrip(n: u64)
    ensures
        sequence_number_bytes(n).len() == 8,
        be_value(sequence_number_bytes(n)) == n,
{
    lemma_pow256_values();
    lemma_be_bytes_len(n as nat, 8);
    lemma_be_value_of_bytes(n as nat, 8);
}

} // verus!
