use vstd::prelude::*;

use crate::codec::be_value;
use crate::batch::{flat, into_batches, views, well_batched};
use crate::fsm_table::{all_fsm_variables, decode_sequence_number, fsm_record, FsmKeyValue};
use crate::identifiers::PartitionId;
use crate::keys::StorageError;

verus! {

/// Variables of the partition processor.
#[derive(Debug, Copy, Clone, PartialEq, Eq, Structural)]
pub enum FsmVariable {
    InboxSeqNumber,
    OutboxSeqNumber,
    AppliedLsn,
}

/// The number that represents a variable in storage.
pub open spec fn fsm_variable_repr(v: FsmVariable) -> u64 {
    match v {
        FsmVariable::InboxSeqNumber => 0,
        FsmVariable::OutboxSeqNumber => 1,
        FsmVariable::AppliedLsn => 2,
    }
}

impl FsmVariable {
    /// The numeric representation under which the variable is stored.
    pub fn as_repr(&self) -> (r: u64)
        ensures
            r == fsm_variable_repr(*self),
    {
        match self {
            FsmVariable::InboxSeqNumber => 0,
            FsmVariable::OutboxSeqNumber => 1,
            FsmVariable::AppliedLsn => 2,
        }
    }

    /// The variable that a stored number represents, if any.
    pub fn from_repr(repr: u64) -> (r: Option<FsmVariable>)
        ensures
            r matches Some(v) ==> fsm_variable_repr(v) == repr,
            r is None <==> repr > 2,
    {
        if repr == 0 {
            Some(FsmVariable::InboxSeqNumber)
        } else if repr == 1 {
            Some(FsmVariable::OutboxSeqNumber)
        } else if repr == 2 {
            Some(FsmVariable::AppliedLsn)
        } else {
            None
        }
    }
}

/// A variable's stored number reads back as the variable, and only the
/// numbers of variables read back.
pub proof fn law_repr_roundtrip(v: FsmVariable, repr: u64)
    ensures
        fsm_variable_repr(v) <= 2,
        fsm_variable_repr(v) == repr ==> repr <= 2,
        forall|w: FsmVariable| fsm_variable_repr(w) == fsm_variable_repr(v) ==> w == v,
{
}

/// The variables of one partition, as a row of the `sys_fsm` table.
#[derive(Debug, Copy, Clone, PartialEq, Eq, Structural)]
pub struct FsmVariables {
    pub partition_id: PartitionId,
    pub inbox_sequence_number: u64,
    pub outbox_sequence_number: u64,
    pub last_applied_lsn: u64,
}

/// A row for `partition_id` with every variable at zero.
pub open spec fn empty_row(partition_id: PartitionId) -> FsmVariables {
    FsmVariables {
        partition_id,
        inbox_sequence_number: 0,
        outbox_sequence_number: 0,
        last_applied_lsn: 0,
    }
}

/// The sequence number a stored value holds. A stored sequence number is
/// taken to be its eight big-endian bytes ([`crate::fsm_table::encode_sequence_number`]);
/// this layout stands in for the partition store's value codec, which this
/// library does not implement.
pub open spec fn decoded_sequence_number(value: Seq<u8>) -> Result<u64, StorageError> {
    if value.len() == 8 {
        Ok(be_value(value) as u64)
    } else {
        Err(StorageError::Conversion)
    }
}

/// `row` with `variable` set to `n`.
pub open spec fn with_variable(row: FsmVariables, variable: FsmVariable, n: u64) -> FsmVariables {
    match variable {
        FsmVariable::InboxSeqNumber => FsmVariables { inbox_sequence_number: n, ..row },
        FsmVariable::OutboxSeqNumber => FsmVariables { outbox_sequence_number: n, ..row },
        FsmVariable::AppliedLsn => FsmVariables { last_applied_lsn: n, ..row },
    }
}

/// Folds one stored variable into the rows built so far: a variable of the
/// partition of the last row updates that row, any other starts a new row.
/// The first error, of the scan or of a value, ends the fold.
pub open spec fn group_step(
    acc: Result<Seq<FsmVariables>, StorageError>,
    item: Result<(PartitionId, FsmVariable, Seq<u8>), StorageError>,
) -> Result<Seq<FsmVariables>, StorageError> {
    match acc {
        Err(e) => Err(e),
        Ok(rows) => match item {
            Err(e) => Err(e),
            Ok((p, variable, value)) => match decoded_sequence_number(value) {
                Err(e) => Err(e),
                Ok(n) => if rows.len() > 0 && rows.last().partition_id == p {
                    Ok(rows.update(rows.len() - 1, with_variable(rows.last(), variable, n)))
                } else {
                    Ok(rows.push(with_variable(empty_row(p), variable, n)))
                },
            },
        },
    }
}

/// The rows of `sys_fsm` for a scan of stored variables, in scan order.
pub open spec fn grouped_rows(items: Seq<Result<(PartitionId, FsmVariable, Seq<u8>), StorageError>>) -> Result<
    Seq<FsmVariables>,
    StorageError,
>
    decreases items.len(),
{
    if items.len() == 0 {
        Ok(Seq::empty())
    } else {
        group_step(grouped_rows(items.drop_last()), items.last())
    }
}

/// The stored variable, with its value as bytes.
pub open spec fn item_view(item: Result<FsmKeyValue, StorageError>) -> Result<(PartitionId, FsmVariable, Seq<u8>), StorageError> {
    match item {
        Ok((p, v, value)) => Ok((p, v, value@)),
        Err(e) => Err(e),
    }
}

pub open spec fn items_view(items: Seq<Result<FsmKeyValue, StorageError>>) -> Seq<Result<(PartitionId, FsmVariable, Seq<u8>), StorageError>> {
    items.map_values(|item: Result<FsmKeyValue, StorageError>| item_view(item))
}

/// Sets `variable` of `current_variables` to the sequence number stored in
/// `value`; leaves the row unchanged when the value does not decode.
pub fn update_fsm_variables(current_variables: &mut FsmVariables, variable: FsmVariable, value: &[u8]) -> (r: Result<(), StorageError>)
    ensures
        match decoded_sequence_number(value@) {
            Ok(n) => r is Ok && *final(current_variables) == with_variable(*old(current_variables), variable, n),
            Err(e) => r == Err::<(), StorageError>(e) && *final(current_variables) == *old(current_variables),
        },
{
    let sequence_number = decode_sequence_number(value)?;
    match variable {
        FsmVariable::InboxSeqNumber => {
            current_variables.inbox_sequence_number = sequence_number;
        },
        FsmVariable::OutboxSeqNumber => {
            current_variables.outbox_sequence_number = sequence_number;
        },
        FsmVariable::AppliedLsn => {
            current_variables.last_applied_lsn = sequence_number;
        },
    }
    Ok(())
}

/// Groups stored variables, which a scan yields ordered by partition, into
/// one row per run of the same partition.
pub fn group_fsm_variables(fsm_variables: Vec<Result<FsmKeyValue, StorageError>>) -> (r: Result<Vec<FsmVariables>, StorageError>)
    ensures
        match r {
            Ok(rows) => grouped_rows(items_view(fsm_variables@)) == Ok::<Seq<FsmVariables>, StorageError>(rows@),
            Err(e) => grouped_rows(items_view(fsm_variables@)) == Err::<Seq<FsmVariables>, StorageError>(e),
        },
{
    let ghost items = items_view(fsm_variables@);
    let mut result: Vec<FsmVariables> = Vec::new();
    let mut i: usize = 0;
    while i < fsm_variables.len()
        invariant
            i <= fsm_variables@.len(),
            items == items_view(fsm_variables@),
            grouped_rows(items.take(i as int)) == Ok::<Seq<FsmVariables>, StorageError>(result@),
        decreases fsm_variables@.len() - i,
    {
        proof {
            assert(items.take(i + 1).drop_last() =~= items.take(i as int));
            assert(items.take(i + 1).last() == item_view(fsm_variables@[i as int]));
        }
        match &fsm_variables[i] {
            Err(e) => {
                proof {
                    lemma_grouped_rows_err(items, (i + 1) as nat, *e);
                }
                return Err(*e);
            },
            Ok((partition_id, variable, value)) => {
                let partition_id = *partition_id;
                let len = result.len();
                let starts_row = len == 0 || result[len - 1].partition_id != partition_id;
                let mut current = if starts_row {
                    FsmVariables {
                        partition_id,
                        inbox_sequence_number: 0,
                        outbox_sequence_number: 0,
                        last_applied_lsn: 0,
                    }
                } else {
                    result[len - 1]
                };
                match update_fsm_variables(&mut current, *variable, value.as_slice()) {
                    Err(e) => {
                        proof {
                            lemma_grouped_rows_err(items, (i + 1) as nat, e);
                        }
                        return Err(e);
                    },
                    Ok(()) => {},
                }
                if starts_row {
                    result.push(current);
                } else {
                    result.set(len - 1, current);
                }
            },
        }
        i = i + 1;
    }
    proof {
        assert(items.take(fsm_variables@.len() as int) =~= items);
    }
    Ok(result)
}

/// The `sys_fsm` rows in batches of `batch_size` rows.
pub fn for_each_fsm_variables(fsm_variables: Vec<FsmVariables>, batch_size: usize) -> (batches: Vec<Vec<FsmVariables>>)
    requires
        batch_size > 0,
    ensures
        flat(batches@) == fsm_variables@,
        well_batched(views(batches@), batch_size as nat),
{
    into_batches(fsm_variables, batch_size)
}

/// The stored records of the state machine table, read as variables.
pub open spec fn records_view(records: Seq<(Vec<u8>, Vec<u8>)>) -> Seq<Result<(PartitionId, FsmVariable, Seq<u8>), StorageError>> {
    records.map_values(|r: (Vec<u8>, Vec<u8>)| fsm_record(r.0@, r.1@))
}

/// The `sys_fsm` table for a scan of the state machine table, in batches of
/// `batch_size` rows, or the scan's first error.
pub fn scan_fsm_table(records: Vec<(Vec<u8>, Vec<u8>)>, batch_size: usize) -> (r: Result<Vec<Vec<FsmVariables>>, StorageError>)
    requires
        batch_size > 0,
    ensures
        match r {
            Ok(batches) => grouped_rows(records_view(records@)) == Ok::<Seq<FsmVariables>, StorageError>(flat(batches@))
                && well_batched(views(batches@), batch_size as nat),
            Err(e) => grouped_rows(records_view(records@)) == Err::<Seq<FsmVariables>, StorageError>(e),
        },
{
    let ghost recs = records@;
    let items = all_fsm_variables(records);
    proof {
        assert(items_view(items@) =~= records_view(recs)) by {
            assert forall|i: int| 0 <= i < items@.len() implies items_view(items@)[i] == records_view(recs)[i] by {
                assert(crate::fsm_table::fsm_result_matches(items@[i], fsm_record(recs[i].0@, recs[i].1@)));
            }
        }
    }
    let rows = group_fsm_variables(items)?;
    Ok(for_each_fsm_variables(rows, batch_size))
}

/// Neighbouring rows of `sys_fsm` belong to different partitions: the
/// variables of a run of records of one partition end up in one row.
pub proof fn law_one_row_per_partition_run(items: Seq<Result<(PartitionId, FsmVariable, Seq<u8>), StorageError>>)
    ensures
        grouped_rows(items) matches Ok(rows) ==> forall|i: int|
            0 <= i < rows.len() - 1 ==> #[trigger] rows[i].partition_id != rows[i + 1].partition_id,
    decreases items.len(),
{
    if items.len() > 0 {
        law_one_row_per_partition_run(items.drop_last());
        if let Ok(rows) = grouped_rows(items) {
            let prev = grouped_rows(items.drop_last());
            if let Ok(p) = prev {
                assert forall|i: int| 0 <= i < rows.len() - 1 implies #[trigger] rows[i].partition_id
                    != rows[i + 1].partition_id by {
                    if i < p.len() - 1 {
                        assert(rows[i] == p[i] || i == p.len() - 1);
                    }
                }
            }
        }
    }
}

/// Once a prefix of the scan fails, the whole scan fails with the same error.
proof fn lemma_grouped_rows_err(
    items: Seq<Result<(PartitionId, FsmVariable, Seq<u8>), StorageError>>,
    k: nat,
    e: StorageError,
)
    requires
        k <= items.len(),
        grouped_rows(items.take(k as int)) == Err::<Seq<FsmVariables>, StorageError>(e),
    ensures
        grouped_rows(items) == Err::<Seq<FsmVariables>, StorageError>(e),
    decreases items.len() - k,
{
    if k < items.len() {
        assert(items.take((k + 1) as int).drop_last() =~= items.take(k as int));
        lemma_grouped_rows_err(items, k + 1, e);
    } else {
        assert(items.take(k as int) =~= items);
    }
}

} // verus!
