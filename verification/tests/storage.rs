use restate_logic::fsm::{group_fsm_variables, scan_fsm_table, update_fsm_variables, FsmVariable, FsmVariables};
use restate_logic::fsm_table::{
    all_fsm_variables, clear, decode_sequence_number, encode_sequence_number, extract_fsm_variable, get, put,
};
use restate_logic::identifiers::{InvocationId, InvocationUuid};
use restate_logic::journal_table::{
    all_journal, delete_journal, get_journal, get_journal_entry, journal_prefix_key, put_journal_entry,
    write_journal_entry_key,
};
use restate_logic::keys::{JournalKey, PartitionStateMachineKey, StorageError};

fn fsm_key(partition_id: u64, state_id: u64) -> Vec<u8> {
    PartitionStateMachineKey::empty().partition_id(partition_id).state_id(state_id).serialize()
}

fn invocation() -> InvocationId {
    InvocationId::from_parts(7, InvocationUuid::from_parts(0, 42))
}

#[test]
fn fsm_variable_reprs() {
    assert_eq!(FsmVariable::InboxSeqNumber.as_repr(), 0);
    assert_eq!(FsmVariable::OutboxSeqNumber.as_repr(), 1);
    assert_eq!(FsmVariable::AppliedLsn.as_repr(), 2);
    assert_eq!(FsmVariable::from_repr(2), Some(FsmVariable::AppliedLsn));
    assert_eq!(FsmVariable::from_repr(3), None);
}

#[test]
fn fsm_key_layout() {
    let key = fsm_key(1, 2);
    assert_eq!(key, vec![0x66, 0x73, 0, 0, 0, 0, 0, 0, 0, 1, 0, 0, 0, 0, 0, 0, 0, 2]);
    assert_eq!(PartitionStateMachineKey::empty().serialize(), vec![0x66, 0x73]);
    assert_eq!(get(1, 2), key);
    assert_eq!(clear(1, 2), key);
    assert_eq!(put(1, 2, vec![9]), (key, vec![9]));
}

#[test]
fn journal_key_roundtrip() {
    let key = write_journal_entry_key(&invocation(), 5);
    let bytes = key.serialize();
    assert_eq!(bytes.len(), 30);
    assert_eq!(&bytes[0..2], &[0x6a, 0x6f]);
    assert_eq!(JournalKey::deserialize_from(&bytes), Ok(key));
    let prefix = journal_prefix_key(&invocation());
    assert_eq!(JournalKey::deserialize_from(&prefix.serialize()), Ok(prefix));
    assert_eq!(prefix.journal_index, None);
}

#[test]
fn journal_key_rejects_corrupt_bytes() {
    assert_eq!(JournalKey::deserialize_from(&[0x66, 0x73]), Err(StorageError::CorruptKey));
    assert_eq!(JournalKey::deserialize_from(&[0x6a, 0x6f, 1, 2, 3]), Err(StorageError::CorruptKey));
    assert_eq!(JournalKey::deserialize_from(&[0x6a]), Err(StorageError::CorruptKey));
}

#[test]
fn journal_keys_sort_by_partition_first() {
    let a = write_journal_entry_key(&InvocationId::from_parts(1, InvocationUuid::from_parts(9, 9)), 9).serialize();
    let b = write_journal_entry_key(&InvocationId::from_parts(2, InvocationUuid::from_parts(0, 0)), 0).serialize();
    assert!(a < b);
    let c = write_journal_entry_key(&InvocationId::from_parts(1, InvocationUuid::from_parts(1, 0)), 0).serialize();
    let d = write_journal_entry_key(&InvocationId::from_parts(1, InvocationUuid::from_parts(0, u64::MAX)), 300).serialize();
    assert!(d < c);
}

fn journal_records(n: u32) -> Vec<(Vec<u8>, Vec<u8>)> {
    (0..n)
        .map(|i| (write_journal_entry_key(&invocation(), i).serialize(), vec![i as u8]))
        .collect()
}

#[test]
fn get_journal_stops_after_length() {
    let records = journal_records(3);
    let read = get_journal(&records, 2);
    assert_eq!(read, vec![Ok((0, vec![0])), Ok((1, vec![1]))]);
    assert_eq!(get_journal(&records, 5).len(), 3);
}

#[test]
fn get_journal_of_length_zero_reads_one_record() {
    let records = journal_records(3);
    assert_eq!(get_journal(&records, 0), vec![Ok((0, vec![0]))]);
    assert_eq!(get_journal(&Vec::new(), 0), vec![]);
}

#[test]
fn get_journal_reports_corrupt_keys() {
    let records = vec![(vec![0x6a, 0x6f, 1], vec![1])];
    assert_eq!(get_journal(&records, 1), vec![Err(StorageError::CorruptKey)]);
}

#[test]
fn delete_journal_lists_every_entry_key() {
    let keys = delete_journal(&invocation(), 3);
    assert_eq!(keys.len(), 3);
    for (i, key) in keys.iter().enumerate() {
        assert_eq!(*key, write_journal_entry_key(&invocation(), i as u32).serialize());
    }
    assert!(delete_journal(&invocation(), 0).is_empty());
}

#[test]
fn all_journal_rows() {
    let records = journal_records(2);
    let rows = all_journal(&records);
    assert_eq!(rows.len(), 2);
    assert_eq!(rows[1].invocation_id, invocation());
    assert_eq!(rows[1].journal_index, 1);
    assert_eq!(rows[1].journal_entry, vec![1]);
}

#[test]
fn sequence_numbers_roundtrip() {
    let bytes = encode_sequence_number(0x0102);
    assert_eq!(bytes, vec![0, 0, 0, 0, 0, 0, 1, 2]);
    assert_eq!(decode_sequence_number(&bytes), Ok(0x0102));
    assert_eq!(decode_sequence_number(&[1, 2]), Err(StorageError::Conversion));
}

#[test]
fn extract_fsm_variable_cases() {
    assert_eq!(
        extract_fsm_variable(&fsm_key(4, 1), vec![5]),
        Ok((4, FsmVariable::OutboxSeqNumber, vec![5]))
    );
    assert_eq!(extract_fsm_variable(&fsm_key(4, 7), vec![5]), Err(StorageError::DataIntegrityError));
    let partial = PartitionStateMachineKey::empty().partition_id(4).serialize();
    assert_eq!(extract_fsm_variable(&partial, vec![5]), Err(StorageError::DataIntegrityError));
    assert_eq!(extract_fsm_variable(&[1, 2, 3], vec![5]), Err(StorageError::CorruptKey));
}

#[test]
fn fsm_variables_group_by_partition() {
    let records = vec![
        (fsm_key(1, 0), encode_sequence_number(10)),
        (fsm_key(1, 2), encode_sequence_number(30)),
        (fsm_key(2, 1), encode_sequence_number(20)),
    ];
    let rows = group_fsm_variables(all_fsm_variables(records.clone())).unwrap();
    assert_eq!(
        rows,
        vec![
            FsmVariables { partition_id: 1, inbox_sequence_number: 10, outbox_sequence_number: 0, last_applied_lsn: 30 },
            FsmVariables { partition_id: 2, inbox_sequence_number: 0, outbox_sequence_number: 20, last_applied_lsn: 0 },
        ]
    );
    let batches = scan_fsm_table(records, 1).unwrap();
    assert_eq!(batches.len(), 2);
    assert_eq!(batches[1][0].partition_id, 2);
}

#[test]
fn fsm_grouping_fails_on_first_error() {
    let items = vec![
        Ok((1, FsmVariable::InboxSeqNumber, encode_sequence_number(1))),
        Err(StorageError::CorruptKey),
        Ok((1, FsmVariable::AppliedLsn, vec![1])),
    ];
    assert_eq!(group_fsm_variables(items), Err(StorageError::CorruptKey));
    let bad_value = vec![Ok((1, FsmVariable::InboxSeqNumber, vec![1, 2]))];
    assert_eq!(group_fsm_variables(bad_value), Err(StorageError::Conversion));
    assert_eq!(group_fsm_variables(Vec::new()), Ok(Vec::new()));
}

#[test]
fn update_leaves_row_on_bad_value() {
    let mut row = FsmVariables { partition_id: 3, inbox_sequence_number: 1, outbox_sequence_number: 2, last_applied_lsn: 3 };
    assert_eq!(update_fsm_variables(&mut row, FsmVariable::AppliedLsn, &[0]), Err(StorageError::Conversion));
    assert_eq!(row.last_applied_lsn, 3);
    assert_eq!(update_fsm_variables(&mut row, FsmVariable::AppliedLsn, &encode_sequence_number(9)), Ok(()));
    assert_eq!(row.last_applied_lsn, 9);
}

#[test]
fn journal_entry_is_read_where_it_is_written() {
    let (key, value) = put_journal_entry(&invocation(), 3, vec![1, 2]);
    assert_eq!(key, get_journal_entry(&invocation(), 3));
    assert_eq!(value, vec![1, 2]);
    assert_eq!(JournalKey::deserialize_from(&key), Ok(write_journal_entry_key(&invocation(), 3)));
}

#[test]
fn journal_reads_back_as_written() {
    let mut records: Vec<(Vec<u8>, Vec<u8>)> = (0..4u32)
        .map(|i| put_journal_entry(&invocation(), i, vec![10 + i as u8, 7]))
        .collect();
    let written = records.clone();
    records.sort();
    assert_eq!(records, written);
    assert_eq!(
        get_journal(&records, 4),
        vec![Ok((0, vec![10, 7])), Ok((1, vec![11, 7])), Ok((2, vec![12, 7])), Ok((3, vec![13, 7]))]
    );
}
