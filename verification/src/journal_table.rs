use vstd::prelude::*;

use crate::identifiers::{EntryIndex, InvocationId, InvocationUuid};
use crate::codec::lex_lt;
use crate::keys::{decode_journal_key, journal_key_bytes, JournalKey, StorageError};

verus! {

/// The key under which entry `journal_index` of `invocation_id`'s journal is
/// stored.
pub open spec fn journal_entry_key(invocation_id: InvocationId, journal_index: u32) -> JournalKey {
    JournalKey {
        partition_key: Some(invocation_id.partition_key),
        invocation_uuid: Some(invocation_id.invocation_uuid.value),
        journal_index: Some(journal_index),
    }
}

/// The key under which entry `journal_index` of `invocation_id`'s journal is
/// stored.
pub fn write_journal_entry_key(invocation_id: &InvocationId, journal_index: u32) -> (k: JournalKey)
    ensures
        k == journal_entry_key(*invocation_id, journal_index),
{
    JournalKey::empty().partition_key(invocation_id.partition_key()).invocation_uuid(
        invocation_id.invocation_uuid().value,
    ).journal_index(journal_index)
}

/// The key to read to get entry `journal_index` of `invocation_id`'s journal.
pub fn get_journal_entry(invocation_id: &InvocationId, journal_index: u32) -> (key: Vec<u8>)
    ensures
        key@ == journal_key_bytes(journal_entry_key(*invocation_id, journal_index)),
{
    write_journal_entry_key(invocation_id, journal_index).serialize()
}

/// The record that stores `journal_entry` as entry `journal_index` of
/// `invocation_id`'s journal.
pub fn put_journal_entry(invocation_id: &InvocationId, journal_index: u32, journal_entry: Vec<u8>) -> (kv: (Vec<u8>, Vec<u8>))
    ensures
        kv.0@ == journal_key_bytes(journal_entry_key(*invocation_id, journal_index)),
        kv.1@ == journal_entry@,
{
    (write_journal_entry_key(invocation_id, journal_index).serialize(), journal_entry)
}

/// What is read back for an entry is what was written for it: the record a
/// put stores is found under the key a get reads, and decodes to the entry's
/// invocation and index.
pub proof fn law_journal_entry_read_back(invocation_id: InvocationId, journal_index: u32)
    ensures
        decode_journal_key(journal_key_bytes(journal_entry_key(invocation_id, journal_index)))
            == Some(journal_entry_key(invocation_id, journal_index)),
{
    crate::keys::law_journal_key_roundtrip(journal_entry_key(invocation_id, journal_index));
}

/// The prefix shared by the keys of all entries of `invocation_id`'s journal.
pub fn journal_prefix_key(invocation_id: &InvocationId) -> (k: JournalKey)
    ensures
        k == (JournalKey {
            partition_key: Some(invocation_id.partition_key),
            invocation_uuid: Some(invocation_id.invocation_uuid.value),
            journal_index: None,
        }),
{
    JournalKey::empty().partition_key(invocation_id.partition_key()).invocation_uuid(
        invocation_id.invocation_uuid().value,
    )
}

/// What a scanned journal record yields: its index and stored entry, or an
/// error when the key is not a journal key. The entry is the stored value as
/// raw bytes: this library does not decode journal entries, so a value the
/// partition store's codec would reject is still yielded, not turned into an
/// error.
pub open spec fn journal_record(record: (Seq<u8>, Seq<u8>)) -> Result<(u32, Seq<u8>), StorageError> {
    match decode_journal_key(record.0) {
        Some(k) => Ok((k.journal_index->0, record.1)),
        None => Err(StorageError::CorruptKey),
    }
}

/// The number of records that a journal read of `journal_length` entries
/// takes from a scan of `available` records: the scan always takes at least
/// one record, and stops after the `journal_length`-th.
pub open spec fn journal_read_count(available: nat, journal_length: nat) -> nat {
    let wanted = if journal_length == 0 { 1 } else { journal_length };
    if available < wanted { available } else { wanted }
}

/// The records that putting `entries[i]` as entry `i` of `invocation_id`'s
/// journal stores, for each index, listed by index.
pub open spec fn stored_journal(invocation_id: InvocationId, entries: Seq<Seq<u8>>) -> Seq<(Seq<u8>, Seq<u8>)> {
    Seq::new(
        entries.len(),
        |i: int| (journal_key_bytes(journal_entry_key(invocation_id, i as u32)), entries[i]),
    )
}

/// A journal reads back as it was written: the records stored for entries
/// `0..L` sort by key in index order, which is the order a prefix scan yields
/// them in; a read of `L` entries takes all of them; and each gives back its
/// index and the entry written for it.
pub proof fn law_journal_read_back(invocation_id: InvocationId, entries: Seq<Seq<u8>>)
    requires
        1 <= entries.len() <= u32::MAX,
    ensures
        ({
            let records = stored_journal(invocation_id, entries);
            &&& forall|i: int, j: int|
                0 <= i < j < records.len() ==> lex_lt(#[trigger] records[i].0, #[trigger] records[j].0)
            &&& journal_read_count(records.len(), entries.len()) == entries.len()
            &&& forall|i: int|
                0 <= i < records.len() ==> #[trigger] journal_record(records[i]) == Ok::<
                    (u32, Seq<u8>),
                    StorageError,
                >((i as u32, entries[i]))
        }),
{
    let records = stored_journal(invocation_id, entries);
    assert forall|i: int, j: int| 0 <= i < j < records.len() implies lex_lt(
        #[trigger] records[i].0,
        #[trigger] records[j].0,
    ) by {
        crate::keys::law_journal_keys_sort_lex(
            journal_entry_key(invocation_id, i as u32),
            journal_entry_key(invocation_id, j as u32),
        );
    }
    assert forall|i: int| 0 <= i < records.len() implies #[trigger] journal_record(records[i]) == Ok::<
        (u32, Seq<u8>),
        StorageError,
    >((i as u32, entries[i])) by {
        law_journal_entry_read_back(invocation_id, i as u32);
    }
}

/// A scanned record whose key decodes as a journal key carries an index.
pub open spec fn journal_records_indexed(records: Seq<(Vec<u8>, Vec<u8>)>) -> bool {
    forall|i: int|
        0 <= i < records.len() ==> (#[trigger] decode_journal_key(records[i].0@) matches Some(k)
            ==> k.journal_index is Some)
}

/// Reads a journal from the records that a prefix scan over the invocation's
/// keys yields, in key order: each record gives its index and entry, as raw
/// bytes, and the read stops after `journal_length` records.
pub fn get_journal(records: &Vec<(Vec<u8>, Vec<u8>)>, journal_length: EntryIndex) -> (r: Vec<
    Result<(u32, Vec<u8>), StorageError>,
>)
    requires
        journal_records_indexed(records@),
    ensures
        r@.len() == journal_read_count(records@.len(), journal_length as nat),
        forall|i: int|
            0 <= i < r@.len() ==> match #[trigger] r@[i] {
                Ok((idx, entry)) => journal_record((records@[i].0@, records@[i].1@)) == Ok::<
                    (u32, Seq<u8>),
                    StorageError,
                >((idx, entry@)),
                Err(e) => journal_record((records@[i].0@, records@[i].1@)) == Err::<
                    (u32, Seq<u8>),
                    StorageError,
                >(e),
            },
{
    let mut out: Vec<Result<(u32, Vec<u8>), StorageError>> = Vec::new();
    let mut n: u32 = 0;
    let mut i: usize = 0;
    while i < records.len()
        invariant_except_break
            i > 0 ==> i < (if journal_length == 0 { 1 } else { journal_length as nat }),
        invariant
            journal_records_indexed(records@),
            i <= records@.len(),
            out@.len() == i,
            n as nat == i,
            forall|j: int|
                0 <= j < out@.len() ==> match #[trigger] out@[j] {
                    Ok((idx, entry)) => journal_record((records@[j].0@, records@[j].1@)) == Ok::<
                        (u32, Seq<u8>),
                        StorageError,
                    >((idx, entry@)),
                    Err(e) => journal_record((records@[j].0@, records@[j].1@)) == Err::<
                        (u32, Seq<u8>),
                        StorageError,
                    >(e),
                },
        ensures
            out@.len() == journal_read_count(records@.len(), journal_length as nat),
            forall|j: int|
                0 <= j < out@.len() ==> match #[trigger] out@[j] {
                    Ok((idx, entry)) => journal_record((records@[j].0@, records@[j].1@)) == Ok::<
                        (u32, Seq<u8>),
                        StorageError,
                    >((idx, entry@)),
                    Err(e) => journal_record((records@[j].0@, records@[j].1@)) == Err::<
                        (u32, Seq<u8>),
                        StorageError,
                    >(e),
                },
        decreases records@.len() - i,
    {
        let (key, value) = &records[i];
        let result = match JournalKey::deserialize_from(key.as_slice()) {
            Ok(journal_key) => {
                proof {
                    assert(decode_journal_key(records@[i as int].0@) matches Some(k) ==> k.journal_index
                        is Some);
                }
                match journal_key.journal_index {
                    Some(index) => Ok((index, value.clone())),
                    None => Err(StorageError::CorruptKey),
                }
            },
            Err(e) => Err(e),
        };
        out.push(result);
        n = n + 1;
        i = i + 1;
        if n >= journal_length {
            break ;
        }
    }
    out
}

/// The keys to delete to drop the first `journal_length` entries of
/// `invocation_id`'s journal.
pub fn delete_journal(invocation_id: &InvocationId, journal_length: EntryIndex) -> (r: Vec<Vec<u8>>)
    ensures
        r@.len() == journal_length,
        forall|i: int|
            0 <= i < journal_length ==> (#[trigger] r@[i])@ == journal_key_bytes(
                journal_entry_key(*invocation_id, i as u32),
            ),
{
    let mut keys: Vec<Vec<u8>> = Vec::new();
    let mut journal_index: u32 = 0;
    while journal_index < journal_length
        invariant
            journal_index <= journal_length,
            keys@.len() == journal_index,
            forall|i: int|
                0 <= i < journal_index ==> (#[trigger] keys@[i])@ == journal_key_bytes(
                    journal_entry_key(*invocation_id, i as u32),
                ),
        decreases journal_length - journal_index,
    {
        let key = write_journal_entry_key(invocation_id, journal_index);
        keys.push(key.serialize());
        journal_index = journal_index + 1;
    }
    keys
}

/// A journal entry together with the invocation and index it belongs to.
pub struct OwnedJournalRow {
    pub invocation_id: InvocationId,
    pub journal_index: u32,
    pub journal_entry: Vec<u8>,
}

/// The stored record is a complete journal key with its entry.
pub open spec fn complete_journal_record(key: Seq<u8>) -> bool {
    decode_journal_key(key) matches Some(k) && k.partition_key is Some && k.invocation_uuid is Some
        && k.journal_index is Some
}

/// The rows of all journal records that a scan over a range of partition keys
/// yields. Each entry is the stored value as raw bytes: this library does not
/// decode journal entries, so no value is rejected as undecodable.
pub fn all_journal(records: &Vec<(Vec<u8>, Vec<u8>)>) -> (rows: Vec<OwnedJournalRow>)
    requires
        forall|i: int| 0 <= i < records@.len() ==> complete_journal_record(#[trigger] records@[i].0@),
    ensures
        rows@.len() == records@.len(),
        forall|i: int|
            0 <= i < rows@.len() ==> {
                let k = decode_journal_key(records@[i].0@)->0;
                &&& (#[trigger] rows@[i]).invocation_id.partition_key == k.partition_key->0
                &&& rows@[i].invocation_id.invocation_uuid.value == k.invocation_uuid->0
                &&& rows@[i].journal_index == k.journal_index->0
                &&& rows@[i].journal_entry@ == records@[i].1@
            },
{
    let mut rows: Vec<OwnedJournalRow> = Vec::new();
    let mut i: usize = 0;
    while i < records.len()
        invariant
            i <= records@.len(),
            forall|i: int| 0 <= i < records@.len() ==> complete_journal_record(#[trigger] records@[i].0@),
            rows@.len() == i,
            forall|j: int|
                0 <= j < i ==> {
                    let k = decode_journal_key(records@[j].0@)->0;
                    &&& (#[trigger] rows@[j]).invocation_id.partition_key == k.partition_key->0
                    &&& rows@[j].invocation_id.invocation_uuid.value == k.invocation_uuid->0
                    &&& rows@[j].journal_index == k.journal_index->0
                    &&& rows@[j].journal_entry@ == records@[j].1@
                },
        decreases records@.len() - i,
    {
        let (key, value) = &records[i];
        proof {
            assert(complete_journal_record(records@[i as int].0@));
        }
        match JournalKey::deserialize_from(key.as_slice()) {
            Ok(journal_key) => {
                match (journal_key.partition_key, journal_key.invocation_uuid, journal_key.journal_index) {
                    (Some(partition_key), Some(uuid), Some(journal_index)) => {
                        rows.push(
                            OwnedJournalRow {
                                invocation_id: InvocationId::from_parts(
                                    partition_key,
                                    InvocationUuid { value: uuid },
                                ),
                                journal_index,
                                journal_entry: value.clone(),
                            },
                        );
                    },
                    _ => {
                        assert(false);
                    },
                }
            },
            Err(_) => {
                assert(false);
            },
        }
        i = i + 1;
    }
    rows
}

} // verus!
