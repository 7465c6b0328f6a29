use vstd::prelude::*;

use crate::codec::{
    be_bytes, be_value, lemma_be_bytes_len, lemma_be_bytes_order, lemma_be_value_bound,
    lemma_be_value_of_bytes, lemma_lex_asymmetric, lemma_lex_concat, lemma_pow256_values,
    lex_lt, pow256, push_be, read_be,
};

verus! {

/// Errors of the partition store.
#[derive(Debug, Copy, Clone, PartialEq, Eq, Structural)]
pub enum StorageError {
    /// A stored key does not have the layout of its table.
    CorruptKey,
    /// A stored record is inconsistent with the tables' rules.
    DataIntegrityError,
    /// A stored value could not be decoded.
    Conversion,
}

/// Prefix of every key of the journal table.
pub open spec fn journal_kind() -> Seq<u8> {
    seq![0x6au8, 0x6fu8]
}

/// Prefix of every key of the partition state machine table.
pub open spec fn fsm_kind() -> Seq<u8> {
    seq![0x66u8, 0x73u8]
}

/// Key of a journal entry: partition key, invocation uuid and index within the
/// journal. A key whose trailing components are absent is a prefix of all the
/// keys that complete it.
#[derive(Debug, Copy, Clone, PartialEq, Eq, Structural)]
pub struct JournalKey {
    pub partition_key: Option<u64>,
    pub invocation_uuid: Option<u128>,
    pub journal_index: Option<u32>,
}

/// Key of a variable of a partition's state machine.
#[derive(Debug, Copy, Clone, PartialEq, Eq, Structural)]
pub struct PartitionStateMachineKey {
    pub partition_id: Option<u64>,
    pub state_id: Option<u64>,
}

/// No component is present after an absent one.
pub open spec fn journal_key_well_shaped(k: JournalKey) -> bool {
    &&& k.partition_key is None ==> k.invocation_uuid is None
    &&& k.invocation_uuid is None ==> k.journal_index is None
}

/// No component is present after an absent one.
pub open spec fn fsm_key_well_shaped(k: PartitionStateMachineKey) -> bool {
    k.partition_id is None ==> k.state_id is None
}

/// Serialized journal key: the table prefix, then each present component in
/// big-endian order, up to the first absent one.
pub open spec fn journal_key_bytes(k: JournalKey) -> Seq<u8> {
    journal_kind() + match k.partition_key {
        None => Seq::empty(),
        Some(pk) => be_bytes(pk as nat, 8) + match k.invocation_uuid {
            None => Seq::empty(),
            Some(u) => be_bytes(u as nat, 16) + match k.journal_index {
                None => Seq::empty(),
                Some(i) => be_bytes(i as nat, 4),
            },
        },
    }
}

/// Serialized state machine key: the table prefix, then each present
/// component in big-endian order, up to the first absent one.
pub open spec fn fsm_key_bytes(k: PartitionStateMachineKey) -> Seq<u8> {
    fsm_kind() + match k.partition_id {
        None => Seq::empty(),
        Some(p) => be_bytes(p as nat, 8) + match k.state_id {
            None => Seq::empty(),
            Some(s) => be_bytes(s as nat, 8),
        },
    }
}

/// The journal key that `b` serializes, if `b` is one.
pub open spec fn decode_journal_key(b: Seq<u8>) -> Option<JournalKey> {
    if b.len() < 2 || b.subrange(0, 2) != journal_kind() {
        None
    } else if b.len() == 2 {
        Some(JournalKey { partition_key: None, invocation_uuid: None, journal_index: None })
    } else if b.len() == 10 {
        Some(
            JournalKey {
                partition_key: Some(be_value(b.subrange(2, 10)) as u64),
                invocation_uuid: None,
                journal_index: None,
            },
        )
    } else if b.len() == 26 {
        Some(
            JournalKey {
                partition_key: Some(be_value(b.subrange(2, 10)) as u64),
                invocation_uuid: Some(be_value(b.subrange(10, 26)) as u128),
                journal_index: None,
            },
        )
    } else if b.len() == 30 {
        Some(
            JournalKey {
                partition_key: Some(be_value(b.subrange(2, 10)) as u64),
                invocation_uuid: Some(be_value(b.subrange(10, 26)) as u128),
                journal_index: Some(be_value(b.subrange(26, 30)) as u32),
            },
        )
    } else {
        None
    }
}

/// The state machine key that `b` serializes, if `b` is one.
pub open spec fn decode_fsm_key(b: Seq<u8>) -> Option<PartitionStateMachineKey> {
    if b.len() < 2 || b.subrange(0, 2) != fsm_kind() {
        None
    } else if b.len() == 2 {
        Some(PartitionStateMachineKey { partition_id: None, state_id: None })
    } else if b.len() == 10 {
        Some(PartitionStateMachineKey { partition_id: Some(be_value(b.subrange(2, 10)) as u64), state_id: None })
    } else if b.len() == 18 {
        Some(
            PartitionStateMachineKey {
                partition_id: Some(be_value(b.subrange(2, 10)) as u64),
                state_id: Some(be_value(b.subrange(10, 18)) as u64),
            },
        )
    } else {
        None
    }
}

/// Lexicographic order of the components of complete journal keys.
pub open spec fn journal_key_lt(a: JournalKey, b: JournalKey) -> bool {
    let (pa, ua, ia) = (a.partition_key->0, a.invocation_uuid->0, a.journal_index->0);
    let (pb, ub, ib) = (b.partition_key->0, b.invocation_uuid->0, b.journal_index->0);
    pa < pb || (pa == pb && (ua < ub || (ua == ub && ia < ib)))
}

pub open spec fn journal_key_complete(k: JournalKey) -> bool {
    k.partition_key is Some && k.invocation_uuid is Some && k.journal_index is Some
}

/// Decoding the `n` bytes of a number that fits gives the number back.
proof fn lemma_read_back(v: nat, n: nat)
    requires
        v < pow256(n),
    ensures
        be_value(be_bytes(v, n)) == v,
        be_bytes(v, n).len() == n,
{
    lemma_be_value_of_bytes(v, n);
    lemma_be_bytes_len(v, n);
}

/// Encoding the value of `n` bytes gives the bytes back.
pub proof fn lemma_be_bytes_of_value(s: Seq<u8>)
    ensures
        be_bytes(be_value(s), s.len()) == s,
    decreases s.len(),
{
    if s.len() > 0 {
        let d = s.drop_last();
        lemma_be_bytes_of_value(d);
        assert(be_value(s) == be_value(d) * 256 + (s.last() as nat));
        assert((be_value(d) * 256 + (s.last() as nat)) / 256 == be_value(d));
        assert((be_value(d) * 256 + (s.last() as nat)) % 256 == s.last() as nat);
        assert(be_bytes(be_value(s), s.len()) =~= d.push(s.last()));
        assert(d.push(s.last()) =~= s);
    }
}

/// Decoding a serialized journal key gives the key back.
pub proof fn law_journal_key_roundtrip(k: JournalKey)
    requires
        journal_key_well_shaped(k),
    ensures
        decode_journal_key(journal_key_bytes(k)) == Some(k),
{
    lemma_pow256_values();
    let b = journal_key_bytes(k);
    assert(b.subrange(0, 2) =~= journal_kind());
    match k.partition_key {
        None => {},
        Some(pk) => {
            lemma_read_back(pk as nat, 8);
            assert(b.subrange(2, 10) =~= be_bytes(pk as nat, 8));
            match k.invocation_uuid {
                None => {},
                Some(u) => {
                    lemma_read_back(u as nat, 16);
                    assert(b.subrange(10, 26) =~= be_bytes(u as nat, 16));
                    match k.journal_index {
                        None => {},
                        Some(i) => {
                            lemma_read_back(i as nat, 4);
                            assert(b.subrange(26, 30) =~= be_bytes(i as nat, 4));
                        },
                    }
                },
            }
        },
    }
}

/// Every byte string that decodes as a journal key is that key's
/// serialization.
pub proof fn law_journal_key_decode_exact(b: Seq<u8>)
    requires
        decode_journal_key(b) is Some,
    ensures
        journal_key_well_shaped(decode_journal_key(b)->0),
        journal_key_bytes(decode_journal_key(b)->0) == b,
{
    lemma_pow256_values();
    let k = decode_journal_key(b)->0;
    let kind = b.subrange(0, 2);
    if b.len() >= 10 {
        let s1 = b.subrange(2, 10);
        lemma_be_value_bound(s1);
        lemma_be_bytes_of_value(s1);
    }
    if b.len() >= 26 {
        let s2 = b.subrange(10, 26);
        lemma_be_value_bound(s2);
        lemma_be_bytes_of_value(s2);
    }
    if b.len() == 30 {
        let s3 = b.subrange(26, 30);
        lemma_be_value_bound(s3);
        lemma_be_bytes_of_value(s3);
    }
    if b.len() == 2 {
        assert(journal_key_bytes(k) =~= b);
    } else if b.len() == 10 {
        assert(journal_key_bytes(k) =~= kind + b.subrange(2, 10));
        assert(kind + b.subrange(2, 10) =~= b);
    } else if b.len() == 26 {
        assert(journal_key_bytes(k) =~= kind + (b.subrange(2, 10) + b.subrange(10, 26)));
        assert(kind + (b.subrange(2, 10) + b.subrange(10, 26)) =~= b);
    } else {
        assert(journal_key_bytes(k) =~= kind + (b.subrange(2, 10) + (b.subrange(10, 26) + b.subrange(26, 30))));
        assert(kind + (b.subrange(2, 10) + (b.subrange(10, 26) + b.subrange(26, 30))) =~= b);
    }
}

/// Complete journal keys sort, as bytes, in the order of their components:
/// by partition key, then invocation uuid, then journal index.
pub proof fn law_journal_keys_sort_lex(a: JournalKey, b: JournalKey)
    requires
        journal_key_complete(a),
        journal_key_complete(b),
    ensures
        lex_lt(journal_key_bytes(a), journal_key_bytes(b)) <==> journal_key_lt(a, b),
{
    lemma_pow256_values();
    let (pa, ua, ia) = (a.partition_key->0 as nat, a.invocation_uuid->0 as nat, a.journal_index->0 as nat);
    let (pb, ub, ib) = (b.partition_key->0 as nat, b.invocation_uuid->0 as nat, b.journal_index->0 as nat);
    let (xa, ya, za) = (be_bytes(pa, 8), be_bytes(ua, 16), be_bytes(ia, 4));
    let (xb, yb, zb) = (be_bytes(pb, 8), be_bytes(ub, 16), be_bytes(ib, 4));
    lemma_read_back(pa, 8);
    lemma_read_back(pb, 8);
    lemma_read_back(ua, 16);
    lemma_read_back(ub, 16);
    lemma_read_back(ia, 4);
    lemma_read_back(ib, 4);
    lemma_be_bytes_order(pa, pb, 8);
    lemma_be_bytes_order(ua, ub, 16);
    lemma_be_bytes_order(ia, ib, 4);
    lemma_lex_asymmetric(journal_kind(), journal_kind());
    lemma_lex_concat(journal_kind(), xa + (ya + za), journal_kind(), xb + (yb + zb));
    lemma_lex_concat(xa, ya + za, xb, yb + zb);
    lemma_lex_concat(ya, za, yb, zb);
    if xa == xb {
        lemma_be_value_of_bytes(pa, 8);
        lemma_be_value_of_bytes(pb, 8);
    }
    if ya == yb {
        lemma_be_value_of_bytes(ua, 16);
        lemma_be_value_of_bytes(ub, 16);
    }
}

/// Complete state machine keys sort, as bytes, in the order of their
/// components: by partition id, then state id.
pub proof fn law_fsm_keys_sort_lex(a: PartitionStateMachineKey, b: PartitionStateMachineKey)
    requires
        a.partition_id is Some && a.state_id is Some,
        b.partition_id is Some && b.state_id is Some,
    ensures
        lex_lt(fsm_key_bytes(a), fsm_key_bytes(b)) <==> (a.partition_id->0 < b.partition_id->0
            || (a.partition_id->0 == b.partition_id->0 && a.state_id->0 < b.state_id->0)),
{
    lemma_pow256_values();
    let (pa, sa) = (a.partition_id->0 as nat, a.state_id->0 as nat);
    let (pb, sb) = (b.partition_id->0 as nat, b.state_id->0 as nat);
    let (xa, ya) = (be_bytes(pa, 8), be_bytes(sa, 8));
    let (xb, yb) = (be_bytes(pb, 8), be_bytes(sb, 8));
    lemma_read_back(pa, 8);
    lemma_read_back(pb, 8);
    lemma_read_back(sa, 8);
    lemma_read_back(sb, 8);
    lemma_be_bytes_order(pa, pb, 8);
    lemma_be_bytes_order(sa, sb, 8);
    lemma_lex_asymmetric(fsm_kind(), fsm_kind());
    lemma_lex_concat(fsm_kind(), xa + ya, fsm_kind(), xb + yb);
    lemma_lex_concat(xa, ya, xb, yb);
    if xa == xb {
        lemma_be_value_of_bytes(pa, 8);
        lemma_be_value_of_bytes(pb, 8);
    }
}

/// Decoding a serialized state machine key gives the key back.
pub proof fn law_fsm_key_roundtrip(k: PartitionStateMachineKey)
    requires
        fsm_key_well_shaped(k),
    ensures
        decode_fsm_key(fsm_key_bytes(k)) == Some(k),
{
    lemma_pow256_values();
    let b = fsm_key_bytes(k);
    assert(b.subrange(0, 2) =~= fsm_kind());
    match k.partition_id {
        None => {},
        Some(p) => {
            lemma_read_back(p as nat, 8);
            assert(b.subrange(2, 10) =~= be_bytes(p as nat, 8));
            match k.state_id {
                None => {},
                Some(s) => {
                    lemma_read_back(s as nat, 8);
                    assert(b.subrange(10, 18) =~= be_bytes(s as nat, 8));
                },
            }
        },
    }
}

/// Appends the table prefix `a`, `b`.
fn push_kind(out: &mut Vec<u8>, a: u8, b: u8)
    ensures
        final(out)@ == old(out)@ + seq![a, b],
{
    out.push(a);
    out.push(b);
    assert(out@ =~= old(out)@ + seq![a, b]);
}

/// Whether `bytes` starts with the table prefix `a`, `b`.
fn has_kind(bytes: &[u8], a: u8, b: u8) -> (r: bool)
    ensures
        r == (bytes@.len() >= 2 && bytes@.subrange(0, 2) == seq![a, b]),
{
    if bytes.len() < 2 {
        return false;
    }
    let r = bytes[0] == a && bytes[1] == b;
    proof {
        if r {
            assert(bytes@.subrange(0, 2) =~= seq![a, b]);
        } else {
            if bytes@.subrange(0, 2) == seq![a, b] {
                assert(bytes@.subrange(0, 2)[0] == a);
                assert(bytes@.subrange(0, 2)[1] == b);
            }
        }
    }
    r
}

impl JournalKey {
    /// The prefix of all journal keys: no component present.
    pub fn empty() -> (k: JournalKey)
        ensures
            k.partition_key is None,
            k.invocation_uuid is None,
            k.journal_index is None,
    {
        JournalKey { partition_key: None, invocation_uuid: None, journal_index: None }
    }

    pub fn partition_key(self, partition_key: u64) -> (k: JournalKey)
        ensures
            k == (JournalKey { partition_key: Some(partition_key), ..self }),
    {
        JournalKey { partition_key: Some(partition_key), ..self }
    }

    pub fn invocation_uuid(self, invocation_uuid: u128) -> (k: JournalKey)
        ensures
            k == (JournalKey { invocation_uuid: Some(invocation_uuid), ..self }),
    {
        JournalKey { invocation_uuid: Some(invocation_uuid), ..self }
    }

    pub fn journal_index(self, journal_index: u32) -> (k: JournalKey)
        ensures
            k == (JournalKey { journal_index: Some(journal_index), ..self }),
    {
        JournalKey { journal_index: Some(journal_index), ..self }
    }

    /// The key's bytes, as stored.
    pub fn serialize(&self) -> (r: Vec<u8>)
        ensures
            r@ == journal_key_bytes(*self),
    {
        let mut out: Vec<u8> = Vec::new();
        push_kind(&mut out, 0x6a, 0x6f);
        let ghost kind = out@;
        assert(kind =~= journal_kind());
        match self.partition_key {
            None => {
                assert(out@ =~= journal_key_bytes(*self));
            },
            Some(pk) => {
                push_be(&mut out, pk as u128, 8);
                match self.invocation_uuid {
                    None => {
                        assert(out@ =~= journal_key_bytes(*self));
                    },
                    Some(u) => {
                        push_be(&mut out, u, 16);
                        match self.journal_index {
                            None => {
                                assert(out@ =~= journal_key_bytes(*self));
                            },
                            Some(i) => {
                                push_be(&mut out, i as u128, 4);
                                assert(out@ =~= journal_key_bytes(*self));
                            },
                        }
                    },
                }
            },
        }
        out
    }

    /// The journal key that `bytes` serializes.
    pub fn deserialize_from(bytes: &[u8]) -> (r: Result<JournalKey, StorageError>)
        ensures
            match r {
                Ok(k) => decode_journal_key(bytes@) == Some(k),
                Err(e) => decode_journal_key(bytes@) is None && e == StorageError::CorruptKey,
            },
    {
        proof {
            lemma_pow256_values();
        }
        let ok = has_kind(bytes, 0x6a, 0x6f);
        proof {
            assert(seq![0x6au8, 0x6fu8] =~= journal_kind());
        }
        if !ok {
            return Err(StorageError::CorruptKey);
        }
        let n = bytes.len();
        if n == 2 {
            return Ok(JournalKey::empty());
        }
        if n != 10 && n != 26 && n != 30 {
            return Err(StorageError::CorruptKey);
        }
        let pk = read_be(bytes, 2, 8);
        proof {
            lemma_be_value_bound(bytes@.subrange(2, 10));
        }
        let k = JournalKey::empty().partition_key(pk as u64);
        if n == 10 {
            return Ok(k);
        }
        let u = read_be(bytes, 10, 16);
        let k = k.invocation_uuid(u);
        if n == 26 {
            return Ok(k);
        }
        let i = read_be(bytes, 26, 4);
        proof {
            lemma_be_value_bound(bytes@.subrange(26, 30));
        }
        Ok(k.journal_index(i as u32))
    }
}

impl PartitionStateMachineKey {
    /// The prefix of all state machine keys: no component present.
    pub fn empty() -> (k: PartitionStateMachineKey)
        ensures
            k.partition_id is None,
            k.state_id is None,
    {
        PartitionStateMachineKey { partition_id: None, state_id: None }
    }

    pub fn partition_id(self, partition_id: u64) -> (k: PartitionStateMachineKey)
        ensures
            k == (PartitionStateMachineKey { partition_id: Some(partition_id), ..self }),
    {
        PartitionStateMachineKey { partition_id: Some(partition_id), ..self }
    }

    pub fn state_id(self, state_id: u64) -> (k: PartitionStateMachineKey)
        ensures
            k == (PartitionStateMachineKey { state_id: Some(state_id), ..self }),
    {
        PartitionStateMachineKey { state_id: Some(state_id), ..self }
    }

    /// The key's bytes, as stored.
    pub fn serialize(&self) -> (r: Vec<u8>)
        ensures
            r@ == fsm_key_bytes(*self),
    {
        let mut out: Vec<u8> = Vec::new();
        push_kind(&mut out, 0x66, 0x73);
        assert(out@ =~= fsm_kind());
        match self.partition_id {
            None => {
                assert(out@ =~= fsm_key_bytes(*self));
            },
            Some(p) => {
                push_be(&mut out, p as u128, 8);
                match self.state_id {
                    None => {
                        assert(out@ =~= fsm_key_bytes(*self));
                    },
                    Some(s) => {
                        push_be(&mut out, s as u128, 8);
                        assert(out@ =~= fsm_key_bytes(*self));
                    },
                }
            },
        }
        out
    }

    /// The state machine key that `bytes` serializes.
    pub fn deserialize_from(bytes: &[u8]) -> (r: Result<PartitionStateMachineKey, StorageError>)
        ensures
            match r {
                Ok(k) => decode_fsm_key(bytes@) == Some(k),
                Err(e) => decode_fsm_key(bytes@) is None && e == StorageError::CorruptKey,
            },
    {
        proof {
            lemma_pow256_values();
        }
        let ok = has_kind(bytes, 0x66, 0x73);
        proof {
            assert(seq![0x66u8, 0x73u8] =~= fsm_kind());
        }
        if !ok {
            return Err(StorageError::CorruptKey);
        }
        let n = bytes.len();
        if n == 2 {
            return Ok(PartitionStateMachineKey::empty());
        }
        if n != 10 && n != 18 {
            return Err(StorageError::CorruptKey);
        }
        let p = read_be(bytes, 2, 8);
        proof {
            lemma_be_value_bound(bytes@.subrange(2, 10));
        }
        let k = PartitionStateMachineKey::empty().partition_id(p as u64);
        if n == 10 {
            return Ok(k);
        }
        let s = read_be(bytes, 10, 8);
        proof {
            lemma_be_value_bound(bytes@.subrange(10, 18));
        }
        Ok(k.state_id(s as u64))
    }
}

} // verus!
