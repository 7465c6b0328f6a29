use vstd::prelude::*;

use std::collections::HashMap;

use crate::identifiers::{EntryIndex, InvocationId, PartitionKey};
use crate::journal::{EnrichedRawEntry, EntryHeader};
use crate::protobuf::{bytes_field, encode_bytes_field};

verus! {

/// A partition together with the epoch of its leader.
pub type PartitionLeaderEpoch = (u64, u64);

/// The journal an invocation starts with.
pub enum InvokeInputJournal {
    NoCachedJournal,
    CachedJournal(Vec<Vec<u8>>),
}

/// The completion of a journal entry.
pub struct Completion {
    pub entry_index: EntryIndex,
    pub result: Vec<u8>,
}

/// A request to start or resume an invocation.
pub struct InvokeCommand {
    pub partition: PartitionLeaderEpoch,
    pub full_invocation_id: InvocationId,
    pub journal: InvokeInputJournal,
}

/// A command sent to the invoker; `S` sends effects back to a partition.
pub enum InputCommand<S> {
    Invoke(InvokeCommand),
    Completion { partition: PartitionLeaderEpoch, full_invocation_id: InvocationId, completion: Completion },
    StoredEntryAck { partition: PartitionLeaderEpoch, full_invocation_id: InvocationId, entry_index: EntryIndex },
    /// Abort a specific invocation.
    Abort { partition: PartitionLeaderEpoch, full_invocation_id: InvocationId },
    /// Clean up the state of a partition whose leader goes away.
    AbortAllPartition { partition: PartitionLeaderEpoch },
    /// Register a partition, and where its effects go.
    RegisterPartition { partition: PartitionLeaderEpoch, partition_key_range: (PartitionKey, PartitionKey), sender: S },
}

/// What happened in an invocation.
pub enum EffectKind {
    JournalEntry { entry_index: EntryIndex, entry: EnrichedRawEntry },
    End,
}

/// An effect of an invocation, for its partition processor.
pub struct Effect {
    pub full_invocation_id: InvocationId,
    pub kind: EffectKind,
}

/// The effects to send to the sender of `partition`.
pub struct InvokeWork {
    pub partition: PartitionLeaderEpoch,
    pub effects: Vec<Effect>,
}

/// A fake invoker that answers every invocation like a counter's
/// get-and-add: it reads state `10`, writes `10` back, outputs an empty
/// value and ends.
pub struct Service<S, StateReader> {
    partitions: HashMap<u128, S>,
    state_reader: StateReader,
}

/// The number of leader epochs: the factor by which the partition id is
/// shifted in a registry key.
pub open spec fn epoch_count() -> int {
    0x1_0000_0000_0000_0000
}

/// The registry key of a partition and leader epoch: the partition id in the
/// high 64 bits, the epoch in the low 64 bits.
pub open spec fn epoch_key(partition: PartitionLeaderEpoch) -> u128 {
    (partition.0 as int * epoch_count() + partition.1 as int) as u128
}

/// The sender registered for `partition`.
pub open spec fn lookup<S>(registry: Map<u128, S>, partition: PartitionLeaderEpoch) -> Option<S> {
    if registry.contains_key(epoch_key(partition)) {
        Some(registry[epoch_key(partition)])
    } else {
        None
    }
}

/// A registry key fits in 128 bits, and tells its partition and epoch apart.
proof fn lemma_epoch_key(p: PartitionLeaderEpoch, q: PartitionLeaderEpoch)
    ensures
        (p.0 as int) * epoch_count() + (p.1 as int) <= u128::MAX,
        epoch_key(p) == epoch_key(q) ==> p == q,
{
    let m = epoch_count();
    assert((p.0 as int) * m + (p.1 as int) <= u128::MAX) by (nonlinear_arith)
        requires
            m == 0x1_0000_0000_0000_0000int,
            0 <= p.0 <= u64::MAX,
            0 <= p.1 <= u64::MAX,
    ;
    assert((q.0 as int) * m + (q.1 as int) <= u128::MAX) by (nonlinear_arith)
        requires
            m == 0x1_0000_0000_0000_0000int,
            0 <= q.0 <= u64::MAX,
            0 <= q.1 <= u64::MAX,
    ;
    if p.0 < q.0 {
        assert((p.0 as int) * m + (p.1 as int) < (q.0 as int) * m + (q.1 as int)) by (nonlinear_arith)
            requires
                m == 0x1_0000_0000_0000_0000int,
                p.0 < q.0,
                0 <= p.1 <= u64::MAX,
                0 <= q.1,
        ;
    } else if q.0 < p.0 {
        assert((q.0 as int) * m + (q.1 as int) < (p.0 as int) * m + (p.1 as int)) by (nonlinear_arith)
            requires
                m == 0x1_0000_0000_0000_0000int,
                q.0 < p.0,
                0 <= q.1 <= u64::MAX,
                0 <= p.1,
        ;
    }
}

/// The registry key of `partition`.
fn registry_key(partition: PartitionLeaderEpoch) -> (k: u128)
    ensures
        k == epoch_key(partition),
{
    proof {
        lemma_epoch_key(partition, partition);
    }
    (partition.0 as u128) * 0x1_0000_0000_0000_0000u128 + (partition.1 as u128)
}

/// The value the fake state holds and writes.
pub open spec fn counter_value() -> Seq<u8> {
    seq![0x31u8, 0x30u8]
}

/// A get-state entry message without key, completed with `value` (field 14
/// of the result).
pub open spec fn get_state_entry_message(value: Seq<u8>) -> Seq<u8> {
    bytes_field(14, value)
}

/// A set-state entry message without key, that writes `value` (field 3).
pub open spec fn set_state_entry_message(value: Seq<u8>) -> Seq<u8> {
    bytes_field(3, value)
}

/// An output entry message that outputs `value` (field 14 of the result).
pub open spec fn output_stream_entry_message(value: Seq<u8>) -> Seq<u8> {
    bytes_field(14, value)
}

/// The effect is journal entry `index` with `header` and message `message`.
pub open spec fn is_journal_effect(e: Effect, id: InvocationId, index: EntryIndex, header: EntryHeader, message: Seq<u8>) -> bool {
    &&& e.full_invocation_id == id
    &&& e.kind matches EffectKind::JournalEntry { entry_index, entry } && entry_index == index
        && entry.header == header && entry.serialized_entry@ == message
}

/// The effects of a fake invocation of `id`, in order.
pub open spec fn fake_invocation_effects(effects: Seq<Effect>, id: InvocationId) -> bool {
    &&& effects.len() == 4
    &&& is_journal_effect(effects[0], id, 1, EntryHeader::GetState { is_completed: true }, get_state_entry_message(counter_value()))
    &&& is_journal_effect(effects[1], id, 2, EntryHeader::SetState, set_state_entry_message(counter_value()))
    &&& is_journal_effect(effects[2], id, 3, EntryHeader::OutputStream, output_stream_entry_message(Seq::empty()))
    &&& effects[3].full_invocation_id == id && effects[3].kind is End
}

fn counter_bytes() -> (r: Vec<u8>)
    ensures
        r@ == counter_value(),
{
    let mut v: Vec<u8> = Vec::new();
    v.push(0x31);
    v.push(0x30);
    assert(v@ =~= counter_value());
    v
}

impl<S, StateReader> Service<S, StateReader> {
    /// The senders registered so far, by registry key.
    pub closed spec fn registered(&self) -> Map<u128, S> {
        self.partitions@
    }

    pub fn new(state_reader: StateReader) -> (s: Self)
        ensures
            s.registered().is_empty(),
    {
        Service { partitions: HashMap::new(), state_reader }
    }

    /// The sender registered for `partition`.
    pub fn partition_sender(&self, partition: PartitionLeaderEpoch) -> (r: Option<&S>)
        ensures
            match lookup(self.registered(), partition) {
                Some(s) => r matches Some(x) && *x == s,
                None => r is None,
            },
    {
        let key = registry_key(partition);
        self.partitions.get(&key)
    }

    /// Registers `sender` for `partition`, replacing an earlier registration.
    pub fn register_partition(&mut self, partition: PartitionLeaderEpoch, sender: S)
        ensures
            lookup(final(self).registered(), partition) == Some(sender),
            forall|p: PartitionLeaderEpoch| p != partition ==> lookup(final(self).registered(), p)
                == lookup(old(self).registered(), p),
    {
        let key = registry_key(partition);
        let _ = self.partitions.insert(key, sender);
        proof {
            assert forall|p: PartitionLeaderEpoch| p != partition implies lookup(final(self).registered(), p)
                == lookup(old(self).registered(), p) by {
                lemma_epoch_key(p, partition);
            }
        }
    }

    /// The effects of invoking `invoke_cmd`, for the partition it names.
    pub fn handle_invoke_cmd(&self, invoke_cmd: InvokeCommand) -> (w: InvokeWork)
        requires
            lookup(self.registered(), invoke_cmd.partition) is Some,
        ensures
            w.partition == invoke_cmd.partition,
            fake_invocation_effects(w.effects@, invoke_cmd.full_invocation_id),
    {
        let InvokeCommand { partition, full_invocation_id, .. } = invoke_cmd;
        let mut effects: Vec<Effect> = Vec::new();

        let value = counter_bytes();
        let mut get_state: Vec<u8> = Vec::new();
        encode_bytes_field(&mut get_state, 14, value.as_slice());
        effects.push(Effect {
            full_invocation_id,
            kind: EffectKind::JournalEntry {
                entry_index: 1,
                entry: EnrichedRawEntry::new(EntryHeader::GetState { is_completed: true }, get_state),
            },
        });

        let mut set_state: Vec<u8> = Vec::new();
        encode_bytes_field(&mut set_state, 3, value.as_slice());
        effects.push(Effect {
            full_invocation_id,
            kind: EffectKind::JournalEntry {
                entry_index: 2,
                entry: EnrichedRawEntry::new(EntryHeader::SetState, set_state),
            },
        });

        let empty: Vec<u8> = Vec::new();
        let mut output: Vec<u8> = Vec::new();
        encode_bytes_field(&mut output, 14, empty.as_slice());
        effects.push(Effect {
            full_invocation_id,
            kind: EffectKind::JournalEntry {
                entry_index: 3,
                entry: EnrichedRawEntry::new(EntryHeader::OutputStream, output),
            },
        });

        effects.push(Effect { full_invocation_id, kind: EffectKind::End });
        proof {
            assert(Seq::<u8>::empty() + get_state_entry_message(counter_value()) =~= get_state_entry_message(counter_value()));
            assert(Seq::<u8>::empty() + set_state_entry_message(counter_value()) =~= set_state_entry_message(counter_value()));
            assert(empty@ =~= Seq::<u8>::empty());
            assert(Seq::<u8>::empty() + output_stream_entry_message(Seq::empty()) =~= output_stream_entry_message(Seq::empty()));
        }
        InvokeWork { partition, effects }
    }

    /// Handles a command: registrations are recorded, invocations produce
    /// their effects, every other command is ignored.
    pub fn handle_cmd(&mut self, cmd: InputCommand<S>) -> (r: Option<InvokeWork>)
        requires
            cmd matches InputCommand::Invoke(c) ==> lookup(old(self).registered(), c.partition) is Some,
        ensures
            match cmd {
                InputCommand::Invoke(c) => r matches Some(w) && w.partition == c.partition
                    && fake_invocation_effects(w.effects@, c.full_invocation_id)
                    && final(self).registered() == old(self).registered(),
                InputCommand::RegisterPartition { partition, sender, .. } => r is None
                    && lookup(final(self).registered(), partition) == Some(sender)
                    && forall|p: PartitionLeaderEpoch| p != partition ==> lookup(final(self).registered(), p)
                        == lookup(old(self).registered(), p),
                _ => r is None && final(self).registered() == old(self).registered(),
            },
    {
        match cmd {
            InputCommand::Invoke(invoke_cmd) => Some(self.handle_invoke_cmd(invoke_cmd)),
            InputCommand::Completion { .. } => None,
            InputCommand::StoredEntryAck { .. } => None,
            InputCommand::Abort { .. } => None,
            InputCommand::AbortAllPartition { .. } => None,
            InputCommand::RegisterPartition { partition, sender, .. } => {
                self.register_partition(partition, sender);
                None
            },
        }
    }
}

} // verus!
