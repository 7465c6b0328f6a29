use vstd::prelude::*;

verus! {

/// Kind of a journal entry.
#[derive(Debug, Copy, Clone, PartialEq, Eq, Structural)]
pub enum EntryHeader {
    GetState { is_completed: bool },
    SetState,
    ClearState,
    OutputStream,
}

/// A journal entry: its header and its serialized message.
pub struct EnrichedRawEntry {
    pub header: EntryHeader,
    pub serialized_entry: Vec<u8>,
}

impl EnrichedRawEntry {
    pub fn new(header: EntryHeader, serialized_entry: Vec<u8>) -> (e: EnrichedRawEntry)
        ensures
            e.header == header,
            e.serialized_entry@ == serialized_entry@,
    {
        EnrichedRawEntry { header, serialized_entry }
    }

    /// The entry's serialized message.
    pub fn serialized_entry(&self) -> (r: &Vec<u8>)
        ensures
            r@ == self.serialized_entry@,
    {
        &self.serialized_entry
    }
}

/// A journal entry received from a service deployment, with its index.
pub struct JournalEntry {
    pub entry: EnrichedRawEntry,
    pub entry_index: u32,
}

/// Total size in bytes of the serialized entries.
pub open spec fn entries_size(entries: Seq<JournalEntry>) -> nat
    decreases entries.len(),
{
    if entries.len() == 0 {
        0
    } else {
        entries_size(entries.drop_last()) + entries.last().entry.serialized_entry@.len()
    }
}

/// Buffer for journal entries that are being received from the service
/// deployment. It holds at most `capacity` entries and stops taking entries
/// once it holds `max_size_in_bytes` bytes, if that limit is set.
pub struct JournalBuffer {
    max_size_in_bytes: Option<usize>,
    capacity: usize,
    buffer: Vec<JournalEntry>,
    requires_ack: Vec<bool>,
    size_in_bytes: usize,
}

impl JournalBuffer {
    pub closed spec fn entries(&self) -> Seq<JournalEntry> {
        self.buffer@
    }

    pub closed spec fn acks(&self) -> Seq<bool> {
        self.requires_ack@
    }

    pub closed spec fn size(&self) -> nat {
        self.size_in_bytes as nat
    }

    pub closed spec fn max_entries(&self) -> nat {
        self.capacity as nat
    }

    pub closed spec fn max_size(&self) -> Option<usize> {
        self.max_size_in_bytes
    }

    pub closed spec fn wf(&self) -> bool {
        &&& self.buffer@.len() == self.requires_ack@.len()
        &&& self.size_in_bytes == entries_size(self.buffer@)
    }

    /// Whether the buffer takes no more entries.
    pub open spec fn full(&self) -> bool {
        self.entries().len() >= self.max_entries() || (self.max_size() matches Some(m)
            && self.size() >= m)
    }

    pub fn new(capacity: usize, max_size_in_bytes: Option<usize>) -> (b: Self)
        ensures
            b.wf(),
            b.entries().len() == 0,
            b.acks().len() == 0,
            b.size() == 0,
            b.max_entries() == capacity,
            b.max_size() == max_size_in_bytes,
    {
        JournalBuffer {
            buffer: Vec::with_capacity(capacity),
            requires_ack: Vec::with_capacity(capacity),
            capacity,
            max_size_in_bytes,
            size_in_bytes: 0,
        }
    }

    pub fn is_empty(&self) -> (r: bool)
        ensures
            r == (self.entries().len() == 0 && self.acks().len() == 0 && self.size() == 0),
    {
        self.buffer.len() == 0 && self.requires_ack.len() == 0 && self.size_in_bytes == 0
    }

    pub fn is_full(&self) -> (r: bool)
        ensures
            r == self.full(),
    {
        self.buffer.len() >= self.capacity || match self.max_size_in_bytes {
            Some(max_size) => self.size_in_bytes >= max_size,
            None => false,
        }
    }

    /// Appends an entry and whether it needs an acknowledgement.
    pub fn push_entry(&mut self, journal_entry: JournalEntry, requires_ack: bool)
        requires
            old(self).wf(),
            !old(self).full(),
            old(self).size() + journal_entry.entry.serialized_entry@.len() <= usize::MAX,
        ensures
            final(self).wf(),
            final(self).entries() == old(self).entries().push(journal_entry),
            final(self).acks() == old(self).acks().push(requires_ack),
            final(self).size() == old(self).size() + journal_entry.entry.serialized_entry@.len(),
            final(self).max_entries() == old(self).max_entries(),
            final(self).max_size() == old(self).max_size(),
    {
        let len = journal_entry.entry.serialized_entry().len();
        self.size_in_bytes = self.size_in_bytes + len;
        let ghost before = self.buffer@;
        self.buffer.push(journal_entry);
        self.requires_ack.push(requires_ack);
        proof {
            assert(self.buffer@.drop_last() =~= before);
        }
    }

    /// Takes all entries and their acknowledgement flags out of the buffer, in
    /// order, together with their number.
    pub fn drain(&mut self) -> (r: (usize, Vec<JournalEntry>, Vec<bool>))
        requires
            old(self).wf(),
        ensures
            final(self).wf(),
            r.0 == old(self).entries().len(),
            r.1@ == old(self).entries(),
            r.2@ == old(self).acks(),
            final(self).entries().len() == 0,
            final(self).acks().len() == 0,
            final(self).size() == 0,
            final(self).max_entries() == old(self).max_entries(),
            final(self).max_size() == old(self).max_size(),
    {
        self.size_in_bytes = 0;
        let n = self.buffer.len();
        let mut entries: Vec<JournalEntry> = Vec::new();
        std::mem::swap(&mut entries, &mut self.buffer);
        let mut acks: Vec<bool> = Vec::new();
        std::mem::swap(&mut acks, &mut self.requires_ack);
        (n, entries, acks)
    }
}

/// A buffer is full once it holds its maximum number of entries, whatever its
/// byte limit, and once its bytes reach the byte limit, if it has one; a
/// buffer that is not full has room on both counts.
pub proof fn law_full_at_either_limit(b: JournalBuffer)
    ensures
        b.entries().len() >= b.max_entries() ==> b.full(),
        (b.max_size() matches Some(m) && b.size() >= m) ==> b.full(),
        !b.full() ==> b.entries().len() < b.max_entries(),
        !b.full() && b.max_size() is Some ==> b.size() < b.max_size()->0,
{
}

/// A buffer is empty exactly when it holds no entry: its acknowledgement
/// flags and its byte count follow its entries.
pub proof fn law_empty_iff_no_entries(b: JournalBuffer)
    requires
        b.wf(),
    ensures
        (b.entries().len() == 0 && b.acks().len() == 0 && b.size() == 0) <==> b.entries().len() == 0,
        b.acks().len() == b.entries().len(),
        b.size() == entries_size(b.entries()),
{
}

} // verus!
