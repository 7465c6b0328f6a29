use vstd::prelude::*;

verus! {

/// What a log holds at an offset.
pub enum Record {
    /// The log was trimmed up to `until`.
    TrimGap { until: u64 },
    /// A payload.
    Data(Vec<u8>),
    /// The log is sealed.
    Seal,
}

/// A record read from a loglet, at its offset.
pub struct LogletRecord {
    pub offset: u64,
    pub record: Record,
}

/// Where reading continues after `record`: past a trim gap, reading goes on
/// from the gap's end; otherwise from the record's offset.
pub fn next_read_pointer(record: &LogletRecord) -> (r: u64)
    ensures
        r == match record.record {
            Record::TrimGap { until } => until,
            _ => record.offset,
        },
{
    match &record.record {
        Record::TrimGap { until } => *until,
        Record::Data(_) => record.offset,
        Record::Seal => record.offset,
    }
}

/// The payload of a record, if it holds one.
pub fn payload(record: &LogletRecord) -> (r: Option<&Vec<u8>>)
    ensures
        match record.record {
            Record::Data(d) => r matches Some(p) && p@ == d@,
            _ => r is None,
        },
{
    match &record.record {
        Record::Data(data) => Some(data),
        _ => None,
    }
}

} // verus!
