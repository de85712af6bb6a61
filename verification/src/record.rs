//! Records and batches: the data that flows from the topic to the table.

use vstd::prelude::*;

verus! {

/// The content of one record, and of the table row that stores it.
pub struct Row {
    /// The partition of the topic that the record was read from.
    pub partition: nat,
    /// The position of the record within its partition.
    pub offset: nat,
    /// The compaction identity of the record; may be empty.
    pub key: Seq<u8>,
    /// The payload; empty for a tombstone.
    pub value: Seq<u8>,
}

impl Row {
    /// A record with an empty value marks its key as deleted.
    pub open spec fn is_tombstone(self) -> bool {
        self.value.len() == 0
    }

    /// Two rows stand at the same place of the topic.
    pub open spec fn same_position(self, other: Row) -> bool {
        self.partition == other.partition && self.offset == other.offset
    }
}

/// One record as the source delivered it.
#[derive(Debug, PartialEq, Eq)]
pub struct Record {
    pub partition: u32,
    pub offset: u64,
    pub key: Vec<u8>,
    pub value: Vec<u8>,
}

impl View for Record {
    type V = Row;

    open spec fn view(&self) -> Row {
        Row {
            partition: self.partition as nat,
            offset: self.offset as nat,
            key: self.key@,
            value: self.value@,
        }
    }
}

impl Clone for Record {
    fn clone(&self) -> (copy: Record)
        ensures
            copy@ == self@,
    {
        Record {
            partition: self.partition,
            offset: self.offset,
            key: self.key.clone(),
            value: self.value.clone(),
        }
    }
}

impl Record {
    pub fn new(partition: u32, offset: u64, key: Vec<u8>, value: Vec<u8>) -> (record: Record)
        ensures
            record.partition == partition,
            record.offset == offset,
            record.key == key,
            record.value == value,
    {
        Record { partition, offset, key, value }
    }

    /// Whether the record is a tombstone, that is, has an empty value.
    pub fn is_tombstone(&self) -> (empty: bool)
        ensures
            empty == self@.is_tombstone(),
    {
        self.value.len() == 0
    }
}

/// Whether two byte strings are the same.
pub fn same_bytes(a: &[u8], b: &[u8]) -> (same: bool)
    ensures
        same == (a@ == b@),
{
    if a.len() != b.len() {
        return false;
    }
    let mut i: usize = 0;
    while i < a.len()
        invariant
            i <= a.len(),
            a.len() == b.len(),
            a@.take(i as int) == b@.take(i as int),
        decreases a.len() - i,
    {
        if a[i] != b[i] {
            return false;
        }
        assert(a@.take(i + 1) == a@.take(i as int).push(a@[i as int]));
        assert(b@.take(i + 1) == b@.take(i as int).push(b@[i as int]));
        i += 1;
    }
    assert(a@ == a@.take(i as int) && b@ == b@.take(i as int));
    true
}

/// The records of a sequence, each by its content.
pub open spec fn rows_of(records: Seq<Record>) -> Seq<Row> {
    records.map_values(|r: Record| r@)
}

/// What one poll of the source returned, in the order in which it returned it.
/// A batch without records says that the topic is exhausted.
#[derive(Debug, PartialEq, Eq)]
pub struct Batch {
    pub records: Vec<Record>,
}

impl View for Batch {
    type V = Seq<Row>;

    open spec fn view(&self) -> Seq<Row> {
        rows_of(self.records@)
    }
}

impl Batch {
    pub fn new(records: Vec<Record>) -> (batch: Batch)
        ensures
            batch.records == records,
    {
        Batch { records }
    }

    pub fn len(&self) -> (n: usize)
        ensures
            n == self@.len(),
    {
        self.records.len()
    }

    /// Whether this batch ends the stream.
    pub fn is_empty(&self) -> (empty: bool)
        ensures
            empty == (self@.len() == 0),
    {
        self.records.len() == 0
    }
}

} // verus!
