//! The persistence policy: what the store is asked to do for one record.

use crate::record::{Record, Row};
use vstd::prelude::*;

verus! {

/// How records are persisted.
#[derive(Clone, Copy, Debug, PartialEq, Eq, Structural)]
pub enum Mode {
    /// Every record becomes a row.
    Plain,
    /// Only the latest record of each key is kept; a tombstone deletes the key's row.
    Compacted,
}

impl Mode {
    /// The mode that the compaction switch selects.
    pub fn from_compact(compact: bool) -> (mode: Mode)
        ensures
            mode == (if compact {
                Mode::Compacted
            } else {
                Mode::Plain
            }),
    {
        if compact {
            Mode::Compacted
        } else {
            Mode::Plain
        }
    }

    pub fn is_compacted(self) -> (compacted: bool)
        ensures
            compacted == (self == Mode::Compacted),
    {
        match self {
            Mode::Plain => false,
            Mode::Compacted => true,
        }
    }
}

/// The content of a [`Write`].
pub enum WriteView {
    Insert(Row),
    DeleteKey(Seq<u8>),
}

/// One statement for the store.
#[derive(Debug, PartialEq, Eq)]
pub enum Write {
    /// Store the record as a row.
    Insert(Record),
    /// Remove every row that has this key.
    DeleteKey(Vec<u8>),
}

impl View for Write {
    type V = WriteView;

    open spec fn view(&self) -> WriteView {
        match self {
            Write::Insert(record) => WriteView::Insert(record@),
            Write::DeleteKey(key) => WriteView::DeleteKey(key@),
        }
    }
}

/// The statement that a record leads to: a tombstone under compaction deletes
/// its key and stores nothing; every other record is inserted as it is.
pub open spec fn write_for(mode: Mode, row: Row) -> WriteView {
    if mode == Mode::Compacted && row.is_tombstone() {
        WriteView::DeleteKey(row.key)
    } else {
        WriteView::Insert(row)
    }
}

/// The statements that a sequence of records leads to, one for each record, in order.
pub open spec fn writes_for(mode: Mode, rows: Seq<Row>) -> Seq<WriteView> {
    rows.map_values(|row: Row| write_for(mode, row))
}

/// Decides what the store is asked to do for `record`.
pub fn plan_record(mode: Mode, record: Record) -> (write: Write)
    ensures
        write@ == write_for(mode, record@),
{
    if mode.is_compacted() && record.is_tombstone() {
        Write::DeleteKey(record.key)
    } else {
        Write::Insert(record)
    }
}

} // verus!
