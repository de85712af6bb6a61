//! The target table: what it holds after the statements of a run, under the
//! constraints that its schema declares.
//!
//! The primary key is `(partition, offset)`: an insert at a position that is
//! already taken is refused and changes nothing. Under compaction `key` is
//! unique as well, and an insert evicts the row that had the key before.
//! Rows are kept in the order in which they arrived.

use crate::policy::{writes_for, Mode, Write, WriteView};
use crate::record::{rows_of, same_bytes, Record, Row};
use vstd::prelude::*;

verus! {

/// Whether some row of `rows` stands at the position of `row`.
pub open spec fn holds_position(rows: Seq<Row>, row: Row) -> bool {
    exists|i: int| 0 <= i < rows.len() && (#[trigger] rows[i]).same_position(row)
}

/// The rows that have the key, in order.
pub open spec fn with_key(rows: Seq<Row>, key: Seq<u8>) -> Seq<Row> {
    rows.filter(|r: Row| r.key == key)
}

/// The rows that do not have the key, in order.
pub open spec fn without_key(rows: Seq<Row>, key: Seq<u8>) -> Seq<Row> {
    rows.filter(|r: Row| r.key != key)
}

/// The table after an insert, or `None` where the store refuses it.
pub open spec fn insert_result(rows: Seq<Row>, mode: Mode, row: Row) -> Option<Seq<Row>> {
    if holds_position(rows, row) {
        None
    } else if mode == Mode::Compacted {
        Some(without_key(rows, row.key).push(row))
    } else {
        Some(rows.push(row))
    }
}

/// The table after one statement, or `None` where the store refuses it.
pub open spec fn write_result(rows: Seq<Row>, mode: Mode, write: WriteView) -> Option<Seq<Row>> {
    match write {
        WriteView::Insert(row) => insert_result(rows, mode, row),
        WriteView::DeleteKey(key) => Some(without_key(rows, key)),
    }
}

/// The table after a sequence of statements, or `None` where the store refuses one of them.
pub open spec fn writes_result(rows: Seq<Row>, mode: Mode, writes: Seq<WriteView>) -> Option<
    Seq<Row>,
>
    decreases writes.len(),
{
    if writes.len() == 0 {
        Some(rows)
    } else {
        match writes_result(rows, mode, writes.drop_last()) {
            Some(before) => write_result(before, mode, writes.last()),
            None => None,
        }
    }
}

/// The table of a run that was handed `records` in this order, starting empty;
/// `None` where the store refuses one of the statements.
pub open spec fn persisted(mode: Mode, records: Seq<Row>) -> Option<Seq<Row>> {
    writes_result(Seq::empty(), mode, writes_for(mode, records))
}

/// No two rows stand at the same position.
pub open spec fn distinct_positions(rows: Seq<Row>) -> bool {
    forall|i: int, j: int| 0 <= i < j < rows.len() ==> !(#[trigger] rows[i]).same_position(#[trigger] rows[j])
}

/// No two rows have the same key.
pub open spec fn distinct_keys(rows: Seq<Row>) -> bool {
    forall|i: int, j: int| 0 <= i < j < rows.len() ==> (#[trigger] rows[i]).key != (#[trigger] rows[j]).key
}

/// What the schema of the table declares.
pub open spec fn respects_schema(rows: Seq<Row>, mode: Mode) -> bool {
    &&& distinct_positions(rows)
    &&& mode == Mode::Compacted ==> distinct_keys(rows)
}

/// `i` is the place of the last record of `records` that has the key.
pub open spec fn is_last_with_key(records: Seq<Row>, key: Seq<u8>, i: int) -> bool {
    &&& 0 <= i < records.len()
    &&& records[i].key == key
    &&& forall|j: int| i < j < records.len() ==> (#[trigger] records[j]).key != key
}

/// Filtering a sequence that ends in `x` filters what stands before `x`, and keeps `x` or not.
pub(crate) proof fn lemma_filter_push(s: Seq<Row>, x: Row, keep: spec_fn(Row) -> bool)
    ensures
        s.push(x).filter(keep) == (if keep(x) {
            s.filter(keep).push(x)
        } else {
            s.filter(keep)
        }),
{
    reveal(Seq::filter);
    assert(s.push(x).drop_last() == s);
}

/// Why the store refused a statement.
#[derive(Clone, Copy, Debug, PartialEq, Eq, Structural)]
pub enum StoreError {
    /// A row already stands at the position of the record.
    DuplicatePosition,
}

/// The target table in memory, for trying a run without a store and for
/// holding a store against: it answers each statement as this module says.
#[derive(Debug)]
pub struct Table {
    mode: Mode,
    rows: Vec<Record>,
}

impl View for Table {
    type V = Seq<Row>;

    closed spec fn view(&self) -> Seq<Row> {
        rows_of(self.rows@)
    }
}

impl Table {
    /// The mode that the table was created for.
    pub closed spec fn spec_mode(&self) -> Mode {
        self.mode
    }

    /// A table as it is right after its creation.
    pub fn new(mode: Mode) -> (table: Table)
        ensures
            table@ == Seq::<Row>::empty(),
            table.spec_mode() == mode,
    {
        Table { mode, rows: Vec::new() }
    }

    #[verifier::when_used_as_spec(spec_mode)]
    pub fn mode(&self) -> (mode: Mode)
        ensures
            mode == self.spec_mode(),
    {
        self.mode
    }

    /// The number of rows.
    pub fn len(&self) -> (n: usize)
        ensures
            n == self@.len(),
    {
        self.rows.len()
    }

    /// The row at place `i`, counted in the order of arrival.
    pub fn row(&self, i: usize) -> (record: &Record)
        requires
            i < self@.len(),
        ensures
            record@ == self@[i as int],
    {
        &self.rows[i]
    }

    /// Whether a row stands at this position of the topic.
    pub fn holds(&self, partition: u32, offset: u64) -> (taken: bool)
        ensures
            taken == exists|i: int|
                0 <= i < self@.len() && (#[trigger] self@[i]).partition == partition && self@[i].offset
                    == offset,
    {
        let mut i: usize = 0;
        while i < self.rows.len()
            invariant
                i <= self.rows.len(),
                forall|j: int|
                    0 <= j < i ==> !((#[trigger] self@[j]).partition == partition && self@[j].offset == offset),
            decreases self.rows.len() - i,
        {
            if self.rows[i].partition == partition && self.rows[i].offset == offset {
                assert(self@[i as int].partition == partition && self@[i as int].offset == offset);
                return true;
            }
            i += 1;
        }
        false
    }

    /// The rows that have the key, in the order of arrival.
    pub fn rows_with_key(&self, key: &[u8]) -> (found: Vec<Record>)
        ensures
            rows_of(found@) == with_key(self@, key@),
    {
        let mut found: Vec<Record> = Vec::new();
        let mut i: usize = 0;
        proof {
            reveal(Seq::filter);
            assert(rows_of(self.rows@.take(0)) == Seq::<Row>::empty());
        }
        while i < self.rows.len()
            invariant
                i <= self.rows.len(),
                rows_of(found@) == with_key(rows_of(self.rows@.take(i as int)), key@),
            decreases self.rows.len() - i,
        {
            let ghost seen = rows_of(self.rows@.take(i as int));
            proof {
                assert(rows_of(self.rows@.take(i + 1)) == seen.push(self.rows@[i as int]@));
                lemma_filter_push(seen, self.rows@[i as int]@, |r: Row| r.key == key@);
            }
            if same_bytes(self.rows[i].key.as_slice(), key) {
                let ghost before = found@;
                let copy = self.rows[i].clone();
                found.push(copy);
                assert(rows_of(found@) == rows_of(before).push(copy@));
            }
            i += 1;
        }
        assert(self.rows@.take(i as int) == self.rows@);
        found
    }

    /// Stores the record as a row, unless a row stands at its position
    /// already. Under compaction the row that had the key before gives way.
    pub fn insert(&mut self, record: Record) -> (result: Result<(), StoreError>)
        ensures
            final(self).spec_mode() == old(self).spec_mode(),
            match insert_result(old(self)@, old(self).spec_mode(), record@) {
                Some(rows) => result is Ok && final(self)@ == rows,
                None => result == Err::<(), StoreError>(StoreError::DuplicatePosition) && final(self)@ == old(
                    self,
                )@,
            },
    {
        if self.holds(record.partition, record.offset) {
            proof {
                let i = choose|i: int|
                    0 <= i < self@.len() && (#[trigger] self@[i]).partition == record.partition
                        && self@[i].offset == record.offset;
                assert(self@[i].same_position(record@));
            }
            return Err(StoreError::DuplicatePosition);
        }
        if self.mode.is_compacted() {
            remove_key(&mut self.rows, record.key.as_slice());
        }
        let ghost before = self.rows@;
        self.rows.push(record);
        assert(rows_of(self.rows@) == rows_of(before).push(record@));
        Ok(())
    }

    /// Removes every row that has the key.
    pub fn delete_key(&mut self, key: &[u8])
        ensures
            final(self).spec_mode() == old(self).spec_mode(),
            final(self)@ == without_key(old(self)@, key@),
    {
        remove_key(&mut self.rows, key);
    }

    /// Answers one statement.
    pub fn apply(&mut self, write: Write) -> (result: Result<(), StoreError>)
        ensures
            final(self).spec_mode() == old(self).spec_mode(),
            match write_result(old(self)@, old(self).spec_mode(), write@) {
                Some(rows) => result is Ok && final(self)@ == rows,
                None => result == Err::<(), StoreError>(StoreError::DuplicatePosition) && final(self)@ == old(
                    self,
                )@,
            },
    {
        match write {
            Write::Insert(record) => self.insert(record),
            Write::DeleteKey(key) => {
                self.delete_key(key.as_slice());
                Ok(())
            },
        }
    }
}

/// Takes the rows that have the key out of `rows`; the others keep their order.
fn remove_key(rows: &mut Vec<Record>, key: &[u8])
    ensures
        rows_of(final(rows)@) == without_key(rows_of(old(rows)@), key@),
{
    let ghost start = rows@;
    let ghost mut done: int = 0;
    let mut i: usize = 0;
    proof {
        reveal(Seq::filter);
        assert(rows_of(start.take(0)) == Seq::<Row>::empty());
        assert(rows_of(rows@.take(0)) == Seq::<Row>::empty());
    }
    while i < rows.len()
        invariant
            0 <= i <= rows.len(),
            0 <= done <= start.len(),
            rows.len() - i == start.len() - done,
            rows@.skip(i as int) == start.skip(done),
            rows_of(rows@.take(i as int)) == without_key(rows_of(start.take(done)), key@),
        decreases rows.len() - i,
    {
        let ghost current = rows@;
        proof {
            assert(current[i as int] == current.skip(i as int)[0]);
            assert(start[done] == start.skip(done)[0]);
            assert(current.skip(i + 1) == current.skip(i as int).skip(1));
            assert(start.skip(done + 1) == start.skip(done).skip(1));
            assert(rows_of(start.take(done + 1)) == rows_of(start.take(done)).push(start[done]@));
            lemma_filter_push(rows_of(start.take(done)), start[done]@, |r: Row| r.key != key@);
        }
        if same_bytes(rows[i].key.as_slice(), key) {
            rows.remove(i);
            proof {
                assert(rows@.take(i as int) == current.take(i as int));
                assert(rows@.skip(i as int) == current.skip(i + 1));
            }
        } else {
            proof {
                assert(rows_of(current.take(i + 1)) == rows_of(current.take(i as int)).push(current[i as int]@));
            }
            i += 1;
        }
        proof {
            done = done + 1;
        }
    }
    assert(rows@.take(i as int) == rows@);
    assert(start.take(done) == start);
}

} // verus!
