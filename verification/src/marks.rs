//! Marks: what is committed to the source for a batch that was handed over.

use crate::record::{Batch, Record, Row};
use vstd::prelude::*;

verus! {

/// The content of a [`Mark`].
pub struct MarkView {
    pub partition: nat,
    pub offset: nat,
}

/// A partition and the offset up to which it counts as consumed.
#[derive(Clone, Copy, Debug, PartialEq, Eq)]
pub struct Mark {
    pub partition: u32,
    pub offset: u64,
}

impl View for Mark {
    type V = MarkView;

    open spec fn view(&self) -> MarkView {
        MarkView { partition: self.partition as nat, offset: self.offset as nat }
    }
}

/// The marks of a sequence, each by its content.
pub open spec fn marks_by_content(marks: Seq<Mark>) -> Seq<MarkView> {
    marks.map_values(|m: Mark| m@)
}

/// The mark that consumes a partition up to this record.
pub open spec fn mark_of(row: Row) -> MarkView {
    MarkView { partition: row.partition, offset: row.offset }
}

/// Whether one of the marks is for the partition.
pub open spec fn has_partition(marks: Seq<MarkView>, partition: nat) -> bool {
    exists|k: int| 0 <= k < marks.len() && (#[trigger] marks[k]).partition == partition
}

/// A mark after a record was consumed: it moves to the record if it is for the record's partition.
pub open spec fn moved_mark(mark: MarkView, row: Row) -> MarkView {
    if mark.partition == row.partition {
        mark_of(row)
    } else {
        mark
    }
}

/// The marks after one more record was consumed: the mark of its partition
/// moves to the record, or is added at the end where the partition had none.
pub open spec fn marked(marks: Seq<MarkView>, row: Row) -> Seq<MarkView> {
    if has_partition(marks, row.partition) {
        marks.map_values(|m: MarkView| moved_mark(m, row))
    } else {
        marks.push(mark_of(row))
    }
}

/// The mark consumes a partition up to the last record that `rows` has of it.
pub open spec fn names_last_offset(rows: Seq<Row>, mark: MarkView) -> bool {
    exists|i: int| #[trigger] is_last_of_partition(rows, i) && mark == mark_of(rows[i])
}

/// The marks that consume these records, taken in order.
pub open spec fn marks_of(rows: Seq<Row>) -> Seq<MarkView>
    decreases rows.len(),
{
    if rows.len() == 0 {
        Seq::empty()
    } else {
        marked(marks_of(rows.drop_last()), rows.last())
    }
}

/// `i` is the place of the last record of its partition.
pub open spec fn is_last_of_partition(rows: Seq<Row>, i: int) -> bool {
    &&& 0 <= i < rows.len()
    &&& forall|j: int| i < j < rows.len() ==> (#[trigger] rows[j]).partition != rows[i].partition
}

proof fn lemma_last_stays_last(rows: Seq<Row>, i: int)
    requires
        rows.len() > 0,
        is_last_of_partition(rows.drop_last(), i),
        rows[i].partition != rows.last().partition,
    ensures
        is_last_of_partition(rows, i),
{
    let front = rows.drop_last();
    assert forall|j: int| i < j < rows.len() implies (#[trigger] rows[j]).partition != rows[i].partition by {
        if j < front.len() {
            assert(front[j].partition != front[i].partition);
        }
    }
}

proof fn lemma_last_was_last(rows: Seq<Row>, i: int)
    requires
        is_last_of_partition(rows, i),
        i < rows.len() - 1,
    ensures
        is_last_of_partition(rows.drop_last(), i),
        rows[i].partition != rows.last().partition,
{
    let front = rows.drop_last();
    assert(rows[rows.len() - 1].partition != rows[i].partition);
    assert forall|j: int| i < j < front.len() implies (#[trigger] front[j]).partition != front[i].partition by {
        assert(rows[j].partition != rows[i].partition);
    }
}

/// Every mark of a batch is for the last record that the batch has of the mark's partition.
proof fn lemma_marks_are_last_offsets(rows: Seq<Row>, k: int)
    requires
        0 <= k < marks_of(rows).len(),
    ensures
        names_last_offset(rows, marks_of(rows)[k]),
    decreases rows.len(),
{
    if rows.len() > 0 {
        let front = rows.drop_last();
        let last = rows.last();
        let n = rows.len() - 1;
        let before = marks_of(front);
        let marks = marks_of(rows);
        if k < before.len() && before[k].partition != last.partition {
            lemma_marks_are_last_offsets(front, k);
            let i = choose|i: int| #[trigger] is_last_of_partition(front, i) && before[k] == mark_of(front[i]);
            lemma_last_stays_last(rows, i);
            assert(marks[k] == mark_of(rows[i]));
        } else {
            assert(is_last_of_partition(rows, n));
            assert(marks[k] == mark_of(rows[n]));
        }
    }
}

/// The last record that a batch has of a partition has its mark.
proof fn lemma_last_offsets_are_marked(rows: Seq<Row>, i: int)
    requires
        is_last_of_partition(rows, i),
    ensures
        marks_of(rows).contains(mark_of(rows[i])),
    decreases rows.len(),
{
    let front = rows.drop_last();
    let last = rows.last();
    let n = rows.len() - 1;
    let before = marks_of(front);
    let marks = marks_of(rows);
    if i == n {
        if has_partition(before, last.partition) {
            let k = choose|k: int| 0 <= k < before.len() && (#[trigger] before[k]).partition == last.partition;
            assert(marks[k] == mark_of(rows[i]));
        } else {
            assert(marks[before.len() as int] == mark_of(rows[i]));
        }
    } else {
        lemma_last_was_last(rows, i);
        lemma_last_offsets_are_marked(front, i);
        let k = choose|k: int| 0 <= k < before.len() && before[k] == mark_of(front[i]);
        assert(marks[k] == mark_of(rows[i]));
    }
}

/// No two marks of a batch are for one partition.
proof fn lemma_marks_are_distinct(rows: Seq<Row>, k: int, l: int)
    requires
        0 <= k < l < marks_of(rows).len(),
    ensures
        marks_of(rows)[k].partition != marks_of(rows)[l].partition,
    decreases rows.len(),
{
    if rows.len() > 0 {
        let front = rows.drop_last();
        let last = rows.last();
        let before = marks_of(front);
        if l < before.len() {
            lemma_marks_are_distinct(front, k, l);
        } else {
            assert(!has_partition(before, last.partition));
            assert(before[k].partition != last.partition);
        }
    }
}

/// The marks of a batch name each partition of the batch once, with the
/// offset of the last record that the batch has of it, and nothing else.
pub proof fn marks_name_the_last_offsets(rows: Seq<Row>)
    ensures
        forall|k: int, l: int|
            0 <= k < l < marks_of(rows).len() ==> (#[trigger] marks_of(rows)[k]).partition != (
            #[trigger] marks_of(rows)[l]).partition,
        forall|k: int| 0 <= k < marks_of(rows).len() ==> names_last_offset(rows, #[trigger] marks_of(rows)[k]),
        forall|i: int| #[trigger]
            is_last_of_partition(rows, i) ==> marks_of(rows).contains(mark_of(rows[i])),
{
    assert forall|k: int, l: int| 0 <= k < l < marks_of(rows).len() implies (#[trigger] marks_of(
        rows,
    )[k]).partition != (#[trigger] marks_of(rows)[l]).partition by {
        lemma_marks_are_distinct(rows, k, l);
    }
    assert forall|k: int| 0 <= k < marks_of(rows).len() implies names_last_offset(
        rows,
        #[trigger] marks_of(rows)[k],
    ) by {
        lemma_marks_are_last_offsets(rows, k);
    }
    assert forall|i: int| #[trigger] is_last_of_partition(rows, i) implies marks_of(rows).contains(
        mark_of(rows[i]),
    ) by {
        lemma_last_offsets_are_marked(rows, i);
    }
}

/// Moves the mark of the record's partition to the record.
fn mark_record(marks: &mut Vec<Mark>, record: &Record)
    ensures
        marks_by_content(final(marks)@) == marked(marks_by_content(old(marks)@), record@),
{
    let ghost start = marks@;
    let mark = Mark { partition: record.partition, offset: record.offset };
    let mut found = false;
    let mut k: usize = 0;
    while k < marks.len()
        invariant
            k <= marks.len(),
            marks.len() == start.len(),
            mark@ == mark_of(record@),
            found == exists|j: int| 0 <= j < k && (#[trigger] start[j])@.partition == record@.partition,
            forall|j: int| 0 <= j < k ==> (#[trigger] marks@[j])@ == moved_mark(start[j]@, record@),
            forall|j: int| k <= j < marks.len() ==> #[trigger] marks@[j] == start[j],
        decreases marks.len() - k,
    {
        assert(marks@[k as int] == start[k as int]);
        if marks[k].partition == record.partition {
            marks.set(k, mark);
            found = true;
            assert(start[k as int]@.partition == record@.partition);
        }
        k += 1;
    }
    let ghost before = marks_by_content(start);
    proof {
        if found {
            let j = choose|j: int| 0 <= j < k && (#[trigger] start[j])@.partition == record@.partition;
            assert(before[j].partition == record@.partition);
        } else if has_partition(before, record@.partition) {
            let j = choose|j: int| 0 <= j < before.len() && (#[trigger] before[j]).partition == record@.partition;
            assert(start[j]@.partition == record@.partition);
        }
    }
    if !found {
        assert(forall|j: int| 0 <= j < k ==> (#[trigger] marks@[j])@ == start[j]@);
        marks.push(mark);
        assert(marks_by_content(marks@) == before.push(mark@));
    } else {
        assert(marks_by_content(marks@) == before.map_values(|m: MarkView| moved_mark(m, record@)));
    }
}

/// The marks that consume a batch: for each partition the offset of the last
/// record that the batch has of it.
pub fn consumed_marks(batch: &Batch) -> (marks: Vec<Mark>)
    ensures
        marks_by_content(marks@) == marks_of(batch@),
{
    let mut marks: Vec<Mark> = Vec::new();
    let mut i: usize = 0;
    assert(batch@.take(0) == Seq::<Row>::empty());
    while i < batch.records.len()
        invariant
            i <= batch.records.len(),
            marks_by_content(marks@) == marks_of(batch@.take(i as int)),
        decreases batch.records.len() - i,
    {
        assert(batch@.take(i + 1).drop_last() == batch@.take(i as int));
        assert(batch@.take(i + 1).last() == batch.records@[i as int]@);
        mark_record(&mut marks, &batch.records[i]);
        i += 1;
    }
    assert(batch@.take(i as int) == batch@);
    marks
}

} // verus!
