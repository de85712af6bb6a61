//! What holds of the target table after a run, whatever the records were.

use crate::policy::{write_for, writes_for, Mode, WriteView};
use crate::record::Row;
use crate::table::{
    distinct_keys, distinct_positions, holds_position, is_last_with_key, lemma_filter_push,
    persisted, respects_schema, with_key, without_key, write_result,
};
use vstd::prelude::*;

verus! {

/// Every row that a filter keeps is a row of the sequence, and one that the filter accepts.
proof fn lemma_filter_member(s: Seq<Row>, keep: spec_fn(Row) -> bool, i: int)
    requires
        0 <= i < s.filter(keep).len(),
    ensures
        keep(s.filter(keep)[i]),
        exists|j: int| 0 <= j < s.len() && #[trigger] s[j] == s.filter(keep)[i],
    decreases s.len(),
{
    reveal(Seq::filter);
    if s.len() > 0 {
        let rest = s.drop_last().filter(keep);
        if i < rest.len() {
            lemma_filter_member(s.drop_last(), keep, i);
            let j = choose|j: int| 0 <= j < s.drop_last().len() && #[trigger] s.drop_last()[j] == rest[i];
            assert(s[j] == s.filter(keep)[i]);
        } else {
            assert(s[s.len() - 1] == s.filter(keep)[i]);
        }
    }
}

/// After the rows of a key are gone, none of them is found.
proof fn lemma_no_row_of_removed_key(rows: Seq<Row>, key: Seq<u8>)
    ensures
        with_key(without_key(rows, key), key) == Seq::<Row>::empty(),
    decreases rows.len(),
{
    reveal(Seq::filter);
    if rows.len() > 0 {
        let front = rows.drop_last();
        assert(rows == front.push(rows.last()));
        lemma_no_row_of_removed_key(front, key);
        lemma_filter_push(front, rows.last(), |r: Row| r.key != key);
        if rows.last().key != key {
            lemma_filter_push(without_key(front, key), rows.last(), |r: Row| r.key == key);
        }
    }
}

/// Removing the rows of one key leaves the rows of every other key as they were.
proof fn lemma_other_keys_stay(rows: Seq<Row>, removed: Seq<u8>, key: Seq<u8>)
    requires
        removed != key,
    ensures
        with_key(without_key(rows, removed), key) == with_key(rows, key),
    decreases rows.len(),
{
    reveal(Seq::filter);
    if rows.len() > 0 {
        let front = rows.drop_last();
        assert(rows == front.push(rows.last()));
        lemma_other_keys_stay(front, removed, key);
        lemma_filter_push(front, rows.last(), |r: Row| r.key != removed);
        lemma_filter_push(front, rows.last(), |r: Row| r.key == key);
        if rows.last().key != removed {
            lemma_filter_push(without_key(front, removed), rows.last(), |r: Row| r.key == key);
        }
    }
}

/// The table of a run is the table of the run without its last record, after
/// the statement of that record.
proof fn lemma_persisted_step(mode: Mode, records: Seq<Row>)
    requires
        records.len() > 0,
    ensures
        persisted(mode, records) == (match persisted(mode, records.drop_last()) {
            Some(before) => write_result(before, mode, write_for(mode, records.last())),
            None => None,
        }),
{
    assert(writes_for(mode, records).drop_last() == writes_for(mode, records.drop_last()));
    assert(writes_for(mode, records).last() == write_for(mode, records.last()));
}

/// Every row of the table after a statement was in the table before, or is the inserted row.
proof fn lemma_rows_come_from_writes(rows: Seq<Row>, mode: Mode, write: WriteView, i: int)
    requires
        write_result(rows, mode, write) is Some,
        0 <= i < write_result(rows, mode, write)->0.len(),
    ensures
        ({
            let next = write_result(rows, mode, write)->0;
            ||| exists|j: int| 0 <= j < rows.len() && #[trigger] rows[j] == next[i]
            ||| write == WriteView::Insert(next[i])
        }),
{
    let next = write_result(rows, mode, write)->0;
    match write {
        WriteView::Insert(row) => {
            if mode == Mode::Compacted {
                if i < next.len() - 1 {
                    lemma_filter_member(rows, |r: Row| r.key != row.key, i);
                }
            } else {
                if i < next.len() - 1 {
                    assert(rows[i] == next[i]);
                }
            }
        },
        WriteView::DeleteKey(key) => {
            lemma_filter_member(rows, |r: Row| r.key != key, i);
        },
    }
}

/// Every row of the table of a run is one of the records of the run.
pub proof fn table_holds_only_records(mode: Mode, records: Seq<Row>, i: int)
    requires
        persisted(mode, records) is Some,
        0 <= i < persisted(mode, records)->0.len(),
    ensures
        exists|j: int| 0 <= j < records.len() && #[trigger] records[j] == persisted(mode, records)->0[i],
    decreases records.len(),
{
    if records.len() > 0 {
        lemma_persisted_step(mode, records);
        let front = records.drop_last();
        let before = persisted(mode, front)->0;
        let write = write_for(mode, records.last());
        let table = persisted(mode, records)->0;
        lemma_rows_come_from_writes(before, mode, write, i);
        if write == WriteView::Insert(table[i]) {
            assert(records[records.len() - 1] == table[i]);
        } else {
            let b = choose|b: int| 0 <= b < before.len() && #[trigger] before[b] == table[i];
            table_holds_only_records(mode, front, b);
            let j = choose|j: int| 0 <= j < front.len() && #[trigger] front[j] == before[b];
            assert(records[j] == table[i]);
        }
    }
}

/// Records at distinct positions are all accepted by the store.
pub proof fn distinct_positions_are_accepted(mode: Mode, records: Seq<Row>)
    requires
        distinct_positions(records),
    ensures
        persisted(mode, records) is Some,
    decreases records.len(),
{
    if records.len() > 0 {
        let front = records.drop_last();
        let last = records.last();
        assert(distinct_positions(front)) by {
            assert forall|i: int, j: int| 0 <= i < j < front.len() implies !(#[trigger] front[i]).same_position(
                #[trigger] front[j],
            ) by {
                assert(!records[i].same_position(records[j]));
            }
        }
        distinct_positions_are_accepted(mode, front);
        lemma_persisted_step(mode, records);
        let before = persisted(mode, front)->0;
        assert(!holds_position(before, last)) by {
            if holds_position(before, last) {
                let b = choose|b: int| 0 <= b < before.len() && (#[trigger] before[b]).same_position(last);
                table_holds_only_records(mode, front, b);
                let j = choose|j: int| 0 <= j < front.len() && #[trigger] front[j] == before[b];
                assert(records[j].same_position(records[records.len() - 1]));
            }
        }
    }
}

/// In plain mode the table of a run holds the records that were handed over,
/// each once and as it was, provided that no two of them stand at the same
/// position of the topic. The records are those of all batches, in the order
/// of delivery.
pub proof fn plain_table_holds_every_record(batches: Seq<Seq<Row>>)
    requires
        distinct_positions(batches.flatten()),
    ensures
        persisted(Mode::Plain, batches.flatten()) == Some(batches.flatten()),
{
    lemma_plain_table_is_the_input(batches.flatten());
}

proof fn lemma_plain_table_is_the_input(records: Seq<Row>)
    requires
        distinct_positions(records),
    ensures
        persisted(Mode::Plain, records) == Some(records),
    decreases records.len(),
{
    if records.len() == 0 {
        assert(writes_for(Mode::Plain, records).len() == 0);
        assert(records == Seq::<Row>::empty());
    } else {
        let front = records.drop_last();
        assert(distinct_positions(front)) by {
            assert forall|i: int, j: int| 0 <= i < j < front.len() implies !(#[trigger] front[i]).same_position(
                #[trigger] front[j],
            ) by {
                assert(!records[i].same_position(records[j]));
            }
        }
        lemma_plain_table_is_the_input(front);
        lemma_persisted_step(Mode::Plain, records);
        distinct_positions_are_accepted(Mode::Plain, records);
        assert(front.push(records.last()) == records);
    }
}

/// The row that a run leaves for a key: the last record with the key, unless
/// that record is a tombstone or there is none.
spec fn survivor(records: Seq<Row>, key: Seq<u8>) -> Option<Row>
    decreases records.len(),
{
    if records.len() == 0 {
        None
    } else if records.last().key == key {
        if records.last().is_tombstone() {
            None
        } else {
            Some(records.last())
        }
    } else {
        survivor(records.drop_last(), key)
    }
}

/// `survivor` looks at the last record that has the key, and at nothing else.
proof fn lemma_survivor_is_last_with_key(records: Seq<Row>, key: Seq<u8>)
    ensures
        forall|i: int| #[trigger]
            is_last_with_key(records, key, i) ==> survivor(records, key) == (if records[i].is_tombstone() {
                None
            } else {
                Some(records[i])
            }),
        (forall|j: int| 0 <= j < records.len() ==> (#[trigger] records[j]).key != key) ==> survivor(
            records,
            key,
        ) is None,
    decreases records.len(),
{
    if records.len() > 0 {
        let front = records.drop_last();
        lemma_survivor_is_last_with_key(front, key);
        assert forall|i: int| #[trigger] is_last_with_key(records, key, i) implies survivor(records, key) == (
        if records[i].is_tombstone() {
            None
        } else {
            Some(records[i])
        }) by {
            if records.last().key == key {
                if i < records.len() - 1 {
                    assert(records[records.len() - 1].key != key);
                }
            } else {
                assert(is_last_with_key(front, key, i)) by {
                    assert forall|j: int| i < j < front.len() implies (#[trigger] front[j]).key != key by {
                        assert(records[j].key != key);
                    }
                }
            }
        }
        if forall|j: int| 0 <= j < records.len() ==> (#[trigger] records[j]).key != key {
            assert(records[records.len() - 1].key != key);
            assert forall|j: int| 0 <= j < front.len() implies (#[trigger] front[j]).key != key by {
                assert(records[j].key != key);
            }
        }
    }
}

/// Under compaction the rows of a key are the survivor of the key, or none.
proof fn lemma_compacted_rows_of_key(records: Seq<Row>, key: Seq<u8>)
    requires
        persisted(Mode::Compacted, records) is Some,
    ensures
        with_key(persisted(Mode::Compacted, records)->0, key) == (match survivor(records, key) {
            Some(row) => seq![row],
            None => Seq::<Row>::empty(),
        }),
    decreases records.len(),
{
    reveal(Seq::filter);
    if records.len() == 0 {
        assert(writes_for(Mode::Compacted, records).len() == 0);
    } else {
        let front = records.drop_last();
        let last = records.last();
        lemma_persisted_step(Mode::Compacted, records);
        lemma_compacted_rows_of_key(front, key);
        let before = persisted(Mode::Compacted, front)->0;
        if last.key == key {
            lemma_no_row_of_removed_key(before, key);
            if !last.is_tombstone() {
                lemma_filter_push(without_key(before, key), last, |r: Row| r.key == key);
                assert(Seq::<Row>::empty().push(last) == seq![last]);
            }
        } else {
            lemma_other_keys_stay(before, last.key, key);
            if !last.is_tombstone() {
                lemma_filter_push(without_key(before, last.key), last, |r: Row| r.key == key);
            }
        }
    }
}

/// Under compaction the table of a run holds, for each key, the last record
/// that was handed over with this key and nothing else with it; where that
/// record is a tombstone, or no record had the key, it holds no row with the
/// key. This holds of every run whose writes the store accepts, and so of
/// all records of which no two stand at the same position of the topic (see
/// `distinct_positions_are_accepted`). It is not stated of the other runs: the
/// store refuses a record at a position that is taken, whatever its key.
pub proof fn compacted_table_holds_latest_of_each_key(records: Seq<Row>, key: Seq<u8>)
    requires
        persisted(Mode::Compacted, records) is Some,
    ensures
        forall|i: int| #[trigger]
            is_last_with_key(records, key, i) ==> with_key(persisted(Mode::Compacted, records)->0, key) == (
            if records[i].is_tombstone() {
                Seq::<Row>::empty()
            } else {
                seq![records[i]]
            }),
        (forall|j: int| 0 <= j < records.len() ==> (#[trigger] records[j]).key != key) ==> with_key(
            persisted(Mode::Compacted, records)->0,
            key,
        ) == Seq::<Row>::empty(),
{
    lemma_compacted_rows_of_key(records, key);
    lemma_survivor_is_last_with_key(records, key);
}

/// A filter keeps positions and keys distinct.
proof fn lemma_filter_keeps_distinct(s: Seq<Row>, keep: spec_fn(Row) -> bool)
    ensures
        distinct_positions(s) ==> distinct_positions(s.filter(keep)),
        distinct_keys(s) ==> distinct_keys(s.filter(keep)),
    decreases s.len(),
{
    reveal(Seq::filter);
    if s.len() > 0 {
        let front = s.drop_last();
        let kept = front.filter(keep);
        lemma_filter_keeps_distinct(front, keep);
        if distinct_positions(s) {
            assert(distinct_positions(front)) by {
                assert forall|i: int, j: int| 0 <= i < j < front.len() implies !(#[trigger] front[i]).same_position(
                    #[trigger] front[j],
                ) by {
                    assert(!s[i].same_position(s[j]));
                }
            }
            assert forall|i: int, j: int| 0 <= i < j < s.filter(keep).len() implies !(#[trigger] s.filter(
                keep,
            )[i]).same_position(#[trigger] s.filter(keep)[j]) by {
                if j == kept.len() {
                    lemma_filter_member(front, keep, i);
                    let k = choose|k: int| 0 <= k < front.len() && #[trigger] front[k] == kept[i];
                    assert(!s[k].same_position(s[s.len() - 1]));
                } else {
                    assert(!kept[i].same_position(kept[j]));
                }
            }
        }
        if distinct_keys(s) {
            assert(distinct_keys(front)) by {
                assert forall|i: int, j: int| 0 <= i < j < front.len() implies (#[trigger] front[i]).key != (
                #[trigger] front[j]).key by {
                    assert(s[i].key != s[j].key);
                }
            }
            assert forall|i: int, j: int| 0 <= i < j < s.filter(keep).len() implies (#[trigger] s.filter(
                keep,
            )[i]).key != (#[trigger] s.filter(keep)[j]).key by {
                if j == kept.len() {
                    lemma_filter_member(front, keep, i);
                    let k = choose|k: int| 0 <= k < front.len() && #[trigger] front[k] == kept[i];
                    assert(s[k].key != s[s.len() - 1].key);
                } else {
                    assert(kept[i].key != kept[j].key);
                }
            }
        }
    }
}

/// A statement that the store accepts leaves a table that respects the
/// schema: no two rows at one position and, under compaction, no two rows
/// with one key.
pub proof fn schema_is_kept(rows: Seq<Row>, mode: Mode, write: WriteView)
    requires
        respects_schema(rows, mode),
        write_result(rows, mode, write) is Some,
    ensures
        respects_schema(write_result(rows, mode, write)->0, mode),
{
    let next = write_result(rows, mode, write)->0;
    match write {
        WriteView::DeleteKey(key) => {
            lemma_filter_keeps_distinct(rows, |r: Row| r.key != key);
        },
        WriteView::Insert(row) => {
            if mode == Mode::Compacted {
                let kept = without_key(rows, row.key);
                lemma_filter_keeps_distinct(rows, |r: Row| r.key != row.key);
                assert forall|i: int, j: int| 0 <= i < j < next.len() implies !(#[trigger] next[i]).same_position(
                    #[trigger] next[j],
                ) && next[i].key != next[j].key by {
                    if j == kept.len() {
                        lemma_filter_member(rows, |r: Row| r.key != row.key, i);
                        let k = choose|k: int| 0 <= k < rows.len() && #[trigger] rows[k] == kept[i];
                        assert(!rows[k].same_position(row));
                    } else {
                        assert(!kept[i].same_position(kept[j]));
                        assert(kept[i].key != kept[j].key);
                    }
                }
            } else {
                assert forall|i: int, j: int| 0 <= i < j < next.len() implies !(#[trigger] next[i]).same_position(
                    #[trigger] next[j],
                ) by {
                    if j == rows.len() {
                        assert(!rows[i].same_position(row));
                    } else {
                        assert(!rows[i].same_position(rows[j]));
                    }
                }
            }
        },
    }
}

/// The table of every run that the store accepts respects the schema.
pub proof fn persisted_table_respects_schema(mode: Mode, records: Seq<Row>)
    requires
        persisted(mode, records) is Some,
    ensures
        respects_schema(persisted(mode, records)->0, mode),
    decreases records.len(),
{
    if records.len() > 0 {
        lemma_persisted_step(mode, records);
        persisted_table_respects_schema(mode, records.drop_last());
        schema_is_kept(
            persisted(mode, records.drop_last())->0,
            mode,
            write_for(mode, records.last()),
        );
    } else {
        assert(writes_for(mode, records).len() == 0);
    }
}

/// Under compaction a run whose records all have one key leaves the last of
/// them as the only row, or no row where the last is a tombstone; again for
/// every run whose writes the store accepts.
pub proof fn compacted_table_of_one_key(records: Seq<Row>)
    requires
        records.len() > 0,
        forall|i: int| 0 <= i < records.len() ==> (#[trigger] records[i]).key == records[0].key,
        persisted(Mode::Compacted, records) is Some,
    ensures
        persisted(Mode::Compacted, records) == Some(
            if records.last().is_tombstone() {
                Seq::<Row>::empty()
            } else {
                seq![records.last()]
            },
        ),
{
    let key = records[0].key;
    compacted_table_holds_latest_of_each_key(records, key);
    assert(is_last_with_key(records, key, records.len() - 1));
    let table = persisted(Mode::Compacted, records)->0;
    assert forall|i: int| 0 <= i < table.len() implies (#[trigger] table[i]).key == key by {
        table_holds_only_records(Mode::Compacted, records, i);
    }
    lemma_filter_of_all(table, |r: Row| r.key == key);
}

/// A filter that accepts every row changes nothing.
proof fn lemma_filter_of_all(s: Seq<Row>, keep: spec_fn(Row) -> bool)
    requires
        forall|i: int| 0 <= i < s.len() ==> keep(#[trigger] s[i]),
    ensures
        s.filter(keep) == s,
    decreases s.len(),
{
    reveal(Seq::filter);
    if s.len() > 0 {
        assert forall|i: int| 0 <= i < s.drop_last().len() implies keep(#[trigger] s.drop_last()[i]) by {
            assert(keep(s[i]));
        }
        lemma_filter_of_all(s.drop_last(), keep);
        assert(keep(s[s.len() - 1]));
        assert(s.drop_last().push(s.last()) == s);
    }
}

} // verus!
