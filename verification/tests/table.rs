use topic_dump::policy::{plan_record, Mode, Write};
use topic_dump::record::Record;
use topic_dump::table::{StoreError, Table};

fn record(partition: u32, offset: u64, key: &str, value: &str) -> Record {
    Record::new(partition, offset, key.as_bytes().to_vec(), value.as_bytes().to_vec())
}

fn rows(table: &Table) -> Vec<Record> {
    let mut rows = Vec::new();
    for i in 0..table.len() {
        rows.push(table.row(i).clone());
    }
    rows
}

fn persist(mode: Mode, records: Vec<Record>) -> Result<Table, StoreError> {
    let mut table = Table::new(mode);
    for record in records {
        table.apply(plan_record(mode, record))?;
    }
    Ok(table)
}

#[test]
fn a_new_table_is_empty() {
    let table = Table::new(Mode::Compacted);
    assert_eq!(table.len(), 0);
    assert_eq!(table.mode(), Mode::Compacted);
    assert!(!table.holds(0, 0));
}

#[test]
fn plain_mode_keeps_three_records_at_three_offsets() {
    let table = persist(
        Mode::Plain,
        vec![record(0, 0, "a", "1"), record(0, 1, "b", "2"), record(0, 2, "c", "3")],
    )
    .unwrap();
    assert_eq!(
        rows(&table),
        vec![record(0, 0, "a", "1"), record(0, 1, "b", "2"), record(0, 2, "c", "3")]
    );
    assert!(table.holds(0, 0) && table.holds(0, 1) && table.holds(0, 2));
    assert!(!table.holds(0, 3) && !table.holds(1, 0));
}

#[test]
fn plain_mode_keeps_records_with_one_key_and_tombstones() {
    let input = vec![
        record(0, 0, "k", "v1"),
        record(1, 0, "k", "v2"),
        record(0, 1, "k", ""),
        record(1, 1, "", ""),
    ];
    let table = persist(Mode::Plain, input.clone()).unwrap();
    assert_eq!(rows(&table), input);
}

#[test]
fn compacted_mode_keeps_the_later_of_two_records_of_a_key() {
    let table = persist(Mode::Compacted, vec![record(0, 0, "k", "v1"), record(0, 5, "k", "v2")]).unwrap();
    assert_eq!(rows(&table), vec![record(0, 5, "k", "v2")]);
    assert_eq!(table.rows_with_key(b"k"), vec![record(0, 5, "k", "v2")]);
}

#[test]
fn compacted_mode_keeps_nothing_of_a_key_that_ends_in_a_tombstone() {
    let table = persist(Mode::Compacted, vec![record(0, 0, "k", "v1"), record(0, 1, "k", "")]).unwrap();
    assert_eq!(table.len(), 0);
    assert_eq!(table.rows_with_key(b"k"), Vec::<Record>::new());
}

#[test]
fn compacted_mode_keeps_the_last_record_of_each_key() {
    let table = persist(
        Mode::Compacted,
        vec![
            record(0, 0, "a", "a1"),
            record(1, 0, "b", "b1"),
            record(0, 1, "a", "a2"),
            record(1, 1, "c", "c1"),
            record(0, 2, "b", ""),
            record(1, 2, "c", "c2"),
            record(0, 3, "d", ""),
        ],
    )
    .unwrap();
    assert_eq!(rows(&table), vec![record(0, 1, "a", "a2"), record(1, 2, "c", "c2")]);
    assert_eq!(table.rows_with_key(b"a"), vec![record(0, 1, "a", "a2")]);
    assert_eq!(table.rows_with_key(b"b"), Vec::<Record>::new());
    assert_eq!(table.rows_with_key(b"d"), Vec::<Record>::new());
    assert_eq!(table.rows_with_key(b"never"), Vec::<Record>::new());
}

#[test]
fn compacted_mode_brings_a_key_back_after_its_tombstone() {
    let table = persist(
        Mode::Compacted,
        vec![record(0, 0, "k", "v1"), record(0, 1, "k", ""), record(0, 2, "k", "v3")],
    )
    .unwrap();
    assert_eq!(rows(&table), vec![record(0, 2, "k", "v3")]);
}

#[test]
fn the_empty_key_is_a_key_like_any_other() {
    let table = persist(Mode::Compacted, vec![record(0, 0, "", "v1"), record(0, 1, "", "v2")]).unwrap();
    assert_eq!(rows(&table), vec![record(0, 1, "", "v2")]);
}

#[test]
fn a_second_record_at_a_position_is_refused() {
    let mut table = Table::new(Mode::Plain);
    assert_eq!(table.insert(record(0, 0, "a", "1")), Ok(()));
    assert_eq!(table.insert(record(0, 0, "b", "2")), Err(StoreError::DuplicatePosition));
    assert_eq!(rows(&table), vec![record(0, 0, "a", "1")]);
}

#[test]
fn a_second_record_at_a_position_is_refused_under_compaction_too() {
    let mut table = Table::new(Mode::Compacted);
    assert_eq!(table.insert(record(0, 0, "k", "v1")), Ok(()));
    assert_eq!(table.insert(record(0, 0, "k", "v2")), Err(StoreError::DuplicatePosition));
    assert_eq!(table.insert(record(0, 1, "a", "1")), Ok(()));
    assert_eq!(table.insert(record(0, 0, "a", "2")), Err(StoreError::DuplicatePosition));
    assert_eq!(rows(&table), vec![record(0, 0, "k", "v1"), record(0, 1, "a", "1")]);
}

#[test]
fn deleting_a_key_removes_its_rows_and_no_others() {
    let mut table = Table::new(Mode::Plain);
    table.insert(record(0, 0, "a", "1")).unwrap();
    table.insert(record(0, 1, "b", "2")).unwrap();
    table.insert(record(0, 2, "a", "3")).unwrap();
    table.delete_key(b"a");
    assert_eq!(rows(&table), vec![record(0, 1, "b", "2")]);
    table.delete_key(b"missing");
    assert_eq!(rows(&table), vec![record(0, 1, "b", "2")]);
}

#[test]
fn applying_a_delete_never_fails() {
    let mut table = Table::new(Mode::Compacted);
    assert_eq!(table.apply(Write::DeleteKey(b"k".to_vec())), Ok(()));
    assert_eq!(table.len(), 0);
}
