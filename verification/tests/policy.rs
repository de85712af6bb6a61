use topic_dump::policy::{plan_record, Mode, Write};
use topic_dump::record::{same_bytes, Batch, Record};

fn record(partition: u32, offset: u64, key: &str, value: &str) -> Record {
    Record::new(partition, offset, key.as_bytes().to_vec(), value.as_bytes().to_vec())
}

#[test]
fn mode_follows_the_compaction_switch() {
    assert_eq!(Mode::from_compact(false), Mode::Plain);
    assert_eq!(Mode::from_compact(true), Mode::Compacted);
    assert!(Mode::Compacted.is_compacted());
    assert!(!Mode::Plain.is_compacted());
}

#[test]
fn plain_mode_inserts_every_record() {
    assert_eq!(
        plan_record(Mode::Plain, record(3, 7, "k", "v")),
        Write::Insert(record(3, 7, "k", "v"))
    );
}

#[test]
fn plain_mode_inserts_a_tombstone() {
    assert_eq!(
        plan_record(Mode::Plain, record(0, 7, "k", "")),
        Write::Insert(record(0, 7, "k", ""))
    );
}

#[test]
fn compacted_mode_inserts_a_record_with_a_value() {
    assert_eq!(
        plan_record(Mode::Compacted, record(1, 2, "k", "v")),
        Write::Insert(record(1, 2, "k", "v"))
    );
}

#[test]
fn compacted_mode_deletes_the_key_of_a_tombstone() {
    assert_eq!(
        plan_record(Mode::Compacted, record(1, 2, "k", "")),
        Write::DeleteKey(b"k".to_vec())
    );
}

#[test]
fn compacted_mode_deletes_the_empty_key_of_a_tombstone() {
    assert_eq!(
        plan_record(Mode::Compacted, record(0, 0, "", "")),
        Write::DeleteKey(Vec::new())
    );
}

#[test]
fn a_record_with_an_empty_value_is_a_tombstone() {
    assert!(record(0, 0, "k", "").is_tombstone());
    assert!(!record(0, 0, "", "v").is_tombstone());
}

#[test]
fn a_clone_of_a_record_is_equal_to_it() {
    let first = record(4, 9, "key", "value");
    assert_eq!(first.clone(), first);
}

#[test]
fn byte_strings_are_compared_by_content() {
    assert!(same_bytes(b"abc", b"abc"));
    assert!(same_bytes(b"", b""));
    assert!(!same_bytes(b"abc", b"abd"));
    assert!(!same_bytes(b"abc", b"ab"));
    assert!(!same_bytes(b"", b"a"));
}

#[test]
fn an_empty_batch_ends_the_stream() {
    assert!(Batch::new(Vec::new()).is_empty());
    assert_eq!(Batch::new(Vec::new()).len(), 0);
    let batch = Batch::new(vec![record(0, 0, "a", "1"), record(0, 1, "b", "2")]);
    assert!(!batch.is_empty());
    assert_eq!(batch.len(), 2);
}
