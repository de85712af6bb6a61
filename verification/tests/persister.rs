use topic_dump::persister::{
    persister_step, plan_batch, PersistCommand, PersistError, PersistEvent, PersistPhase, TracedWrite,
};
use topic_dump::policy::{Mode, Write};
use topic_dump::record::{Batch, Record};

fn record(partition: u32, offset: u64, key: &str, value: &str) -> Record {
    Record::new(partition, offset, key.as_bytes().to_vec(), value.as_bytes().to_vec())
}

fn commands(topic: &str, mode: Mode, events: Vec<PersistEvent>) -> (PersistPhase, Vec<PersistCommand>) {
    let mut phase = PersistPhase::Ready;
    let mut commands = Vec::new();
    for event in events {
        let (next, command) = persister_step(topic, mode, phase, event);
        phase = next;
        commands.push(command);
    }
    (phase, commands)
}

fn set_up(compacted: bool) -> Vec<PersistCommand> {
    let create = if compacted {
        "create table my_topic (partition integer, offset integer, key blob, value blob, primary key (partition, offset), unique (key) on conflict replace)"
    } else {
        "create table my_topic (partition integer, offset integer, key blob, value blob, primary key (partition, offset))"
    };
    vec![
        PersistCommand::Truncate,
        PersistCommand::Open,
        PersistCommand::CreateTable(create.to_string()),
        PersistCommand::Begin,
        PersistCommand::Prepare {
            insert: "insert into my_topic(partition, offset, key, value) values(?, ?, ?, ?)".to_string(),
            delete: "delete from my_topic where key = ?".to_string(),
        },
        PersistCommand::Receive,
    ]
}

fn done(n: usize) -> Vec<PersistEvent> {
    let mut events = vec![PersistEvent::Start];
    for _ in 0..n {
        events.push(PersistEvent::Done);
    }
    events
}

#[test]
fn the_set_up_runs_in_its_order_before_any_batch() {
    assert_eq!(
        commands("my.topic", Mode::Plain, done(5)),
        (PersistPhase::Receiving, set_up(false))
    );
    assert_eq!(
        commands("my.topic", Mode::Compacted, done(5)),
        (PersistPhase::Receiving, set_up(true))
    );
}

#[test]
fn the_set_up_goes_on_where_nothing_was_there_to_truncate() {
    let mut events = vec![PersistEvent::Start, PersistEvent::Failed];
    for _ in 0..4 {
        events.push(PersistEvent::Done);
    }
    assert_eq!(
        commands("my.topic", Mode::Plain, events),
        (PersistPhase::Receiving, set_up(false))
    );
}

#[test]
fn an_empty_topic_is_committed_as_an_empty_table() {
    let mut events = done(5);
    events.push(PersistEvent::Closed);
    events.push(PersistEvent::Done);
    let mut expected = set_up(false);
    expected.push(PersistCommand::Commit);
    expected.push(PersistCommand::Finish);
    assert_eq!(
        commands("my.topic", Mode::Plain, events),
        (PersistPhase::Finished, expected)
    );
}

#[test]
fn every_record_of_a_batch_is_traced_and_written() {
    let mut events = done(5);
    events.push(PersistEvent::Received(Batch::new(vec![
        record(0, 0, "a", "one"),
        record(1, 7, "b", ""),
    ])));
    events.push(PersistEvent::Done);
    events.push(PersistEvent::Closed);
    events.push(PersistEvent::Done);
    let (phase, commands) = commands("my.topic", Mode::Compacted, events);
    assert_eq!(phase, PersistPhase::Finished);
    assert_eq!(
        commands[6],
        PersistCommand::Persist(vec![
            TracedWrite {
                trace: "my.topic 0 0 one".to_string(),
                write: Write::Insert(record(0, 0, "a", "one")),
            },
            TracedWrite { trace: "my.topic 1 7 ".to_string(), write: Write::DeleteKey(b"b".to_vec()) },
        ])
    );
    assert_eq!(commands[7], PersistCommand::Receive);
    assert_eq!(commands[8], PersistCommand::Commit);
    assert_eq!(commands[9], PersistCommand::Finish);
}

#[test]
fn the_writes_of_a_batch_keep_its_order() {
    let planned = plan_batch(
        "t",
        Mode::Plain,
        Batch::new(vec![record(0, 2, "k", "c"), record(0, 0, "k", ""), record(0, 1, "k", "b")]),
    );
    assert_eq!(
        planned,
        vec![
            TracedWrite { trace: "t 0 2 c".to_string(), write: Write::Insert(record(0, 2, "k", "c")) },
            TracedWrite { trace: "t 0 0 ".to_string(), write: Write::Insert(record(0, 0, "k", "")) },
            TracedWrite { trace: "t 0 1 b".to_string(), write: Write::Insert(record(0, 1, "k", "b")) },
        ]
    );
    assert_eq!(plan_batch("t", Mode::Compacted, Batch::new(Vec::new())), Vec::<TracedWrite>::new());
}

#[test]
fn each_step_of_the_persister_fails_with_its_own_error() {
    let cases = [
        (PersistPhase::Opening, PersistError::OpenFailed),
        (PersistPhase::Creating, PersistError::CreateTableFailed),
        (PersistPhase::Beginning, PersistError::BeginFailed),
        (PersistPhase::Preparing, PersistError::PrepareFailed),
        (PersistPhase::Writing, PersistError::WriteFailed),
        (PersistPhase::Committing, PersistError::CommitFailed),
        (PersistPhase::Receiving, PersistError::OutOfTurn),
        (PersistPhase::Ready, PersistError::OutOfTurn),
    ];
    for (phase, error) in cases {
        assert_eq!(
            persister_step("t", Mode::Plain, phase, PersistEvent::Failed),
            (PersistPhase::Failed, PersistCommand::Abort(error))
        );
    }
}

#[test]
fn nothing_is_committed_after_a_write_was_refused() {
    let mut events = done(5);
    events.push(PersistEvent::Received(Batch::new(vec![record(0, 0, "a", "1")])));
    events.push(PersistEvent::Failed);
    events.push(PersistEvent::Closed);
    let (phase, commands) = commands("t", Mode::Plain, events);
    assert_eq!(phase, PersistPhase::Failed);
    assert_eq!(commands[7], PersistCommand::Abort(PersistError::WriteFailed));
    assert_eq!(commands[8], PersistCommand::Abort(PersistError::OutOfTurn));
    assert!(!commands.contains(&PersistCommand::Commit));
}

#[test]
fn a_report_out_of_turn_ends_the_persister() {
    assert_eq!(
        persister_step("t", Mode::Plain, PersistPhase::Ready, PersistEvent::Done),
        (PersistPhase::Failed, PersistCommand::Abort(PersistError::OutOfTurn))
    );
    assert_eq!(
        persister_step("t", Mode::Plain, PersistPhase::Opening, PersistEvent::Closed),
        (PersistPhase::Failed, PersistCommand::Abort(PersistError::OutOfTurn))
    );
    assert_eq!(
        persister_step(
            "t",
            Mode::Plain,
            PersistPhase::Writing,
            PersistEvent::Received(Batch::new(Vec::new()))
        ),
        (PersistPhase::Failed, PersistCommand::Abort(PersistError::OutOfTurn))
    );
    assert_eq!(
        persister_step("t", Mode::Plain, PersistPhase::Finished, PersistEvent::Start),
        (PersistPhase::Failed, PersistCommand::Abort(PersistError::OutOfTurn))
    );
}
