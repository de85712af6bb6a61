//! The decisions of the stage that persists: the order of its set-up, what is
//! done for each record, and when the run is committed. The caller talks to
//! the store and to the queue, and reports what happened.

use crate::policy::{plan_record, write_for, Mode, Write, WriteView};
use crate::record::{rows_of, Batch, Row};
use crate::schema::{
    create_table_sql, create_table_text, delete_sql, delete_text, insert_sql, insert_text,
    sanitize_table_name, sanitized,
};
use crate::text::lossy_text;
use crate::trace::{trace_line, trace_text};
use vstd::prelude::*;

verus! {

/// Where the persister stands.
#[derive(Clone, Copy, Debug, PartialEq, Eq, Structural)]
pub enum PersistPhase {
    /// Nothing was done yet.
    Ready,
    /// What stood at the output location before is being removed.
    Truncating,
    /// The store is being opened.
    Opening,
    /// The table is being created.
    Creating,
    /// The transaction of the run is being opened.
    Beginning,
    /// The two statements are being prepared.
    Preparing,
    /// The persister waits for the next batch.
    Receiving,
    /// The records of a batch are being traced and written.
    Writing,
    /// The transaction is being committed.
    Committing,
    /// The run is committed; the persister is done.
    Finished,
    /// The persister gave up.
    Failed,
}

/// Why the persister gave up.
#[derive(Clone, Copy, Debug, PartialEq, Eq, Structural)]
pub enum PersistError {
    /// The store could not be opened.
    OpenFailed,
    /// The table could not be created.
    CreateTableFailed,
    /// The transaction could not be opened.
    BeginFailed,
    /// A statement could not be prepared.
    PrepareFailed,
    /// The store refused a write.
    WriteFailed,
    /// The store refused the commit.
    CommitFailed,
    /// The caller reported something that the persister had not asked for.
    OutOfTurn,
}

/// What the caller reports.
#[derive(Debug, PartialEq, Eq)]
pub enum PersistEvent {
    /// The stage starts.
    Start,
    /// What the persister asked for last was done.
    Done,
    /// What the persister asked for last could not be done.
    Failed,
    /// The queue handed out this batch.
    Received(Batch),
    /// The queue is closed and empty: no batch will follow.
    Closed,
}

/// What is done for one record: a line is printed, then a statement is run.
#[derive(Debug, PartialEq, Eq)]
pub struct TracedWrite {
    pub trace: String,
    pub write: Write,
}

/// The content of a [`TracedWrite`].
pub struct TracedWriteView {
    pub trace: Seq<char>,
    pub write: WriteView,
}

impl View for TracedWrite {
    type V = TracedWriteView;

    open spec fn view(&self) -> TracedWriteView {
        TracedWriteView { trace: self.trace@, write: self.write@ }
    }
}

/// The traced writes of a sequence, each by its content.
pub open spec fn traced_by_content(writes: Seq<TracedWrite>) -> Seq<TracedWriteView> {
    writes.map_values(|w: TracedWrite| w@)
}

/// What the persister asks the caller to do next.
#[derive(Debug, PartialEq, Eq)]
pub enum PersistCommand {
    /// Remove what stands at the output location; it is no failure if nothing stands there.
    Truncate,
    /// Open the store at the output location.
    Open,
    /// Run this statement, which creates the table.
    CreateTable(String),
    /// Open the transaction that holds all writes of the run.
    Begin,
    /// Prepare the statement that inserts and the one that deletes.
    Prepare { insert: String, delete: String },
    /// Wait for the next batch.
    Receive,
    /// For each of these in order, print the line and run the statement; stop
    /// at the first statement that the store refuses.
    Persist(Vec<TracedWrite>),
    /// Commit the transaction.
    Commit,
    /// Stop: the run is complete.
    Finish,
    /// Stop with a failure; nothing is committed.
    Abort(PersistError),
}

/// The content of a [`PersistCommand`].
pub enum PersistCommandView {
    Truncate,
    Open,
    CreateTable(Seq<char>),
    Begin,
    Prepare { insert: Seq<char>, delete: Seq<char> },
    Receive,
    Persist(Seq<TracedWriteView>),
    Commit,
    Finish,
    Abort(PersistError),
}

impl View for PersistCommand {
    type V = PersistCommandView;

    open spec fn view(&self) -> PersistCommandView {
        match self {
            PersistCommand::Truncate => PersistCommandView::Truncate,
            PersistCommand::Open => PersistCommandView::Open,
            PersistCommand::CreateTable(sql) => PersistCommandView::CreateTable(sql@),
            PersistCommand::Begin => PersistCommandView::Begin,
            PersistCommand::Prepare { insert, delete } => PersistCommandView::Prepare {
                insert: insert@,
                delete: delete@,
            },
            PersistCommand::Receive => PersistCommandView::Receive,
            PersistCommand::Persist(writes) => PersistCommandView::Persist(traced_by_content(writes@)),
            PersistCommand::Commit => PersistCommandView::Commit,
            PersistCommand::Finish => PersistCommandView::Finish,
            PersistCommand::Abort(error) => PersistCommandView::Abort(*error),
        }
    }
}

/// What is done for one record of `topic`.
pub open spec fn traced_write_for(topic: Seq<char>, mode: Mode, row: Row) -> TracedWriteView {
    TracedWriteView {
        trace: trace_text(topic, row.partition, row.offset, lossy_text(row.value)),
        write: write_for(mode, row),
    }
}

/// What is done for the records of a batch: one traced write for each record, in the order of the batch.
pub open spec fn traced_writes_for(topic: Seq<char>, mode: Mode, rows: Seq<Row>) -> Seq<TracedWriteView> {
    rows.map_values(|row: Row| traced_write_for(topic, mode, row))
}

/// What is to be done for the records of a batch.
pub fn plan_batch(topic: &str, mode: Mode, batch: Batch) -> (planned: Vec<TracedWrite>)
    ensures
        traced_by_content(planned@) == traced_writes_for(topic@, mode, batch@),
{
    let ghost records = batch.records@;
    let mut planned: Vec<TracedWrite> = Vec::new();
    for record in it: batch.records
        invariant
            it.seq() == records,
            traced_by_content(planned@) == traced_writes_for(
                topic@,
                mode,
                rows_of(records.take(it.index() as int)),
            ),
    {
        let ghost before = planned@;
        let ghost row = record@;
        let trace = trace_line(topic, &record);
        let write = plan_record(mode, record);
        let traced = TracedWrite { trace, write };
        planned.push(traced);
        assert(traced_by_content(planned@) == traced_by_content(before).push(traced@));
        assert(rows_of(records.take(it.index() + 1)) == rows_of(records.take(it.index() as int)).push(
            row,
        ));
    }
    assert(records.take(records.len() as int) == records);
    planned
}

/// The failure that ends the persister when the caller reports `Failed`, or
/// anything that does not answer the last command.
pub open spec fn persist_failure(phase: PersistPhase, event: PersistEvent) -> PersistError {
    if event is Failed {
        match phase {
            PersistPhase::Opening => PersistError::OpenFailed,
            PersistPhase::Creating => PersistError::CreateTableFailed,
            PersistPhase::Beginning => PersistError::BeginFailed,
            PersistPhase::Preparing => PersistError::PrepareFailed,
            PersistPhase::Writing => PersistError::WriteFailed,
            PersistPhase::Committing => PersistError::CommitFailed,
            _ => PersistError::OutOfTurn,
        }
    } else {
        PersistError::OutOfTurn
    }
}

/// The persister's rule. The set-up comes first and once: truncate, open,
/// create the table, open the transaction, prepare the statements. The
/// truncation may fail, as it does where nothing stands at the location.
/// Then each batch is answered with one traced write for each of its records. When
/// the queue is closed the transaction is committed. A failure of any other
/// step is final.
pub open spec fn persist_step(
    topic: Seq<char>,
    mode: Mode,
    phase: PersistPhase,
    event: PersistEvent,
) -> (PersistPhase, PersistCommandView) {
    let table = sanitized(topic);
    match (phase, event) {
        (PersistPhase::Ready, PersistEvent::Start) => (
            PersistPhase::Truncating,
            PersistCommandView::Truncate,
        ),
        (PersistPhase::Truncating, PersistEvent::Done) => (PersistPhase::Opening, PersistCommandView::Open),
        (PersistPhase::Truncating, PersistEvent::Failed) => (
            PersistPhase::Opening,
            PersistCommandView::Open,
        ),
        (PersistPhase::Opening, PersistEvent::Done) => (
            PersistPhase::Creating,
            PersistCommandView::CreateTable(create_table_text(table, mode)),
        ),
        (PersistPhase::Creating, PersistEvent::Done) => (
            PersistPhase::Beginning,
            PersistCommandView::Begin,
        ),
        (PersistPhase::Beginning, PersistEvent::Done) => (
            PersistPhase::Preparing,
            PersistCommandView::Prepare { insert: insert_text(table), delete: delete_text(table) },
        ),
        (PersistPhase::Preparing, PersistEvent::Done) => (
            PersistPhase::Receiving,
            PersistCommandView::Receive,
        ),
        (PersistPhase::Receiving, PersistEvent::Received(batch)) => (
            PersistPhase::Writing,
            PersistCommandView::Persist(traced_writes_for(topic, mode, batch@)),
        ),
        (PersistPhase::Receiving, PersistEvent::Closed) => (
            PersistPhase::Committing,
            PersistCommandView::Commit,
        ),
        (PersistPhase::Writing, PersistEvent::Done) => (
            PersistPhase::Receiving,
            PersistCommandView::Receive,
        ),
        (PersistPhase::Committing, PersistEvent::Done) => (
            PersistPhase::Finished,
            PersistCommandView::Finish,
        ),
        _ => (PersistPhase::Failed, PersistCommandView::Abort(persist_failure(phase, event))),
    }
}

/// Applies the persister's rule to one report of the caller.
pub fn persister_step(topic: &str, mode: Mode, phase: PersistPhase, event: PersistEvent) -> (next: (
    PersistPhase,
    PersistCommand,
))
    ensures
        next.0 == persist_step(topic@, mode, phase, event).0,
        next.1@ == persist_step(topic@, mode, phase, event).1,
{
    match (phase, event) {
        (PersistPhase::Ready, PersistEvent::Start) => (PersistPhase::Truncating, PersistCommand::Truncate),
        (PersistPhase::Truncating, PersistEvent::Done) => (PersistPhase::Opening, PersistCommand::Open),
        (PersistPhase::Truncating, PersistEvent::Failed) => (PersistPhase::Opening, PersistCommand::Open),
        (PersistPhase::Opening, PersistEvent::Done) => {
            let table = sanitize_table_name(topic);
            (PersistPhase::Creating, PersistCommand::CreateTable(create_table_sql(table.as_str(), mode)))
        },
        (PersistPhase::Creating, PersistEvent::Done) => (PersistPhase::Beginning, PersistCommand::Begin),
        (PersistPhase::Beginning, PersistEvent::Done) => {
            let table = sanitize_table_name(topic);
            let insert = insert_sql(table.as_str());
            let delete = delete_sql(table.as_str());
            (PersistPhase::Preparing, PersistCommand::Prepare { insert, delete })
        },
        (PersistPhase::Preparing, PersistEvent::Done) => (PersistPhase::Receiving, PersistCommand::Receive),
        (PersistPhase::Receiving, PersistEvent::Received(batch)) => (
            PersistPhase::Writing,
            PersistCommand::Persist(plan_batch(topic, mode, batch)),
        ),
        (PersistPhase::Receiving, PersistEvent::Closed) => (PersistPhase::Committing, PersistCommand::Commit),
        (PersistPhase::Writing, PersistEvent::Done) => (PersistPhase::Receiving, PersistCommand::Receive),
        (PersistPhase::Committing, PersistEvent::Done) => (PersistPhase::Finished, PersistCommand::Finish),
        (PersistPhase::Opening, PersistEvent::Failed) => (
            PersistPhase::Failed,
            PersistCommand::Abort(PersistError::OpenFailed),
        ),
        (PersistPhase::Creating, PersistEvent::Failed) => (
            PersistPhase::Failed,
            PersistCommand::Abort(PersistError::CreateTableFailed),
        ),
        (PersistPhase::Beginning, PersistEvent::Failed) => (
            PersistPhase::Failed,
            PersistCommand::Abort(PersistError::BeginFailed),
        ),
        (PersistPhase::Preparing, PersistEvent::Failed) => (
            PersistPhase::Failed,
            PersistCommand::Abort(PersistError::PrepareFailed),
        ),
        (PersistPhase::Writing, PersistEvent::Failed) => (
            PersistPhase::Failed,
            PersistCommand::Abort(PersistError::WriteFailed),
        ),
        (PersistPhase::Committing, PersistEvent::Failed) => (
            PersistPhase::Failed,
            PersistCommand::Abort(PersistError::CommitFailed),
        ),
        _ => (PersistPhase::Failed, PersistCommand::Abort(PersistError::OutOfTurn)),
    }
}

} // verus!
