//! What a run leaves at the output location when every step succeeds.
//!
//! The store is not part of this library. These laws are stated over a plain
//! description of what it does with the persister's commands: truncation
//! leaves nothing at the location, the table can be created only where none
//! stands, and each write changes the table as the module `table` says.

use crate::persister::{
    persist_step, traced_writes_for, PersistCommandView, PersistEvent, PersistPhase, TracedWriteView,
};
use crate::persister_laws::{
    persist_commands, persist_commands_from, persist_phase_after, persist_phase_from,
    set_up_commands,
};
use crate::policy::{writes_for, Mode, WriteView};
use crate::record::{Batch, Row};
use crate::table::{distinct_positions, persisted, writes_result};
use crate::table_laws::plain_table_holds_every_record;
use vstd::prelude::*;

verus! {

/// What stands at the output location.
pub enum Location {
    /// No table.
    Nothing,
    /// The table, with these rows.
    Table(Seq<Row>),
}

/// The statements of a sequence of traced writes, in order.
pub open spec fn writes_of(traced: Seq<TracedWriteView>) -> Seq<WriteView> {
    traced.map_values(|t: TracedWriteView| t.write)
}

/// The location after the store did what one command asks for, or `None`
/// where it cannot: a table cannot be created where one stands, and nothing
/// can be prepared or written where none stands.
pub open spec fn location_after(location: Location, mode: Mode, command: PersistCommandView) -> Option<
    Location,
> {
    match command {
        PersistCommandView::Truncate => Some(Location::Nothing),
        PersistCommandView::CreateTable(_) => match location {
            Location::Nothing => Some(Location::Table(Seq::empty())),
            Location::Table(_) => None,
        },
        PersistCommandView::Prepare { .. } => match location {
            Location::Nothing => None,
            Location::Table(_) => Some(location),
        },
        PersistCommandView::Persist(traced) => match location {
            Location::Nothing => None,
            Location::Table(rows) => match writes_result(rows, mode, writes_of(traced)) {
                Some(next) => Some(Location::Table(next)),
                None => None,
            },
        },
        PersistCommandView::Abort(_) => None,
        _ => Some(location),
    }
}

/// The location after the store did what a sequence of commands asks for.
pub open spec fn location_after_all(
    location: Location,
    mode: Mode,
    commands: Seq<PersistCommandView>,
) -> Option<Location>
    decreases commands.len(),
{
    if commands.len() == 0 {
        Some(location)
    } else {
        match location_after_all(location, mode, commands.drop_last()) {
            Some(before) => location_after(before, mode, commands.last()),
            None => None,
        }
    }
}

/// The reports of a set-up in which every step succeeds.
pub open spec fn set_up_reports() -> Seq<PersistEvent> {
    seq![
        PersistEvent::Start,
        PersistEvent::Done,
        PersistEvent::Done,
        PersistEvent::Done,
        PersistEvent::Done,
        PersistEvent::Done,
    ]
}

/// The reports while these batches arrive and all their records are written.
pub open spec fn batch_reports(batches: Seq<Batch>) -> Seq<PersistEvent>
    decreases batches.len(),
{
    if batches.len() == 0 {
        Seq::empty()
    } else {
        batch_reports(batches.drop_last()) + seq![
            PersistEvent::Received(batches.last()),
            PersistEvent::Done,
        ]
    }
}

/// The reports of a run in which these batches arrive, the queue is closed
/// then, and every step succeeds.
pub open spec fn clean_reports(batches: Seq<Batch>) -> Seq<PersistEvent> {
    set_up_reports() + batch_reports(batches) + seq![PersistEvent::Closed, PersistEvent::Done]
}

/// The commands that answer `batch_reports`.
pub open spec fn batch_commands(topic: Seq<char>, mode: Mode, batches: Seq<Batch>) -> Seq<
    PersistCommandView,
>
    decreases batches.len(),
{
    if batches.len() == 0 {
        Seq::empty()
    } else {
        batch_commands(topic, mode, batches.drop_last()) + seq![
            PersistCommandView::Persist(traced_writes_for(topic, mode, batches.last()@)),
            PersistCommandView::Receive,
        ]
    }
}

/// The records of a sequence of batches, batch after batch.
pub open spec fn records_of(batches: Seq<Batch>) -> Seq<Row> {
    batches.map_values(|batch: Batch| batch@).flatten()
}

proof fn lemma_run_in_parts(
    topic: Seq<char>,
    mode: Mode,
    phase: PersistPhase,
    first: Seq<PersistEvent>,
    second: Seq<PersistEvent>,
)
    ensures
        persist_phase_from(topic, mode, phase, first + second) == persist_phase_from(
            topic,
            mode,
            persist_phase_from(topic, mode, phase, first),
            second,
        ),
        persist_commands_from(topic, mode, phase, first + second) == persist_commands_from(
            topic,
            mode,
            phase,
            first,
        ) + persist_commands_from(topic, mode, persist_phase_from(topic, mode, phase, first), second),
    decreases second.len(),
{
    if second.len() == 0 {
        assert(first + second == first);
    } else {
        lemma_run_in_parts(topic, mode, phase, first, second.drop_last());
        assert((first + second).drop_last() == first + second.drop_last());
        assert((first + second).last() == second.last());
    }
}

proof fn lemma_location_in_parts(
    location: Location,
    mode: Mode,
    first: Seq<PersistCommandView>,
    second: Seq<PersistCommandView>,
)
    ensures
        location_after_all(location, mode, first + second) == (match location_after_all(
            location,
            mode,
            first,
        ) {
            Some(between) => location_after_all(between, mode, second),
            None => None,
        }),
    decreases second.len(),
{
    if second.len() == 0 {
        assert(first + second == first);
    } else {
        lemma_location_in_parts(location, mode, first, second.drop_last());
        assert((first + second).drop_last() == first + second.drop_last());
        assert((first + second).last() == second.last());
    }
}

proof fn lemma_writes_in_parts(rows: Seq<Row>, mode: Mode, first: Seq<WriteView>, second: Seq<WriteView>)
    ensures
        writes_result(rows, mode, first + second) == (match writes_result(rows, mode, first) {
            Some(between) => writes_result(between, mode, second),
            None => None,
        }),
    decreases second.len(),
{
    if second.len() == 0 {
        assert(first + second == first);
    } else {
        lemma_writes_in_parts(rows, mode, first, second.drop_last());
        assert((first + second).drop_last() == first + second.drop_last());
        assert((first + second).last() == second.last());
    }
}

proof fn lemma_two_reports(
    topic: Seq<char>,
    mode: Mode,
    phase: PersistPhase,
    a: PersistEvent,
    b: PersistEvent,
)
    ensures
        ({
            let first = persist_step(topic, mode, phase, a);
            let second = persist_step(topic, mode, first.0, b);
            &&& persist_phase_from(topic, mode, phase, seq![a, b]) == second.0
            &&& persist_commands_from(topic, mode, phase, seq![a, b]) == seq![first.1, second.1]
        }),
{
    let none = Seq::<PersistEvent>::empty();
    let one = seq![a];
    let both = seq![a, b];
    assert(persist_phase_from(topic, mode, phase, none) == phase);
    assert(persist_commands_from(topic, mode, phase, none) == Seq::<PersistCommandView>::empty());
    assert(one.drop_last() == none);
    assert(one.last() == a);
    assert(persist_phase_from(topic, mode, phase, one) == persist_step(topic, mode, phase, a).0);
    assert(persist_commands_from(topic, mode, phase, one) == seq![
        persist_step(topic, mode, phase, a).1,
    ]);
    assert(both.drop_last() == one);
    assert(both.last() == b);
}

/// The location after two commands.
proof fn lemma_two_commands(location: Location, mode: Mode, a: PersistCommandView, b: PersistCommandView)
    ensures
        location_after_all(location, mode, seq![a, b]) == (match location_after(location, mode, a) {
            Some(between) => location_after(between, mode, b),
            None => None,
        }),
{
    let none = Seq::<PersistCommandView>::empty();
    let one = seq![a];
    let both = seq![a, b];
    assert(location_after_all(location, mode, none) == Some(location));
    assert(one.drop_last() == none);
    assert(one.last() == a);
    assert(location_after_all(location, mode, one) == location_after(location, mode, a));
    assert(both.drop_last() == one);
    assert(both.last() == b);
}

/// With every step done, the set-up is answered with its five commands and
/// the request for the first batch.
proof fn lemma_clean_set_up(topic: Seq<char>, mode: Mode)
    ensures
        persist_phase_after(topic, mode, set_up_reports()) == PersistPhase::Receiving,
        persist_commands(topic, mode, set_up_reports()) == set_up_commands(topic, mode).push(
            PersistCommandView::Receive,
        ),
{
    let two = seq![PersistEvent::Start, PersistEvent::Done];
    let more = seq![PersistEvent::Done, PersistEvent::Done];
    lemma_two_reports(topic, mode, PersistPhase::Ready, PersistEvent::Start, PersistEvent::Done);
    lemma_two_reports(topic, mode, PersistPhase::Opening, PersistEvent::Done, PersistEvent::Done);
    lemma_two_reports(topic, mode, PersistPhase::Beginning, PersistEvent::Done, PersistEvent::Done);
    lemma_run_in_parts(topic, mode, PersistPhase::Ready, two, more);
    lemma_run_in_parts(topic, mode, PersistPhase::Ready, two + more, more);
    assert(set_up_reports() == two + more + more);
}

/// With every step done, each batch is answered with its traced writes and the request for the next batch.
proof fn lemma_clean_batches(topic: Seq<char>, mode: Mode, batches: Seq<Batch>)
    ensures
        persist_phase_from(topic, mode, PersistPhase::Receiving, batch_reports(batches))
            == PersistPhase::Receiving,
        persist_commands_from(topic, mode, PersistPhase::Receiving, batch_reports(batches))
            == batch_commands(topic, mode, batches),
    decreases batches.len(),
{
    if batches.len() > 0 {
        lemma_clean_batches(topic, mode, batches.drop_last());
        lemma_two_reports(
            topic,
            mode,
            PersistPhase::Receiving,
            PersistEvent::Received(batches.last()),
            PersistEvent::Done,
        );
        lemma_run_in_parts(
            topic,
            mode,
            PersistPhase::Receiving,
            batch_reports(batches.drop_last()),
            seq![PersistEvent::Received(batches.last()), PersistEvent::Done],
        );
    }
}

/// The commands of a run in which every step succeeds: the set-up, then for
/// each batch its traced writes, then the commit.
pub proof fn clean_run_commands(topic: Seq<char>, mode: Mode, batches: Seq<Batch>)
    ensures
        persist_phase_after(topic, mode, clean_reports(batches)) == PersistPhase::Finished,
        persist_commands(topic, mode, clean_reports(batches)) == set_up_commands(topic, mode).push(
            PersistCommandView::Receive,
        ) + batch_commands(topic, mode, batches) + seq![
            PersistCommandView::Commit,
            PersistCommandView::Finish,
        ],
{
    lemma_clean_set_up(topic, mode);
    lemma_clean_batches(topic, mode, batches);
    lemma_two_reports(topic, mode, PersistPhase::Receiving, PersistEvent::Closed, PersistEvent::Done);
    lemma_run_in_parts(topic, mode, PersistPhase::Ready, set_up_reports(), batch_reports(batches));
    lemma_run_in_parts(
        topic,
        mode,
        PersistPhase::Ready,
        set_up_reports() + batch_reports(batches),
        seq![PersistEvent::Closed, PersistEvent::Done],
    );
}

/// Whatever stood at the location, after the set-up an empty table stands there.
pub proof fn set_up_leaves_an_empty_table(topic: Seq<char>, mode: Mode, prior: Location)
    ensures
        location_after_all(prior, mode, set_up_commands(topic, mode)) == Some(
            Location::Table(Seq::empty()),
        ),
{
    let commands = set_up_commands(topic, mode);
    assert(commands.drop_last() == commands.take(4));
    assert(commands.take(4).drop_last() == commands.take(3));
    assert(commands.take(3).drop_last() == commands.take(2));
    assert(commands.take(2).drop_last() == commands.take(1));
    assert(commands.take(1).drop_last() == commands.take(0));
    assert(location_after_all(prior, mode, commands.take(0)) == Some(prior));
    assert(location_after_all(prior, mode, commands.take(1)) == Some(Location::Nothing));
    assert(location_after_all(prior, mode, commands.take(2)) == Some(Location::Nothing));
    assert(location_after_all(prior, mode, commands.take(3)) == Some(
        Location::Table(Seq::empty()),
    ));
    assert(location_after_all(prior, mode, commands.take(4)) == Some(
        Location::Table(Seq::empty()),
    ));
}

/// The statements of the traced writes of a batch are the statements of its records.
proof fn lemma_writes_of_traced(topic: Seq<char>, mode: Mode, rows: Seq<Row>)
    ensures
        writes_of(traced_writes_for(topic, mode, rows)) == writes_for(mode, rows),
{
}

/// The table after the commands of these batches, from a table with `rows`.
proof fn lemma_location_after_batches(topic: Seq<char>, mode: Mode, rows: Seq<Row>, batches: Seq<Batch>)
    ensures
        location_after_all(Location::Table(rows), mode, batch_commands(topic, mode, batches)) == (
        match writes_result(rows, mode, writes_for(mode, records_of(batches))) {
            Some(next) => Some(Location::Table(next)),
            None => None,
        }),
    decreases batches.len(),
{
    let views = batches.map_values(|batch: Batch| batch@);
    if batches.len() == 0 {
        assert(records_of(batches) == Seq::<Row>::empty());
        assert(writes_for(mode, records_of(batches)) == Seq::<WriteView>::empty());
    } else {
        let front = batches.drop_last();
        let last = batches.last();
        lemma_location_after_batches(topic, mode, rows, front);
        let tail = seq![
            PersistCommandView::Persist(traced_writes_for(topic, mode, last@)),
            PersistCommandView::Receive,
        ];
        lemma_location_in_parts(Location::Table(rows), mode, batch_commands(topic, mode, front), tail);
        assert forall|between: Location| true implies #[trigger] location_after_all(between, mode, tail) == (
        match location_after(between, mode, tail[0]) {
            Some(next) => location_after(next, mode, tail[1]),
            None => None,
        }) by {
            lemma_two_commands(between, mode, tail[0], tail[1]);
        }
        lemma_writes_of_traced(topic, mode, last@);
        assert(views == front.map_values(|batch: Batch| batch@).push(last@));
        front.map_values(|batch: Batch| batch@).lemma_flatten_push(last@);
        assert(records_of(batches) == records_of(front) + last@);
        assert(writes_for(mode, records_of(batches)) == writes_for(mode, records_of(front)) + writes_for(
            mode,
            last@,
        ));
        lemma_writes_in_parts(rows, mode, writes_for(mode, records_of(front)), writes_for(mode, last@));
    }
}

/// A run in which every step succeeds leaves the table of its own records at
/// the output location, whatever stood there before: what an earlier run
/// left is gone, and nothing is added to it. The table is the one that the
/// module `table` describes for the records of all batches in the order of
/// their arrival; for a run without batches it is the empty table. Where the
/// store refuses one of the writes, the reports cannot all have been of
/// success, and nothing is said.
pub proof fn clean_run_leaves_only_its_records(
    topic: Seq<char>,
    mode: Mode,
    prior: Location,
    batches: Seq<Batch>,
)
    ensures
        persist_phase_after(topic, mode, clean_reports(batches)) == PersistPhase::Finished,
        location_after_all(prior, mode, persist_commands(topic, mode, clean_reports(batches))) == (
        match persisted(mode, records_of(batches)) {
            Some(rows) => Some(Location::Table(rows)),
            None => None,
        }),
        batches.len() == 0 ==> persisted(mode, records_of(batches)) == Some(Seq::<Row>::empty()),
{
    clean_run_commands(topic, mode, batches);
    set_up_leaves_an_empty_table(topic, mode, prior);
    let set_up = set_up_commands(topic, mode);
    let ready = set_up.push(PersistCommandView::Receive);
    let middle = batch_commands(topic, mode, batches);
    let end = seq![PersistCommandView::Commit, PersistCommandView::Finish];
    assert(ready.drop_last() == set_up);
    assert(location_after_all(prior, mode, ready) == Some(Location::Table(Seq::empty())));
    lemma_location_in_parts(prior, mode, ready, middle);
    lemma_location_after_batches(topic, mode, Seq::empty(), batches);
    lemma_location_in_parts(prior, mode, ready + middle, end);
    assert forall|between: Location| true implies #[trigger] location_after_all(between, mode, end) == Some(
        between,
    ) by {
        lemma_two_commands(between, mode, end[0], end[1]);
    }
    if batches.len() == 0 {
        assert(records_of(batches) == Seq::<Row>::empty());
        assert(writes_for(mode, records_of(batches)) == Seq::<WriteView>::empty());
    }
}

/// Two runs at one location, one after the other, every step of both done:
/// the location holds the table of the second run's records alone. Nothing
/// of the first run is left, whatever its topic and mode were.
pub proof fn second_run_leaves_only_its_records(
    prior: Location,
    first_topic: Seq<char>,
    first_mode: Mode,
    first: Seq<Batch>,
    topic: Seq<char>,
    mode: Mode,
    second: Seq<Batch>,
)
    ensures
        ({
            let between = location_after_all(
                prior,
                first_mode,
                persist_commands(first_topic, first_mode, clean_reports(first)),
            );
            between is Some ==> location_after_all(
                between->0,
                mode,
                persist_commands(topic, mode, clean_reports(second)),
            ) == (match persisted(mode, records_of(second)) {
                Some(rows) => Some(Location::Table(rows)),
                None => None,
            })
        }),
{
    let between = location_after_all(
        prior,
        first_mode,
        persist_commands(first_topic, first_mode, clean_reports(first)),
    );
    if between is Some {
        clean_run_leaves_only_its_records(topic, mode, between->0, second);
    }
}

/// A run in plain mode in which every step is done leaves a table that holds
/// the records of all its batches, each once and as it was, in the order of
/// arrival, provided that no two of them stand at the same position of the
/// topic.
pub proof fn plain_run_stores_every_record(topic: Seq<char>, prior: Location, batches: Seq<Batch>)
    requires
        distinct_positions(records_of(batches)),
    ensures
        location_after_all(
            prior,
            Mode::Plain,
            persist_commands(topic, Mode::Plain, clean_reports(batches)),
        ) == Some(Location::Table(records_of(batches))),
{
    clean_run_leaves_only_its_records(topic, Mode::Plain, prior, batches);
    plain_table_holds_every_record(batches.map_values(|batch: Batch| batch@));
}

} // verus!
