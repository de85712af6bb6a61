//! What holds of every run of the persister, whatever the caller reports.

use crate::persister::{
    persist_step, traced_writes_for, PersistCommandView, PersistEvent, PersistPhase,
};
use crate::policy::Mode;
use crate::schema::{create_table_text, delete_text, insert_text, sanitized};
use vstd::prelude::*;

verus! {

/// The phase after the caller made these reports, one after the other, to a
/// persister that stood in `phase`.
pub open spec fn persist_phase_from(
    topic: Seq<char>,
    mode: Mode,
    phase: PersistPhase,
    events: Seq<PersistEvent>,
) -> PersistPhase
    decreases events.len(),
{
    if events.len() == 0 {
        phase
    } else {
        persist_step(
            topic,
            mode,
            persist_phase_from(topic, mode, phase, events.drop_last()),
            events.last(),
        ).0
    }
}

/// The commands that answer these reports, one for each report.
pub open spec fn persist_commands_from(
    topic: Seq<char>,
    mode: Mode,
    phase: PersistPhase,
    events: Seq<PersistEvent>,
) -> Seq<PersistCommandView>
    decreases events.len(),
{
    if events.len() == 0 {
        Seq::empty()
    } else {
        persist_commands_from(topic, mode, phase, events.drop_last()).push(
            persist_step(
                topic,
                mode,
                persist_phase_from(topic, mode, phase, events.drop_last()),
                events.last(),
            ).1,
        )
    }
}

/// The commands of a run from its start.
pub open spec fn persist_commands(topic: Seq<char>, mode: Mode, events: Seq<PersistEvent>) -> Seq<
    PersistCommandView,
> {
    persist_commands_from(topic, mode, PersistPhase::Ready, events)
}

/// The phase of a run after these reports from its start.
pub open spec fn persist_phase_after(topic: Seq<char>, mode: Mode, events: Seq<PersistEvent>) -> PersistPhase {
    persist_phase_from(topic, mode, PersistPhase::Ready, events)
}

/// The commands of the set-up, in their order.
pub open spec fn set_up_commands(topic: Seq<char>, mode: Mode) -> Seq<PersistCommandView> {
    seq![
        PersistCommandView::Truncate,
        PersistCommandView::Open,
        PersistCommandView::CreateTable(create_table_text(sanitized(topic), mode)),
        PersistCommandView::Begin,
        PersistCommandView::Prepare {
            insert: insert_text(sanitized(topic)),
            delete: delete_text(sanitized(topic)),
        },
    ]
}

/// Whether the set-up lies behind a persister in this phase.
pub open spec fn is_set_up(phase: PersistPhase) -> bool {
    ||| phase == PersistPhase::Receiving
    ||| phase == PersistPhase::Writing
    ||| phase == PersistPhase::Committing
    ||| phase == PersistPhase::Finished
}

/// There is one command for each report, and the commands of the first
/// reports of a run do not depend on the reports that follow.
proof fn lemma_commands_of_prefix(
    topic: Seq<char>,
    mode: Mode,
    phase: PersistPhase,
    events: Seq<PersistEvent>,
    n: int,
)
    requires
        0 <= n <= events.len(),
    ensures
        persist_commands_from(topic, mode, phase, events).len() == events.len(),
        persist_commands_from(topic, mode, phase, events.take(n)) == persist_commands_from(
            topic,
            mode,
            phase,
            events,
        ).take(n),
    decreases events.len(),
{
    if events.len() > 0 {
        let front = events.drop_last();
        if n == events.len() {
            lemma_commands_of_prefix(topic, mode, phase, front, front.len() as int);
            assert(events.take(n) == events);
            assert(persist_commands_from(topic, mode, phase, events).take(n) == persist_commands_from(
                topic,
                mode,
                phase,
                events,
            ));
        } else {
            lemma_commands_of_prefix(topic, mode, phase, front, n);
            assert(front.take(n) == events.take(n));
            assert(persist_commands_from(topic, mode, phase, events).take(n) == persist_commands_from(
                topic,
                mode,
                phase,
                front,
            ).take(n));
        }
    } else {
        assert(events.take(n) == events);
        assert(persist_commands_from(topic, mode, phase, events).take(n) == Seq::<
            PersistCommandView,
        >::empty());
    }
}

/// The command that answers report `i` is what the rule gives for the phase
/// that the reports before `i` led to.
proof fn lemma_command_at(topic: Seq<char>, mode: Mode, events: Seq<PersistEvent>, i: int)
    requires
        0 <= i < events.len(),
    ensures
        persist_commands(topic, mode, events).len() == events.len(),
        persist_commands(topic, mode, events)[i] == persist_step(
            topic,
            mode,
            persist_phase_after(topic, mode, events.take(i)),
            events[i],
        ).1,
        persist_phase_after(topic, mode, events.take(i + 1)) == persist_step(
            topic,
            mode,
            persist_phase_after(topic, mode, events.take(i)),
            events[i],
        ).0,
{
    let until = events.take(i + 1);
    lemma_commands_of_prefix(topic, mode, PersistPhase::Ready, events, i + 1);
    lemma_commands_of_prefix(topic, mode, PersistPhase::Ready, events.take(i), i);
    assert(until.drop_last() == events.take(i));
    assert(until.last() == events[i]);
    assert(persist_commands(topic, mode, until)[i] == persist_commands(topic, mode, events)[i]);
}

/// The phase tells how far the set-up has come: each of its commands was
/// given once, in order, before the persister reached the phase.
proof fn lemma_history(topic: Seq<char>, mode: Mode, events: Seq<PersistEvent>)
    ensures
        persist_commands(topic, mode, events).len() == events.len(),
        ({
            let phase = persist_phase_after(topic, mode, events);
            let commands = persist_commands(topic, mode, events);
            let set_up = set_up_commands(topic, mode);
            &&& phase == PersistPhase::Ready ==> events.len() == 0
            &&& phase == PersistPhase::Truncating ==> commands == set_up.take(1)
            &&& phase == PersistPhase::Opening ==> commands == set_up.take(2)
            &&& phase == PersistPhase::Creating ==> commands == set_up.take(3)
            &&& phase == PersistPhase::Beginning ==> commands == set_up.take(4)
            &&& phase == PersistPhase::Preparing ==> commands == set_up
            &&& is_set_up(phase) ==> events.len() > 5 && commands.take(5) == set_up
        }),
    decreases events.len(),
{
    lemma_commands_of_prefix(topic, mode, PersistPhase::Ready, events, 0);
    if events.len() > 0 {
        let front = events.drop_last();
        lemma_history(topic, mode, front);
        let before = persist_phase_after(topic, mode, front);
        let phase = persist_phase_after(topic, mode, events);
        let commands = persist_commands(topic, mode, events);
        let earlier = persist_commands(topic, mode, front);
        let set_up = set_up_commands(topic, mode);
        assert(commands == earlier.push(persist_step(topic, mode, before, events.last()).1));
        if phase == PersistPhase::Truncating {
            assert(before == PersistPhase::Ready);
            assert(commands == set_up.take(1));
        } else if phase == PersistPhase::Opening {
            assert(before == PersistPhase::Truncating);
            assert(commands == set_up.take(2));
        } else if phase == PersistPhase::Creating {
            assert(before == PersistPhase::Opening);
            assert(commands == set_up.take(3));
        } else if phase == PersistPhase::Beginning {
            assert(before == PersistPhase::Creating);
            assert(commands == set_up.take(4));
        } else if phase == PersistPhase::Preparing {
            assert(before == PersistPhase::Beginning);
            assert(commands == set_up);
        } else if is_set_up(phase) {
            if before == PersistPhase::Preparing {
                assert(commands.take(5) == earlier);
            } else {
                assert(is_set_up(before));
                assert(commands.take(5) == earlier.take(5));
            }
        }
    }
}

/// The set-up is done once and before any batch is asked for: wherever the
/// persister asks for a batch, has records written or commits, the five
/// commands of the set-up are the first five of the run, in their order; and
/// none of them is given a second time.
pub proof fn set_up_comes_first_and_once(
    topic: Seq<char>,
    mode: Mode,
    events: Seq<PersistEvent>,
    i: int,
)
    requires
        0 <= i < events.len(),
    ensures
        persist_commands(topic, mode, events).len() == events.len(),
        ({
            let command = persist_commands(topic, mode, events)[i];
            ||| command is Receive
            ||| command is Persist
            ||| command is Commit
            ||| command is Finish
        }) ==> i >= 5 && persist_commands(topic, mode, events).take(5) == set_up_commands(topic, mode),
        persist_commands(topic, mode, events)[i] is Truncate ==> i == 0,
        persist_commands(topic, mode, events)[i] is Open ==> i == 1,
        persist_commands(topic, mode, events)[i] is CreateTable ==> i == 2,
        persist_commands(topic, mode, events)[i] is Begin ==> i == 3,
        persist_commands(topic, mode, events)[i] is Prepare ==> i == 4,
{
    let commands = persist_commands(topic, mode, events);
    let until = events.take(i + 1);
    lemma_command_at(topic, mode, events, i);
    lemma_commands_of_prefix(topic, mode, PersistPhase::Ready, events, i + 1);
    lemma_history(topic, mode, until);
    lemma_history(topic, mode, events.take(i));
    let command = commands[i];
    if command is Receive || command is Persist || command is Commit || command is Finish {
        assert(is_set_up(persist_phase_after(topic, mode, until)));
        assert(persist_commands(topic, mode, until).take(5) == commands.take(5));
    }
}

/// The run is committed only when the queue is closed and empty, and in
/// answer to nothing else.
pub proof fn commit_follows_close(topic: Seq<char>, mode: Mode, events: Seq<PersistEvent>, i: int)
    requires
        0 <= i < events.len(),
        persist_commands(topic, mode, events)[i] is Commit,
    ensures
        events[i] is Closed,
        persist_phase_after(topic, mode, events.take(i)) == PersistPhase::Receiving,
{
    lemma_command_at(topic, mode, events, i);
}

/// No record is passed over: every batch that the persister receives is
/// answered with one traced write for each of its records, in the order of the batch,
/// and records are written in answer to nothing else.
pub proof fn every_record_is_traced_and_written(
    topic: Seq<char>,
    mode: Mode,
    events: Seq<PersistEvent>,
    i: int,
)
    requires
        0 <= i < events.len(),
    ensures
        persist_commands(topic, mode, events).len() == events.len(),
        events[i] is Received && persist_phase_after(topic, mode, events.take(i))
            == PersistPhase::Receiving ==> persist_commands(topic, mode, events)[i]
            == PersistCommandView::Persist(traced_writes_for(topic, mode, events[i]->Received_0@)),
        persist_commands(topic, mode, events)[i] is Persist ==> events[i] is Received
            && persist_commands(topic, mode, events)[i] == PersistCommandView::Persist(
            traced_writes_for(topic, mode, events[i]->Received_0@),
        ),
{
    lemma_command_at(topic, mode, events, i);
}

/// Once the persister has finished or failed, it asks for nothing but to stop.
pub proof fn persister_stays_stopped(
    topic: Seq<char>,
    mode: Mode,
    events: Seq<PersistEvent>,
    i: int,
    j: int,
)
    requires
        0 <= i < j < events.len(),
        persist_commands(topic, mode, events)[i] is Finish || persist_commands(topic, mode, events)[i] is Abort,
    ensures
        persist_commands(topic, mode, events)[j] is Abort,
    decreases j - i,
{
    lemma_command_at(topic, mode, events, i);
    lemma_command_at(topic, mode, events, i + 1);
    if i + 1 < j {
        persister_stays_stopped(topic, mode, events, i + 1, j);
    }
}

/// All writes of a run stand inside its one transaction: once the commit is
/// asked for, the persister asks for nothing more than to stop.
pub proof fn nothing_is_written_after_the_commit(
    topic: Seq<char>,
    mode: Mode,
    events: Seq<PersistEvent>,
    i: int,
    j: int,
)
    requires
        0 <= i < j < events.len(),
        persist_commands(topic, mode, events)[i] is Commit,
    ensures
        i >= 5,
        persist_commands(topic, mode, events)[3] is Begin,
        persist_commands(topic, mode, events)[j] is Finish || persist_commands(topic, mode, events)[j] is Abort,
        persist_commands(topic, mode, events)[j] is Finish ==> j == i + 1,
{
    set_up_comes_first_and_once(topic, mode, events, i);
    assert(persist_commands(topic, mode, events).take(5)[3] == set_up_commands(topic, mode)[3]);
    lemma_command_at(topic, mode, events, i);
    lemma_command_at(topic, mode, events, i + 1);
    if i + 1 < j {
        persister_stays_stopped(topic, mode, events, i + 1, j);
    }
}

} // verus!
