//! The decisions of the stage that fetches: when to poll, when to hand a
//! batch over, what to commit and when, and when to stop. The caller talks to
//! the source and to the queue, and reports what happened.

use crate::marks::{consumed_marks, marks_by_content, marks_of, Mark, MarkView};
use crate::record::Batch;
use vstd::prelude::*;

verus! {

/// Where the fetcher stands.
#[derive(Clone, Copy, Debug, PartialEq, Eq, Structural)]
pub enum FetchPhase {
    /// Nothing was done yet.
    Ready,
    /// The connection to the source is being made.
    Connecting,
    /// A poll is under way.
    Polling,
    /// A batch is being handed to the queue.
    Sending,
    /// The marks of the batch that was handed over are being committed.
    Committing,
    /// The topic was exhausted; the fetcher is done.
    Finished,
    /// The fetcher gave up.
    Failed,
}

/// Why the fetcher gave up.
#[derive(Clone, Copy, Debug, PartialEq, Eq, Structural)]
pub enum FetchError {
    /// The source could not be reached.
    ConnectFailed,
    /// A poll failed.
    PollFailed,
    /// The queue did not take the batch: nobody receives any more.
    HandOffFailed,
    /// The source refused the commit.
    CommitFailed,
    /// The caller reported something that the fetcher had not asked for.
    OutOfTurn,
}

/// What the caller reports.
#[derive(Debug, PartialEq, Eq)]
pub enum FetchEvent {
    /// The stage starts.
    Start,
    /// The connection stands.
    Connected,
    /// A poll returned this batch.
    Polled(Batch),
    /// The queue took the batch.
    Sent,
    /// The source took the commit.
    Committed,
    /// What the fetcher asked for last could not be done.
    Failed,
}

/// What the fetcher asks the caller to do next.
#[derive(Debug, PartialEq, Eq)]
pub enum FetchCommand {
    /// Connect to the source.
    Connect,
    /// Poll the source for the next batch.
    Poll,
    /// Hand this batch to the queue, and wait until it is taken.
    Send(Batch),
    /// Commit these marks: they consume the batch that was handed over.
    Commit(Vec<Mark>),
    /// Close the queue and stop: the topic is exhausted.
    Close,
    /// Close the queue and stop with a failure.
    Abort(FetchError),
}

/// The content of a [`FetchCommand`].
pub enum FetchCommandView {
    Connect,
    Poll,
    Send(Batch),
    Commit(Seq<MarkView>),
    Close,
    Abort(FetchError),
}

impl View for FetchCommand {
    type V = FetchCommandView;

    open spec fn view(&self) -> FetchCommandView {
        match self {
            FetchCommand::Connect => FetchCommandView::Connect,
            FetchCommand::Poll => FetchCommandView::Poll,
            FetchCommand::Send(batch) => FetchCommandView::Send(*batch),
            FetchCommand::Commit(marks) => FetchCommandView::Commit(marks_by_content(marks@)),
            FetchCommand::Close => FetchCommandView::Close,
            FetchCommand::Abort(error) => FetchCommandView::Abort(*error),
        }
    }
}

/// The content of a [`Fetcher`].
pub struct FetcherView {
    pub phase: FetchPhase,
    pub marks: Seq<MarkView>,
}

/// The state of the stage that fetches.
#[derive(Debug, PartialEq, Eq)]
pub struct Fetcher {
    pub phase: FetchPhase,
    /// While a batch is being handed over: the marks that consume it.
    pub marks: Vec<Mark>,
}

impl View for Fetcher {
    type V = FetcherView;

    open spec fn view(&self) -> FetcherView {
        FetcherView { phase: self.phase, marks: marks_by_content(self.marks@) }
    }
}

/// A fetcher in this phase that holds no marks.
pub open spec fn fetcher_in(phase: FetchPhase) -> FetcherView {
    FetcherView { phase, marks: Seq::empty() }
}

impl Fetcher {
    /// A fetcher that has done nothing yet.
    pub fn new() -> (fetcher: Fetcher)
        ensures
            fetcher@ == fetcher_in(FetchPhase::Ready),
    {
        Fetcher::within(FetchPhase::Ready)
    }

    fn within(phase: FetchPhase) -> (fetcher: Fetcher)
        ensures
            fetcher@ == fetcher_in(phase),
    {
        let fetcher = Fetcher { phase, marks: Vec::new() };
        assert(marks_by_content(fetcher.marks@) == Seq::<MarkView>::empty());
        fetcher
    }
}

/// The failure that ends the fetcher when the caller reports `Failed`, or
/// anything that does not answer the last command.
pub open spec fn fetch_failure(phase: FetchPhase, event: FetchEvent) -> FetchError {
    if event is Failed {
        match phase {
            FetchPhase::Connecting => FetchError::ConnectFailed,
            FetchPhase::Polling => FetchError::PollFailed,
            FetchPhase::Sending => FetchError::HandOffFailed,
            FetchPhase::Committing => FetchError::CommitFailed,
            _ => FetchError::OutOfTurn,
        }
    } else {
        FetchError::OutOfTurn
    }
}

/// The fetcher's rule: connect, then poll; an empty batch ends the stream; any
/// other batch is handed over as it is, and only when the queue has taken it
/// are the marks that consume it committed; then poll again. A failure of any
/// step is final.
pub open spec fn fetch_step(fetcher: FetcherView, event: FetchEvent) -> (FetcherView, FetchCommandView) {
    match (fetcher.phase, event) {
        (FetchPhase::Ready, FetchEvent::Start) => (
            fetcher_in(FetchPhase::Connecting),
            FetchCommandView::Connect,
        ),
        (FetchPhase::Connecting, FetchEvent::Connected) => (
            fetcher_in(FetchPhase::Polling),
            FetchCommandView::Poll,
        ),
        (FetchPhase::Polling, FetchEvent::Polled(batch)) => if batch@.len() == 0 {
            (fetcher_in(FetchPhase::Finished), FetchCommandView::Close)
        } else {
            (
                FetcherView { phase: FetchPhase::Sending, marks: marks_of(batch@) },
                FetchCommandView::Send(batch),
            )
        },
        (FetchPhase::Sending, FetchEvent::Sent) => (
            fetcher_in(FetchPhase::Committing),
            FetchCommandView::Commit(fetcher.marks),
        ),
        (FetchPhase::Committing, FetchEvent::Committed) => (
            fetcher_in(FetchPhase::Polling),
            FetchCommandView::Poll,
        ),
        _ => (
            fetcher_in(FetchPhase::Failed),
            FetchCommandView::Abort(fetch_failure(fetcher.phase, event)),
        ),
    }
}

/// Applies the fetcher's rule to one report of the caller.
pub fn fetcher_step(fetcher: Fetcher, event: FetchEvent) -> (next: (Fetcher, FetchCommand))
    ensures
        next.0@ == fetch_step(fetcher@, event).0,
        next.1@ == fetch_step(fetcher@, event).1,
{
    match (fetcher.phase, event) {
        (FetchPhase::Ready, FetchEvent::Start) => (
            Fetcher::within(FetchPhase::Connecting),
            FetchCommand::Connect,
        ),
        (FetchPhase::Connecting, FetchEvent::Connected) => (
            Fetcher::within(FetchPhase::Polling),
            FetchCommand::Poll,
        ),
        (FetchPhase::Polling, FetchEvent::Polled(batch)) => {
            if batch.is_empty() {
                (Fetcher::within(FetchPhase::Finished), FetchCommand::Close)
            } else {
                let marks = consumed_marks(&batch);
                (Fetcher { phase: FetchPhase::Sending, marks }, FetchCommand::Send(batch))
            }
        },
        (FetchPhase::Sending, FetchEvent::Sent) => (
            Fetcher::within(FetchPhase::Committing),
            FetchCommand::Commit(fetcher.marks),
        ),
        (FetchPhase::Committing, FetchEvent::Committed) => (
            Fetcher::within(FetchPhase::Polling),
            FetchCommand::Poll,
        ),
        (FetchPhase::Connecting, FetchEvent::Failed) => (
            Fetcher::within(FetchPhase::Failed),
            FetchCommand::Abort(FetchError::ConnectFailed),
        ),
        (FetchPhase::Polling, FetchEvent::Failed) => (
            Fetcher::within(FetchPhase::Failed),
            FetchCommand::Abort(FetchError::PollFailed),
        ),
        (FetchPhase::Sending, FetchEvent::Failed) => (
            Fetcher::within(FetchPhase::Failed),
            FetchCommand::Abort(FetchError::HandOffFailed),
        ),
        (FetchPhase::Committing, FetchEvent::Failed) => (
            Fetcher::within(FetchPhase::Failed),
            FetchCommand::Abort(FetchError::CommitFailed),
        ),
        _ => (Fetcher::within(FetchPhase::Failed), FetchCommand::Abort(FetchError::OutOfTurn)),
    }
}

/// The fetcher after the caller made these reports, one after the other, from the start.
pub open spec fn fetcher_after(events: Seq<FetchEvent>) -> FetcherView
    decreases events.len(),
{
    if events.len() == 0 {
        fetcher_in(FetchPhase::Ready)
    } else {
        fetch_step(fetcher_after(events.drop_last()), events.last()).0
    }
}

/// The command that answers report `i` of a run.
pub open spec fn fetch_command_at(events: Seq<FetchEvent>, i: int) -> FetchCommandView
    recommends
        0 <= i < events.len(),
{
    fetch_step(fetcher_after(events.take(i)), events[i]).1
}

/// Every batch goes on as it came: a batch is handed over only in answer to
/// the poll that returned it, and it is never empty.
pub proof fn hand_off_follows_poll(events: Seq<FetchEvent>, i: int)
    requires
        0 <= i < events.len(),
        fetch_command_at(events, i) is Send,
    ensures
        events[i] is Polled,
        fetch_command_at(events, i) == FetchCommandView::Send(events[i]->Polled_0),
        events[i]->Polled_0@.len() > 0,
{
}

/// A commit is asked for only in answer to the report that the queue took a
/// batch; that batch is the one that the poll before had returned, and the
/// commit consumes it and nothing else. So no offset is committed before its
/// record was handed over.
pub proof fn commit_follows_hand_off(events: Seq<FetchEvent>, i: int)
    requires
        0 <= i < events.len(),
        fetch_command_at(events, i) is Commit,
    ensures
        events[i] is Sent,
        i >= 1,
        events[i - 1] is Polled,
        events[i - 1]->Polled_0@.len() > 0,
        fetch_command_at(events, i - 1) == FetchCommandView::Send(events[i - 1]->Polled_0),
        fetch_command_at(events, i) == FetchCommandView::Commit(marks_of(events[i - 1]->Polled_0@)),
{
    let before = events.take(i);
    assert(fetcher_after(before).phase == FetchPhase::Sending);
    assert(before.len() > 0);
    assert(before.drop_last() == events.take(i - 1));
    assert(before.last() == events[i - 1]);
}

/// The fetcher ends the stream only in answer to a poll that returned no record.
pub proof fn close_follows_empty_poll(events: Seq<FetchEvent>, i: int)
    requires
        0 <= i < events.len(),
        fetch_command_at(events, i) is Close,
    ensures
        events[i] is Polled,
        events[i]->Polled_0@.len() == 0,
        fetcher_after(events.take(i)).phase == FetchPhase::Polling,
{
}

/// Once the fetcher has finished or failed, it asks for nothing but to stop.
pub proof fn fetcher_stays_stopped(events: Seq<FetchEvent>, i: int, j: int)
    requires
        0 <= i < j < events.len(),
        fetch_command_at(events, i) is Close || fetch_command_at(events, i) is Abort,
    ensures
        fetch_command_at(events, j) is Abort,
    decreases j - i,
{
    assert(events.take(i + 1).drop_last() == events.take(i));
    assert(events.take(i + 1).last() == events[i]);
    let stopped = fetcher_after(events.take(i + 1)).phase;
    assert(stopped == FetchPhase::Finished || stopped == FetchPhase::Failed);
    if i + 1 < j {
        assert(fetch_command_at(events, i + 1) is Abort);
        fetcher_stays_stopped(events, i + 1, j);
    }
}

} // verus!
