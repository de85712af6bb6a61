//! The coordinator's part: the queue between the two stages, and what a run
//! amounts to when both stages have ended.

use crate::fetcher::FetchError;
use crate::persister::PersistError;
use crate::queue::{BoundedQueue, QueueView};
use vstd::prelude::*;

verus! {

/// The number of batches that wait between the two stages at most.
pub const QUEUE_CAPACITY: usize = 10;

/// The queue of a run: open, empty, and with room for `QUEUE_CAPACITY` batches.
pub fn new_queue() -> (queue: BoundedQueue)
    ensures
        queue@ == (QueueView { capacity: 10, items: Seq::empty(), closed: false }),
{
    BoundedQueue::new(QUEUE_CAPACITY)
}

/// How a run ended.
#[derive(Clone, Copy, Debug, PartialEq, Eq, Structural)]
pub enum RunOutcome {
    /// Both stages completed: the table holds the topic.
    Completed,
    /// The table is committed, but the fetcher had failed: the table holds
    /// what was handed over before.
    Incomplete(FetchError),
    /// The persister failed: nothing is committed. The fetcher's failure, if
    /// it had one, is kept beside it.
    Failed { persister: PersistError, fetcher: Option<FetchError> },
}

impl RunOutcome {
    /// A run succeeds if and only if the persister completed.
    pub open spec fn spec_succeeded(self) -> bool {
        !(self is Failed)
    }

    #[verifier::when_used_as_spec(spec_succeeded)]
    pub fn succeeded(self) -> (ok: bool)
        ensures
            ok == self.spec_succeeded(),
    {
        match self {
            RunOutcome::Failed { .. } => false,
            _ => true,
        }
    }

    /// The failure of the fetcher, whatever the persister did.
    pub open spec fn spec_fetcher_failure(self) -> Option<FetchError> {
        match self {
            RunOutcome::Completed => None,
            RunOutcome::Incomplete(error) => Some(error),
            RunOutcome::Failed { fetcher, .. } => fetcher,
        }
    }

    #[verifier::when_used_as_spec(spec_fetcher_failure)]
    pub fn fetcher_failure(self) -> (failure: Option<FetchError>)
        ensures
            failure == self.spec_fetcher_failure(),
    {
        match self {
            RunOutcome::Completed => None,
            RunOutcome::Incomplete(error) => Some(error),
            RunOutcome::Failed { fetcher, .. } => fetcher,
        }
    }
}

/// What a run amounts to, from how its two stages ended. The run succeeds
/// if and only if the persister completed, and a failure of the fetcher is
/// never dropped.
pub fn run_outcome(fetcher: Result<(), FetchError>, persister: Result<(), PersistError>) -> (outcome:
    RunOutcome)
    ensures
        outcome == (match (persister, fetcher) {
            (Ok(_), Ok(_)) => RunOutcome::Completed,
            (Ok(_), Err(error)) => RunOutcome::Incomplete(error),
            (Err(error), Ok(_)) => RunOutcome::Failed { persister: error, fetcher: None },
            (Err(error), Err(other)) => RunOutcome::Failed { persister: error, fetcher: Some(other) },
        }),
        outcome.succeeded() <==> persister is Ok,
        outcome.fetcher_failure() is Some <==> fetcher is Err,
{
    match persister {
        Ok(_) => match fetcher {
            Ok(_) => RunOutcome::Completed,
            Err(error) => RunOutcome::Incomplete(error),
        },
        Err(error) => match fetcher {
            Ok(_) => RunOutcome::Failed { persister: error, fetcher: None },
            Err(other) => RunOutcome::Failed { persister: error, fetcher: Some(other) },
        },
    }
}

} // verus!
