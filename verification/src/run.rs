//! The course of one run: look at the cache, scan if need be, merge, renew
//! the cache, print.
//!
//! The steps that touch the outside are the caller's. After each of them
//! the caller reports what happened and is told what to do next.

use crate::errors::InventoryError;
use vstd::prelude::*;

verus! {

/// Where a run stands.
#[derive(Clone, Copy, Debug, PartialEq, Eq, Structural)]
pub enum RunState {
    Idle,
    CacheCheck,
    Fetching,
    Merging,
    Writing,
    Done,
}

/// What the caller reports.
#[derive(Clone, Copy, Debug, PartialEq, Eq, Structural)]
pub enum RunEvent {
    /// The run begins.
    Started,
    /// The cache was looked at. `forced` says that the cache is to be served
    /// whatever its age.
    CacheOpened { forced: bool, fresh: bool, has_data: bool },
    /// Every account and region has answered or failed. `by_host` says that
    /// hosts are listed one by one, not by group.
    Fetched { by_host: bool },
    /// The records were folded into the inventory.
    Merged,
    /// The cache file was written, or could not be: a cache that cannot be
    /// renewed does not stop the run.
    Written,
}

/// What the caller is to do next.
#[derive(Clone, Copy, Debug, PartialEq, Eq, Structural)]
pub enum RunAction {
    /// Look at the cache file.
    OpenCache,
    /// Print what the cache holds; the run is over.
    PrintCache,
    /// Ask every account and region.
    Fetch,
    /// Print the list of hosts; the run is over.
    PrintHosts,
    /// Fold the records into the inventory.
    Merge,
    /// Write the inventory to the cache file.
    WriteCache,
    /// Print the inventory; the run is over.
    PrintInventory,
    /// Give up with this error; the run is over.
    Fail(InventoryError),
    /// The report does not fit the state: do nothing.
    Ignore,
}

/// How far a run has come.
pub open spec fn rank(state: RunState) -> int {
    match state {
        RunState::Idle => 0,
        RunState::CacheCheck => 1,
        RunState::Fetching => 2,
        RunState::Merging => 3,
        RunState::Writing => 4,
        RunState::Done => 5,
    }
}

/// Whether `action` prints the one document of a run.
pub open spec fn prints(action: RunAction) -> bool {
    action is PrintCache || action is PrintHosts || action is PrintInventory
}

/// The state after `event` and the action that it calls for.
pub open spec fn next(state: RunState, event: RunEvent) -> (RunState, RunAction) {
    match (state, event) {
        (RunState::Idle, RunEvent::Started) => (RunState::CacheCheck, RunAction::OpenCache),
        (RunState::CacheCheck, RunEvent::CacheOpened { forced, fresh, has_data }) => {
            if forced {
                if has_data {
                    (RunState::Done, RunAction::PrintCache)
                } else {
                    (RunState::Done, RunAction::Fail(InventoryError::NoCacheData))
                }
            } else if fresh && has_data {
                (RunState::Done, RunAction::PrintCache)
            } else {
                (RunState::Fetching, RunAction::Fetch)
            }
        },
        (RunState::Fetching, RunEvent::Fetched { by_host }) => {
            if by_host {
                (RunState::Done, RunAction::PrintHosts)
            } else {
                (RunState::Merging, RunAction::Merge)
            }
        },
        (RunState::Merging, RunEvent::Merged) => (RunState::Writing, RunAction::WriteCache),
        (RunState::Writing, RunEvent::Written) => (RunState::Done, RunAction::PrintInventory),
        _ => (state, RunAction::Ignore),
    }
}

/// Takes one step of a run.
pub fn step(state: RunState, event: RunEvent) -> (r: (RunState, RunAction))
    ensures
        r == next(state, event),
{
    match (state, event) {
        (RunState::Idle, RunEvent::Started) => (RunState::CacheCheck, RunAction::OpenCache),
        (RunState::CacheCheck, RunEvent::CacheOpened { forced, fresh, has_data }) => {
            if forced {
                if has_data {
                    (RunState::Done, RunAction::PrintCache)
                } else {
                    (RunState::Done, RunAction::Fail(InventoryError::NoCacheData))
                }
            } else if fresh && has_data {
                (RunState::Done, RunAction::PrintCache)
            } else {
                (RunState::Fetching, RunAction::Fetch)
            }
        },
        (RunState::Fetching, RunEvent::Fetched { by_host }) => {
            if by_host {
                (RunState::Done, RunAction::PrintHosts)
            } else {
                (RunState::Merging, RunAction::Merge)
            }
        },
        (RunState::Merging, RunEvent::Merged) => (RunState::Writing, RunAction::WriteCache),
        (RunState::Writing, RunEvent::Written) => (RunState::Done, RunAction::PrintInventory),
        (state, _) => (state, RunAction::Ignore),
    }
}

/// The state that a run reaches from `state` by `events`.
pub open spec fn state_after(state: RunState, events: Seq<RunEvent>) -> RunState
    decreases events.len(),
{
    if events.len() == 0 {
        state
    } else {
        next(state_after(state, events.drop_last()), events.last()).0
    }
}

/// The actions that `events` call for, one for each event, on a run that
/// stands at `state`.
pub open spec fn actions_of(state: RunState, events: Seq<RunEvent>) -> Seq<RunAction>
    decreases events.len(),
{
    if events.len() == 0 {
        Seq::empty()
    } else {
        actions_of(state, events.drop_last()).push(
            next(state_after(state, events.drop_last()), events.last()).1,
        )
    }
}

/// A run never goes back: every step leaves it where it is or takes it
/// further, and a step that does something takes it further.
pub proof fn lemma_step_advances(state: RunState, event: RunEvent)
    ensures
        rank(next(state, event).0) >= rank(state),
        !(next(state, event).1 is Ignore) ==> rank(next(state, event).0) > rank(state),
        next(state, event).1 is Fetch ==> state is CacheCheck && next(state, event).0 is Fetching,
        prints(next(state, event).1) || next(state, event).1 is Fail ==> next(
            state,
            event,
        ).0 is Done,
        state is Done ==> next(state, event) == (RunState::Done, RunAction::Ignore),
{
}

/// How often `actions` ask the accounts.
pub open spec fn fetches(actions: Seq<RunAction>) -> nat
    decreases actions.len(),
{
    if actions.len() == 0 {
        0
    } else if actions.last() is Fetch {
        fetches(actions.drop_last()) + 1
    } else {
        fetches(actions.drop_last())
    }
}

/// How many documents `actions` print.
pub open spec fn documents(actions: Seq<RunAction>) -> nat
    decreases actions.len(),
{
    if actions.len() == 0 {
        0
    } else if prints(actions.last()) {
        documents(actions.drop_last()) + 1
    } else {
        documents(actions.drop_last())
    }
}

/// Whatever is reported to a run, and in whatever order: the accounts are
/// asked at most once, and at most one document is printed. A run that has
/// not left the cache check has not asked, and one that is not over has not
/// printed.
pub proof fn lemma_one_fetch_one_document(events: Seq<RunEvent>)
    ensures
        fetches(actions_of(RunState::Idle, events)) <= 1,
        documents(actions_of(RunState::Idle, events)) <= 1,
        rank(state_after(RunState::Idle, events)) <= 1 ==> fetches(
            actions_of(RunState::Idle, events),
        ) == 0,
        !(state_after(RunState::Idle, events) is Done) ==> documents(
            actions_of(RunState::Idle, events),
        ) == 0,
    decreases events.len(),
{
    if events.len() > 0 {
        let head = events.drop_last();
        lemma_one_fetch_one_document(head);
        lemma_step_advances(state_after(RunState::Idle, head), events.last());
        let actions = actions_of(RunState::Idle, events);
        assert(actions.drop_last() =~= actions_of(RunState::Idle, head));
    }
}

} // verus!
