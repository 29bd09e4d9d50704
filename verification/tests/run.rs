use ec2_rs::errors::InventoryError;
use ec2_rs::run::{step, RunAction, RunEvent, RunState};

fn opened(forced: bool, fresh: bool, has_data: bool) -> RunEvent {
    RunEvent::CacheOpened { forced, fresh, has_data }
}

#[test]
fn a_run_begins_by_looking_at_the_cache() {
    assert_eq!(step(RunState::Idle, RunEvent::Started), (RunState::CacheCheck, RunAction::OpenCache));
}

#[test]
fn a_fresh_cache_with_data_is_served() {
    assert_eq!(
        step(RunState::CacheCheck, opened(false, true, true)),
        (RunState::Done, RunAction::PrintCache)
    );
}

#[test]
fn a_stale_or_empty_cache_leads_to_a_scan() {
    for (fresh, has_data) in [(false, true), (true, false), (false, false)] {
        assert_eq!(
            step(RunState::CacheCheck, opened(false, fresh, has_data)),
            (RunState::Fetching, RunAction::Fetch)
        );
    }
}

#[test]
fn a_forced_cache_is_served_whatever_its_age() {
    for fresh in [false, true] {
        assert_eq!(
            step(RunState::CacheCheck, opened(true, fresh, true)),
            (RunState::Done, RunAction::PrintCache)
        );
    }
}

#[test]
fn a_forced_cache_without_data_fails() {
    for fresh in [false, true] {
        assert_eq!(
            step(RunState::CacheCheck, opened(true, fresh, false)),
            (RunState::Done, RunAction::Fail(InventoryError::NoCacheData))
        );
    }
}

#[test]
fn hosts_are_printed_without_merging() {
    assert_eq!(
        step(RunState::Fetching, RunEvent::Fetched { by_host: true }),
        (RunState::Done, RunAction::PrintHosts)
    );
}

#[test]
fn groups_are_merged_written_and_printed() {
    let (state, action) = step(RunState::Fetching, RunEvent::Fetched { by_host: false });
    assert_eq!((state, action), (RunState::Merging, RunAction::Merge));
    let (state, action) = step(state, RunEvent::Merged);
    assert_eq!((state, action), (RunState::Writing, RunAction::WriteCache));
    let (state, action) = step(state, RunEvent::Written);
    assert_eq!((state, action), (RunState::Done, RunAction::PrintInventory));
}

#[test]
fn reports_out_of_turn_are_ignored() {
    assert_eq!(step(RunState::Idle, RunEvent::Merged), (RunState::Idle, RunAction::Ignore));
    assert_eq!(step(RunState::Fetching, RunEvent::Started), (RunState::Fetching, RunAction::Ignore));
    assert_eq!(
        step(RunState::Merging, RunEvent::Fetched { by_host: false }),
        (RunState::Merging, RunAction::Ignore)
    );
    assert_eq!(step(RunState::Writing, RunEvent::Merged), (RunState::Writing, RunAction::Ignore));
}

#[test]
fn a_finished_run_stays_finished() {
    for event in [
        RunEvent::Started,
        opened(false, false, false),
        RunEvent::Fetched { by_host: false },
        RunEvent::Merged,
        RunEvent::Written,
    ] {
        assert_eq!(step(RunState::Done, event), (RunState::Done, RunAction::Ignore));
    }
}

#[test]
fn a_whole_run_fetches_once_and_prints_once() {
    let events = [
        RunEvent::Started,
        opened(false, false, true),
        RunEvent::Fetched { by_host: false },
        RunEvent::Started,
        opened(false, false, false),
        RunEvent::Merged,
        RunEvent::Written,
        RunEvent::Fetched { by_host: true },
        RunEvent::Written,
    ];
    let mut state = RunState::Idle;
    let mut fetches = 0;
    let mut documents = 0;
    for event in events {
        let (next, action) = step(state, event);
        state = next;
        match action {
            RunAction::Fetch => fetches += 1,
            RunAction::PrintCache | RunAction::PrintHosts | RunAction::PrintInventory => documents += 1,
            _ => {}
        }
    }
    assert_eq!(state, RunState::Done);
    assert_eq!(fetches, 1);
    assert_eq!(documents, 1);
}
