use rsyncer::entities::Track;
use rsyncer::errors::{Error, ErrorKind};
use rsyncer::item::{step, ItemAction, ItemEvent, ItemState, Outcome};
use rsyncer::ledger::Ledger;
use rsyncer::resolver::Resolution;
use rsyncer::summary::Summary;
use rsyncer::syncer::{Config, ConfigBuilder, RunAction, RunEvent, Syncer};

type Verdict = fn(&Track) -> (Result<Resolution, String>, Result<(), String>);

fn track(id: &str, name: &str, artist: &str) -> Track {
    Track::new(id.to_string(), name.to_string(), artist.to_string())
}

fn two_liked() -> Vec<Track> {
    vec![track("t1", "A", "X"), track("t2", "B", "Y")]
}

fn ledger_of(ids: &[&str]) -> Ledger {
    Ledger::load(&ids.iter().map(|s| s.to_string()).collect())
}

fn sorted(mut ids: Vec<String>) -> Vec<String> {
    ids.sort();
    ids
}

/// Takes one track through its states with the answers that the two calls give.
fn work(track: &Track, verdict: Verdict) -> Outcome {
    let (verified, applied) = verdict(track);
    let (state, action) = step(track, ItemState::Pending, ItemEvent::Start);
    assert_eq!(action, ItemAction::Verify);
    let (state, action) = step(track, state, ItemEvent::Verified(verified));
    let (state, action) = if action == ItemAction::Apply {
        step(track, state, ItemEvent::Applied(applied))
    } else {
        (state, action)
    };
    assert_eq!(action, ItemAction::Report);
    match state {
        ItemState::Done(outcome) => outcome,
        other => panic!("the track did not end: {:?}", other),
    }
}

struct Trace {
    last: RunAction,
    started: Vec<String>,
    most_in_flight: usize,
    commits: usize,
    ledger_reads: usize,
}

/// Drives a run to its end, performing each action on values in memory.
fn drive(liked: Vec<Track>, ledger: &mut Ledger, width: usize, verdict: Verdict) -> Trace {
    let mut syncer = Syncer::new(Config { concurrency: width });
    let mut flying: Vec<Track> = Vec::new();
    let mut trace = Trace {
        last: RunAction::Ignore,
        started: Vec::new(),
        most_in_flight: 0,
        commits: 0,
        ledger_reads: 0,
    };
    let mut liked = Some(liked);
    let mut event = RunEvent::Begin;
    for _ in 0..10_000 {
        let (next, action) = syncer.step(event);
        syncer = next;
        event = match action {
            RunAction::FetchLiked => RunEvent::Liked(Ok(liked.take().unwrap())),
            RunAction::ReadLedger => {
                trace.ledger_reads += 1;
                RunEvent::Reconciled(Ok(ledger.identifiers()))
            }
            RunAction::Start(t) => {
                trace.started.push(t.id.clone());
                flying.push(t);
                trace.most_in_flight = trace.most_in_flight.max(flying.len());
                RunEvent::Ready
            }
            RunAction::Wait => {
                let t = flying.pop().unwrap();
                RunEvent::Completed(work(&t, verdict))
            }
            RunAction::Commit(batch) => {
                trace.commits += 1;
                assert!(flying.is_empty());
                RunEvent::Committed(ledger.append_batch(&batch))
            }
            last => {
                assert!(syncer.is_finished());
                trace.last = last;
                return trace;
            }
        };
    }
    panic!("the run did not end");
}

fn all_found(_: &Track) -> (Result<Resolution, String>, Result<(), String>) {
    (Ok(Resolution::Found), Ok(()))
}

fn ambiguous_then_not_found(t: &Track) -> (Result<Resolution, String>, Result<(), String>) {
    if t.id == "t1" {
        (Ok(Resolution::Ambiguous(vec!["X".to_string(), "Z".to_string()])), Ok(()))
    } else {
        (Ok(Resolution::NotFound), Ok(()))
    }
}

fn first_fails(t: &Track) -> (Result<Resolution, String>, Result<(), String>) {
    if t.id == "a" {
        (Err("connection reset".to_string()), Ok(()))
    } else {
        (Ok(Resolution::Found), Ok(()))
    }
}

fn apply_fails_on_b(t: &Track) -> (Result<Resolution, String>, Result<(), String>) {
    if t.id == "b" {
        (Ok(Resolution::Found), Err("timeout".to_string()))
    } else {
        (Ok(Resolution::Found), Ok(()))
    }
}

#[test]
fn one_pending_track_is_found_and_synced() {
    let mut ledger = ledger_of(&["t1"]);
    let trace = drive(two_liked(), &mut ledger, 10, all_found);
    assert_eq!(trace.started, vec!["t2".to_string()]);
    assert_eq!(
        trace.last,
        RunAction::Succeed(Summary { synced_count: 1, skipped_count: 0, failed_count: 0 })
    );
    assert_eq!(sorted(ledger.identifiers()), vec!["t1".to_string(), "t2".to_string()]);
    assert_eq!(trace.commits, 1);
}

#[test]
fn ambiguous_and_not_found_are_skipped_and_leave_the_ledger() {
    let mut ledger = Ledger::new();
    let trace = drive(two_liked(), &mut ledger, 10, ambiguous_then_not_found);
    assert_eq!(
        trace.last,
        RunAction::Succeed(Summary { synced_count: 0, skipped_count: 2, failed_count: 0 })
    );
    assert_eq!(ledger.len(), 0);
    assert_eq!(ledger.identifiers(), Vec::<String>::new());
    assert_eq!(trace.commits, 1);
}

#[test]
fn second_run_syncs_nothing() {
    let mut ledger = Ledger::new();
    let first = drive(two_liked(), &mut ledger, 10, all_found);
    assert_eq!(
        first.last,
        RunAction::Succeed(Summary { synced_count: 2, skipped_count: 0, failed_count: 0 })
    );
    let second = drive(two_liked(), &mut ledger, 10, all_found);
    assert_eq!(second.started, Vec::<String>::new());
    assert_eq!(
        second.last,
        RunAction::Succeed(Summary { synced_count: 0, skipped_count: 0, failed_count: 0 })
    );
    assert_eq!(sorted(ledger.identifiers()), vec!["t1".to_string(), "t2".to_string()]);
}

#[test]
fn failed_track_is_tried_again_by_the_next_run() {
    let liked = || vec![track("a", "A", "X"), track("b", "B", "Y"), track("c", "C", "Z")];
    let mut ledger = Ledger::new();
    let first = drive(liked(), &mut ledger, 2, first_fails);
    assert_eq!(
        first.last,
        RunAction::Succeed(Summary { synced_count: 2, skipped_count: 0, failed_count: 1 })
    );
    let second = drive(liked(), &mut ledger, 2, all_found);
    assert_eq!(second.started, vec!["a".to_string()]);
    assert_eq!(
        second.last,
        RunAction::Succeed(Summary { synced_count: 1, skipped_count: 0, failed_count: 0 })
    );
}

#[test]
fn transport_failure_on_one_track_leaves_the_others() {
    let liked = vec![track("a", "A", "X"), track("b", "B", "Y"), track("c", "C", "Z")];
    let mut ledger = Ledger::new();
    let trace = drive(liked, &mut ledger, 10, first_fails);
    assert_eq!(
        trace.last,
        RunAction::Succeed(Summary { synced_count: 2, skipped_count: 0, failed_count: 1 })
    );
    assert_eq!(sorted(ledger.identifiers()), vec!["b".to_string(), "c".to_string()]);
}

#[test]
fn failed_apply_counts_as_failed_and_is_not_committed() {
    let liked = vec![track("a", "A", "X"), track("b", "B", "Y")];
    let mut ledger = Ledger::new();
    let trace = drive(liked, &mut ledger, 1, apply_fails_on_b);
    assert_eq!(
        trace.last,
        RunAction::Succeed(Summary { synced_count: 1, skipped_count: 0, failed_count: 1 })
    );
    assert_eq!(ledger.identifiers(), vec!["a".to_string()]);
}

#[test]
fn never_more_in_flight_than_the_width() {
    let liked: Vec<Track> = (0..25).map(|i| track(&format!("t{}", i), "N", "A")).collect();
    for width in [1usize, 2, 3, 10, 24, 25, 40] {
        let mut ledger = Ledger::new();
        let trace = drive(liked.clone(), &mut ledger, width, all_found);
        assert_eq!(trace.most_in_flight, width.min(25));
        assert_eq!(trace.started.len(), 25);
        assert_eq!(
            trace.last,
            RunAction::Succeed(Summary { synced_count: 25, skipped_count: 0, failed_count: 0 })
        );
        assert_eq!(ledger.len(), 25);
    }
}

#[test]
fn no_liked_track_ends_the_run_without_reading_the_ledger() {
    let mut ledger = ledger_of(&["t1"]);
    let trace = drive(Vec::new(), &mut ledger, 10, all_found);
    assert_eq!(
        trace.last,
        RunAction::Succeed(Summary { synced_count: 0, skipped_count: 0, failed_count: 0 })
    );
    assert_eq!(trace.ledger_reads, 0);
    assert_eq!(trace.commits, 0);
}

#[test]
fn everything_reconciled_commits_an_empty_batch() {
    let mut ledger = ledger_of(&["t1", "t2"]);
    let trace = drive(two_liked(), &mut ledger, 10, all_found);
    assert_eq!(trace.started, Vec::<String>::new());
    assert_eq!(trace.commits, 1);
    assert_eq!(
        trace.last,
        RunAction::Succeed(Summary { synced_count: 0, skipped_count: 0, failed_count: 0 })
    );
    assert_eq!(ledger.len(), 2);
}

#[test]
fn a_track_liked_twice_is_worked_on_once() {
    let liked = vec![track("t1", "A", "X"), track("t1", "A", "X"), track("t2", "B", "Y")];
    let mut ledger = Ledger::new();
    let trace = drive(liked, &mut ledger, 10, all_found);
    assert_eq!(trace.started, vec!["t1".to_string(), "t2".to_string()]);
    assert_eq!(
        trace.last,
        RunAction::Succeed(Summary { synced_count: 2, skipped_count: 0, failed_count: 0 })
    );
}

#[test]
fn zero_width_fails_before_any_call() {
    let syncer = Syncer::new(Config { concurrency: 0 });
    let (syncer, action) = syncer.step(RunEvent::Begin);
    assert!(syncer.is_finished());
    match action {
        RunAction::Fail(error, summary) => {
            assert_eq!(error.kind(), ErrorKind::Configuration);
            assert_eq!(
                error.message(),
                "Configuration error: the number of tracks in flight must be at least 1"
            );
            assert_eq!(summary, Summary { synced_count: 0, skipped_count: 0, failed_count: 0 });
        }
        other => panic!("unexpected action {:?}", other),
    }
}

#[test]
fn failed_fetch_fails_the_run() {
    let syncer = Syncer::new(Config { concurrency: 10 });
    let (syncer, action) = syncer.step(RunEvent::Begin);
    assert_eq!(action, RunAction::FetchLiked);
    let (syncer, action) =
        syncer.step(RunEvent::Liked(Err(Error::SpotifyError("unreachable".to_string()))));
    assert!(syncer.is_finished());
    assert_eq!(
        action,
        RunAction::Fail(
            Error::SpotifyError("unreachable".to_string()),
            Summary { synced_count: 0, skipped_count: 0, failed_count: 0 }
        )
    );
}

#[test]
fn unreadable_ledger_fails_the_run_before_any_track() {
    let syncer = Syncer::new(Config { concurrency: 10 });
    let (syncer, _) = syncer.step(RunEvent::Begin);
    let (syncer, action) = syncer.step(RunEvent::Liked(Ok(two_liked())));
    assert_eq!(action, RunAction::ReadLedger);
    let (syncer, action) =
        syncer.step(RunEvent::Reconciled(Err(Error::StorageError("locked".to_string()))));
    assert!(syncer.is_finished());
    assert_eq!(
        action,
        RunAction::Fail(
            Error::StorageError("locked".to_string()),
            Summary { synced_count: 0, skipped_count: 0, failed_count: 0 }
        )
    );
}

#[test]
fn failed_commit_fails_the_run_with_its_counts() {
    let syncer = Syncer::new(Config { concurrency: 10 });
    let (syncer, _) = syncer.step(RunEvent::Begin);
    let (syncer, _) = syncer.step(RunEvent::Liked(Ok(two_liked())));
    let (syncer, action) = syncer.step(RunEvent::Reconciled(Ok(vec!["t1".to_string()])));
    assert_eq!(action, RunAction::Start(track("t2", "B", "Y")));
    let (syncer, action) = syncer.step(RunEvent::Ready);
    assert_eq!(action, RunAction::Wait);
    let (syncer, action) = syncer.step(RunEvent::Completed(Outcome::Synced("t2".to_string())));
    assert_eq!(action, RunAction::Commit(vec!["t2".to_string()]));
    assert!(!syncer.is_finished());
    let (syncer, action) =
        syncer.step(RunEvent::Committed(Err(Error::StorageError("disk full".to_string()))));
    assert!(syncer.is_finished());
    assert_eq!(
        action,
        RunAction::Fail(
            Error::StorageError("disk full".to_string()),
            Summary { synced_count: 1, skipped_count: 0, failed_count: 0 }
        )
    );
}

#[test]
fn events_out_of_place_change_nothing() {
    let syncer = Syncer::new(Config { concurrency: 10 });
    let (syncer, action) = syncer.step(RunEvent::Ready);
    assert_eq!(action, RunAction::Ignore);
    let (syncer, action) = syncer.step(RunEvent::Committed(Ok(())));
    assert_eq!(action, RunAction::Ignore);
    let (syncer, action) = syncer.step(RunEvent::Begin);
    assert_eq!(action, RunAction::FetchLiked);
    let (syncer, action) = syncer.step(RunEvent::Begin);
    assert_eq!(action, RunAction::Ignore);
    let (syncer, action) = syncer.step(RunEvent::Liked(Ok(Vec::new())));
    assert_eq!(
        action,
        RunAction::Succeed(Summary { synced_count: 0, skipped_count: 0, failed_count: 0 })
    );
    let (syncer, action) = syncer.step(RunEvent::Begin);
    assert_eq!(action, RunAction::Ignore);
    assert!(syncer.is_finished());
}

#[test]
fn builder_defaults_to_ten_in_flight() {
    assert_eq!(ConfigBuilder::new().build(), Ok(Config { concurrency: 10 }));
    assert_eq!(ConfigBuilder::new().concurrency(3).build(), Ok(Config { concurrency: 3 }));
    let refused = ConfigBuilder::new().concurrency(0).build().unwrap_err();
    assert_eq!(refused.kind(), ErrorKind::Configuration);
}

#[test]
fn cancelled_run_commits_nothing_and_keeps_its_counts() {
    let syncer = Syncer::new(Config { concurrency: 1 });
    let (syncer, _) = syncer.step(RunEvent::Begin);
    let (syncer, _) = syncer.step(RunEvent::Liked(Ok(two_liked())));
    let (syncer, action) = syncer.step(RunEvent::Reconciled(Ok(Vec::new())));
    assert_eq!(action, RunAction::Start(track("t1", "A", "X")));
    let (syncer, action) = syncer.step(RunEvent::Completed(Outcome::Synced("t1".to_string())));
    assert_eq!(action, RunAction::Start(track("t2", "B", "Y")));
    let (syncer, action) = syncer.step(RunEvent::Cancelled);
    assert_eq!(
        action,
        RunAction::Abandon(Summary { synced_count: 1, skipped_count: 0, failed_count: 0 })
    );
    assert!(syncer.is_finished());
    let (syncer, action) = syncer.step(RunEvent::Completed(Outcome::Synced("t2".to_string())));
    assert_eq!(action, RunAction::Ignore);
    let (_, action) = syncer.step(RunEvent::Cancelled);
    assert_eq!(action, RunAction::Ignore);
}

#[test]
fn run_cancelled_before_it_begins_has_done_nothing() {
    let syncer = Syncer::new(Config { concurrency: 10 });
    let (syncer, action) = syncer.step(RunEvent::Cancelled);
    assert_eq!(
        action,
        RunAction::Abandon(Summary { synced_count: 0, skipped_count: 0, failed_count: 0 })
    );
    assert!(syncer.is_finished());
}

#[test]
fn run_cancelled_during_its_commit_keeps_its_counts() {
    let syncer = Syncer::new(Config { concurrency: 10 });
    let (syncer, _) = syncer.step(RunEvent::Begin);
    let (syncer, _) = syncer.step(RunEvent::Liked(Ok(two_liked())));
    let (syncer, _) = syncer.step(RunEvent::Reconciled(Ok(vec!["t1".to_string()])));
    let (syncer, action) = syncer.step(RunEvent::Completed(Outcome::NotFound("t2".to_string())));
    assert_eq!(action, RunAction::Commit(Vec::new()));
    let (syncer, action) = syncer.step(RunEvent::Cancelled);
    assert_eq!(
        action,
        RunAction::Abandon(Summary { synced_count: 0, skipped_count: 1, failed_count: 0 })
    );
    assert!(syncer.is_finished());
}
