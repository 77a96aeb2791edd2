//! A reconciliation run: the liked tracks are fetched, those not yet
//! reconciled are verified and loved through a bounded pipeline, and the
//! identifiers of the synced ones are committed to the ledger, once.
//!
//! The run itself makes no call. It is told what happened and answers with
//! what is to be done next; its caller makes the calls.

use vstd::prelude::*;
use crate::entities::Track;
use crate::errors::{Error, ErrorKind};
use crate::item::Outcome;
use crate::ledger::Ledger;
use crate::pending::{pending_of, pending_tracks};
use crate::pipeline::{width_fault, Pipeline, PipelineAction, PipelineEvent, PipelineModel};
use crate::summary::{failed_of, skipped_of, summarize, synced_ids, synced_of, Summary};
use crate::text::views;

verus! {

/// How many tracks are in flight at a time where nothing else is asked for.
pub const DEFAULT_CONCURRENCY: usize = 10;

/// The settings of a run.
#[derive(Clone, Copy, Debug, PartialEq, Eq, Structural)]
pub struct Config {
    /// How many tracks may be in flight at a time.
    pub concurrency: usize,
}

/// Collects the settings of a run.
#[derive(Debug)]
pub struct ConfigBuilder {
    concurrency: Option<usize>,
}

impl ConfigBuilder {
    /// The width that was asked for, if any was.
    pub closed spec fn view(&self) -> Option<usize> {
        self.concurrency
    }

    /// A builder in which nothing is asked for.
    pub fn new() -> (builder: Self)
        ensures
            builder@ is None,
    {
        ConfigBuilder { concurrency: None }
    }

    /// Asks for a width.
    pub fn concurrency(self, width: usize) -> (builder: Self)
        ensures
            builder@ == Some(width),
    {
        ConfigBuilder { concurrency: Some(width) }
    }

    /// The settings: the width that was asked for, or the default one. A
    /// width of zero is refused as a fault of the configuration.
    pub fn build(self) -> (config: Result<Config, Error>)
        ensures
            match self@ {
                None => config == Ok::<Config, Error>(Config { concurrency: DEFAULT_CONCURRENCY }),
                Some(width) => if width == 0 {
                    config is Err && config.unwrap_err()@ == (
                        ErrorKind::Configuration,
                        width_fault(),
                    )
                } else {
                    config == Ok::<Config, Error>(Config { concurrency: width })
                },
            },
    {
        match self.concurrency {
            None => Ok(Config { concurrency: DEFAULT_CONCURRENCY }),
            Some(width) => {
                if width == 0 {
                    Err(
                        Error::ConfigurationError(
                            String::from_str("the number of tracks in flight must be at least 1"),
                        ),
                    )
                } else {
                    Ok(Config { concurrency: width })
                }
            },
        }
    }
}

/// Where a run stands.
#[derive(Debug)]
pub enum Phase {
    /// Not begun.
    Idle,
    /// The liked tracks are being fetched.
    Fetching,
    /// The liked tracks are here; the ledger is being read.
    Reading(Vec<Track>),
    /// The pending tracks are going through the pipeline.
    Processing(Pipeline),
    /// Every track has its outcome; the synced identifiers are being
    /// committed. The counts are already made.
    Committing(Summary),
    /// The run has ended.
    Finished,
}

/// Where a run stands, as a value of the model.
pub enum PhaseModel {
    Idle,
    Fetching,
    Reading(Seq<Track>),
    Processing(PipelineModel),
    Committing(Summary),
    Finished,
}

impl View for Phase {
    type V = PhaseModel;

    open spec fn view(&self) -> PhaseModel {
        match *self {
            Phase::Idle => PhaseModel::Idle,
            Phase::Fetching => PhaseModel::Fetching,
            Phase::Reading(liked) => PhaseModel::Reading(liked@),
            Phase::Processing(pipeline) => PhaseModel::Processing(pipeline@),
            Phase::Committing(summary) => PhaseModel::Committing(summary),
            Phase::Finished => PhaseModel::Finished,
        }
    }
}

/// What a run is told.
#[derive(Debug, PartialEq, Eq)]
pub enum RunEvent {
    /// Begin.
    Begin,
    /// The fetch of the liked tracks ended.
    Liked(Result<Vec<Track>, Error>),
    /// The read of the reconciled identifiers ended.
    Reconciled(Result<Vec<String>, Error>),
    /// The track that was to be started is started.
    Ready,
    /// A track in flight ended with this outcome.
    Completed(Outcome),
    /// The commit to the ledger ended.
    Committed(Result<(), Error>),
    /// The run is called off from outside.
    Cancelled,
}

/// What the caller of a run does next.
#[derive(Debug, PartialEq, Eq)]
pub enum RunAction {
    /// Fetch the liked tracks from the source catalog.
    FetchLiked,
    /// Read the reconciled identifiers from the ledger.
    ReadLedger,
    /// Start work on this track, then report `Ready`.
    Start(Track),
    /// Wait for a track in flight to end, then report its outcome.
    Wait,
    /// Append these identifiers to the ledger, in one batch.
    Commit(Vec<String>),
    /// The run succeeded, with these counts.
    Succeed(Summary),
    /// The run failed for this reason; the counts are those made so far.
    Fail(Error, Summary),
    /// The run was called off: drop what is in flight and commit nothing.
    /// The counts are those of the outcomes that had come in.
    Abandon(Summary),
    /// Nothing: the event does not belong to the phase it met.
    Ignore,
}

/// What the caller of a run does next, as a value of the model.
pub enum RunActionModel {
    FetchLiked,
    ReadLedger,
    Start(Track),
    Wait,
    Commit(Seq<Seq<char>>),
    Succeed(Summary),
    Fail((ErrorKind, Seq<char>), Summary),
    Abandon(Summary),
    Ignore,
}

impl View for RunAction {
    type V = RunActionModel;

    open spec fn view(&self) -> RunActionModel {
        match *self {
            RunAction::FetchLiked => RunActionModel::FetchLiked,
            RunAction::ReadLedger => RunActionModel::ReadLedger,
            RunAction::Start(track) => RunActionModel::Start(track),
            RunAction::Wait => RunActionModel::Wait,
            RunAction::Commit(batch) => RunActionModel::Commit(views(batch@)),
            RunAction::Succeed(summary) => RunActionModel::Succeed(summary),
            RunAction::Fail(error, summary) => RunActionModel::Fail(error@, summary),
            RunAction::Abandon(summary) => RunActionModel::Abandon(summary),
            RunAction::Ignore => RunActionModel::Ignore,
        }
    }
}

/// A run, as a value of the model: its width and its phase.
pub struct SyncerModel {
    pub width: nat,
    pub phase: PhaseModel,
}

/// The counts of a run in which nothing was done.
pub open spec fn nothing_done() -> Summary {
    Summary { synced_count: 0, skipped_count: 0, failed_count: 0 }
}

/// The counts over the outcomes of a run.
pub open spec fn summary_of(outcomes: Seq<Outcome>) -> Summary {
    Summary {
        synced_count: synced_of(outcomes).len() as usize,
        skipped_count: skipped_of(outcomes).len() as usize,
        failed_count: failed_of(outcomes).len() as usize,
    }
}

/// The phase and the action that follow an event in the pipeline. While the
/// pipeline has work the run stays with it; once it has drained the counts
/// are made and the synced identifiers go to the ledger in one batch.
pub open spec fn advance(pipeline: PipelineModel, event: PipelineEvent) -> (
    PhaseModel,
    RunActionModel,
) {
    let (next, action) = pipeline.step(event);
    match action {
        PipelineAction::Start(track) => (
            PhaseModel::Processing(next),
            RunActionModel::Start(track),
        ),
        PipelineAction::Wait => (PhaseModel::Processing(next), RunActionModel::Wait),
        PipelineAction::Drained => (
            PhaseModel::Committing(summary_of(next.outcomes)),
            RunActionModel::Commit(synced_ids(next.outcomes)),
        ),
    }
}

/// The phase and the action that follow an event.
///
/// A width of zero ends the run before any call. A failed fetch or a failed
/// read of the ledger ends it before any track is worked on; no liked track
/// ends it well, with nothing done and the ledger unread. A failure on one
/// track is an outcome like any other and ends nothing. The commit is asked
/// for once, when every track has its outcome; if it fails the run fails
/// with the counts that were made. A run that is called off ends at once
/// and commits nothing: what was synced and not committed is pending again
/// in the next run. An event that does not belong to the phase it meets
/// changes nothing.
pub open spec fn run_step(run: SyncerModel, event: RunEvent) -> (PhaseModel, RunActionModel) {
    match (run.phase, event) {
        (PhaseModel::Finished, RunEvent::Cancelled) => (
            PhaseModel::Finished,
            RunActionModel::Ignore,
        ),
        (PhaseModel::Processing(pipeline), RunEvent::Cancelled) => (
            PhaseModel::Finished,
            RunActionModel::Abandon(summary_of(pipeline.outcomes)),
        ),
        (PhaseModel::Committing(summary), RunEvent::Cancelled) => (
            PhaseModel::Finished,
            RunActionModel::Abandon(summary),
        ),
        (_, RunEvent::Cancelled) => (
            PhaseModel::Finished,
            RunActionModel::Abandon(nothing_done()),
        ),
        (PhaseModel::Idle, RunEvent::Begin) => if run.width == 0 {
            (
                PhaseModel::Finished,
                RunActionModel::Fail((ErrorKind::Configuration, width_fault()), nothing_done()),
            )
        } else {
            (PhaseModel::Fetching, RunActionModel::FetchLiked)
        },
        (PhaseModel::Fetching, RunEvent::Liked(Err(error))) => (
            PhaseModel::Finished,
            RunActionModel::Fail(error@, nothing_done()),
        ),
        (PhaseModel::Fetching, RunEvent::Liked(Ok(liked))) => if liked@.len() == 0 {
            (PhaseModel::Finished, RunActionModel::Succeed(nothing_done()))
        } else {
            (PhaseModel::Reading(liked@), RunActionModel::ReadLedger)
        },
        (PhaseModel::Reading(_), RunEvent::Reconciled(Err(error))) => (
            PhaseModel::Finished,
            RunActionModel::Fail(error@, nothing_done()),
        ),
        (PhaseModel::Reading(liked), RunEvent::Reconciled(Ok(reconciled))) => if run.width == 0 {
            (
                PhaseModel::Finished,
                RunActionModel::Fail((ErrorKind::Configuration, width_fault()), nothing_done()),
            )
        } else {
            advance(
                PipelineModel::fresh(run.width, pending_of(liked, views(reconciled@).to_set())),
                PipelineEvent::Ready,
            )
        },
        (PhaseModel::Processing(pipeline), RunEvent::Ready) => advance(
            pipeline,
            PipelineEvent::Ready,
        ),
        (PhaseModel::Processing(pipeline), RunEvent::Completed(outcome)) => advance(
            pipeline,
            PipelineEvent::Completed(outcome),
        ),
        (PhaseModel::Committing(summary), RunEvent::Committed(Ok(_))) => (
            PhaseModel::Finished,
            RunActionModel::Succeed(summary),
        ),
        (PhaseModel::Committing(summary), RunEvent::Committed(Err(error))) => (
            PhaseModel::Finished,
            RunActionModel::Fail(error@, summary),
        ),
        (phase, _) => (phase, RunActionModel::Ignore),
    }
}

/// A reconciliation run.
#[derive(Debug)]
pub struct Syncer {
    config: Config,
    phase: Phase,
}

impl Syncer {
    /// The run's width and phase.
    pub closed spec fn view(&self) -> SyncerModel {
        SyncerModel { width: self.config.concurrency as nat, phase: self.phase@ }
    }

    /// A run that has not begun.
    pub fn new(config: Config) -> (syncer: Syncer)
        ensures
            syncer@.width == config.concurrency,
            syncer@.phase == PhaseModel::Idle,
    {
        Syncer { config, phase: Phase::Idle }
    }

    /// Whether the run has ended.
    pub fn is_finished(&self) -> (finished: bool)
        ensures
            finished <==> self@.phase is Finished,
    {
        match &self.phase {
            Phase::Finished => true,
            _ => false,
        }
    }

    /// Takes an event and gives the run that follows and what its caller
    /// does next.
    pub fn step(self, event: RunEvent) -> (next: (Syncer, RunAction))
        ensures
            next.0@.width == self@.width,
            next.0@.phase == run_step(self@, event).0,
            next.1@ == run_step(self@, event).1,
    {
        let Syncer { config, phase } = self;
        let fresh = Summary { synced_count: 0, skipped_count: 0, failed_count: 0 };
        if let RunEvent::Cancelled = event {
            let action = match phase {
                Phase::Finished => RunAction::Ignore,
                Phase::Processing(pipeline) => {
                    let outcomes = pipeline.into_outcomes();
                    RunAction::Abandon(summarize(&outcomes).summary)
                },
                Phase::Committing(summary) => RunAction::Abandon(summary),
                _ => RunAction::Abandon(fresh),
            };
            return (Syncer { config, phase: Phase::Finished }, action);
        }
        let (phase, action) = match phase {
            Phase::Idle => match event {
                RunEvent::Begin => {
                    if config.concurrency == 0 {
                        (
                            Phase::Finished,
                            RunAction::Fail(
                                Error::ConfigurationError(
                                    String::from_str(
                                        "the number of tracks in flight must be at least 1",
                                    ),
                                ),
                                fresh,
                            ),
                        )
                    } else {
                        (Phase::Fetching, RunAction::FetchLiked)
                    }
                },
                _ => (Phase::Idle, RunAction::Ignore),
            },
            Phase::Fetching => match event {
                RunEvent::Liked(Err(error)) => (Phase::Finished, RunAction::Fail(error, fresh)),
                RunEvent::Liked(Ok(liked)) => {
                    if liked.len() == 0 {
                        (Phase::Finished, RunAction::Succeed(fresh))
                    } else {
                        (Phase::Reading(liked), RunAction::ReadLedger)
                    }
                },
                _ => (Phase::Fetching, RunAction::Ignore),
            },
            Phase::Reading(liked) => match event {
                RunEvent::Reconciled(Err(error)) => (
                    Phase::Finished,
                    RunAction::Fail(error, fresh),
                ),
                RunEvent::Reconciled(Ok(reconciled)) => {
                    let ledger = Ledger::load(&reconciled);
                    let pending = pending_tracks(&liked, &ledger);
                    match Pipeline::new(pending, config.concurrency) {
                        Err(error) => (Phase::Finished, RunAction::Fail(error, fresh)),
                        Ok(pipeline) => {
                            drive(pipeline, PipelineEvent::Ready)
                        },
                    }
                },
                _ => (Phase::Reading(liked), RunAction::Ignore),
            },
            Phase::Processing(pipeline) => match event {
                RunEvent::Ready => drive(pipeline, PipelineEvent::Ready),
                RunEvent::Completed(outcome) => drive(pipeline, PipelineEvent::Completed(outcome)),
                _ => (Phase::Processing(pipeline), RunAction::Ignore),
            },
            Phase::Committing(summary) => match event {
                RunEvent::Committed(Ok(_)) => (Phase::Finished, RunAction::Succeed(summary)),
                RunEvent::Committed(Err(error)) => (
                    Phase::Finished,
                    RunAction::Fail(error, summary),
                ),
                _ => (Phase::Committing(summary), RunAction::Ignore),
            },
            Phase::Finished => (Phase::Finished, RunAction::Ignore),
        };
        (Syncer { config, phase }, action)
    }
}

/// Hands an event to the pipeline and turns its answer into the phase and
/// the action of the run.
fn drive(pipeline: Pipeline, event: PipelineEvent) -> (next: (Phase, RunAction))
    ensures
        next.0@ == advance(pipeline@, event).0,
        next.1@ == advance(pipeline@, event).1,
{
    let (pipeline, action) = pipeline.step(event);
    match action {
        PipelineAction::Start(track) => (Phase::Processing(pipeline), RunAction::Start(track)),
        PipelineAction::Wait => (Phase::Processing(pipeline), RunAction::Wait),
        PipelineAction::Drained => {
            let outcomes = pipeline.into_outcomes();
            let report = summarize(&outcomes);
            (Phase::Committing(report.summary), RunAction::Commit(report.synced))
        },
    }
}

} // verus!
