//! The course of one pending track: verified against the target catalog,
//! loved there if it was found, and ended once with an outcome.

use vstd::prelude::*;
use crate::entities::Track;
use crate::resolver::Resolution;

verus! {

/// How a track ended.
#[derive(Debug, PartialEq, Eq)]
pub enum Outcome {
    /// The track is loved in the target catalog.
    Synced(String),
    /// The target catalog does not hold the track.
    NotFound(String),
    /// The candidates belong to several artists, named in the second part:
    /// no guess was made between them.
    Ambiguous(String, Vec<String>),
    /// A call to the target catalog failed; the second part is the cause.
    TransportFailure(String, String),
}

impl Outcome {
    /// The identifier of the track that the outcome is about.
    pub open spec fn id(self) -> Seq<char> {
        match self {
            Outcome::Synced(id) => id@,
            Outcome::NotFound(id) => id@,
            Outcome::Ambiguous(id, _) => id@,
            Outcome::TransportFailure(id, _) => id@,
        }
    }

    /// The identifier of the track that the outcome is about.
    pub fn track_id(&self) -> (id: &String)
        ensures
            id@ == self.id(),
    {
        match self {
            Outcome::Synced(id) => id,
            Outcome::NotFound(id) => id,
            Outcome::Ambiguous(id, _) => id,
            Outcome::TransportFailure(id, _) => id,
        }
    }
}

/// The identifiers of the outcomes, in the same order.
pub open spec fn outcome_ids(outcomes: Seq<Outcome>) -> Seq<Seq<char>> {
    outcomes.map_values(|o: Outcome| o.id())
}

/// Where a track stands.
#[derive(Debug, PartialEq, Eq)]
pub enum ItemState {
    /// Nothing has been done yet.
    Pending,
    /// The search that verifies the track is under way.
    Verifying,
    /// The track was found; the call that loves it is under way.
    Applying,
    /// The track has ended. No event leads out of this state.
    Done(Outcome),
}

/// What happened to a track.
#[derive(Debug, PartialEq, Eq)]
pub enum ItemEvent {
    /// The track's turn has come.
    Start,
    /// The verification ended: with a decision, or with the cause of its
    /// failure.
    Verified(Result<Resolution, String>),
    /// The call that loves the track ended, well or with the cause of its
    /// failure.
    Applied(Result<(), String>),
}

/// What is to be done for a track next.
#[derive(Clone, Copy, Debug, PartialEq, Eq, Structural)]
pub enum ItemAction {
    /// Search the target catalog for the track.
    Verify,
    /// Love the track in the target catalog.
    Apply,
    /// Hand the outcome over: the track has ended.
    Report,
    /// Nothing: the event does not belong to the state it met.
    Ignore,
}

/// The state and the action that follow from a state and an event.
///
/// A pending track starts by being verified. A verification that finds the
/// track leads to the call that loves it; one that does not find it, that
/// refuses to decide, or that fails ends the track. The call that loves it
/// ends the track either way. An event that does not belong to the state it
/// meets changes nothing, and nothing leads out of an ended track: no track
/// is tried twice.
pub open spec fn transition(track: Track, state: ItemState, event: ItemEvent) -> (
    ItemState,
    ItemAction,
) {
    match (state, event) {
        (ItemState::Pending, ItemEvent::Start) => (ItemState::Verifying, ItemAction::Verify),
        (ItemState::Verifying, ItemEvent::Verified(Ok(Resolution::Found))) => (
            ItemState::Applying,
            ItemAction::Apply,
        ),
        (ItemState::Verifying, ItemEvent::Verified(Ok(Resolution::NotFound))) => (
            ItemState::Done(Outcome::NotFound(track.id)),
            ItemAction::Report,
        ),
        (ItemState::Verifying, ItemEvent::Verified(Ok(Resolution::Ambiguous(names)))) => (
            ItemState::Done(Outcome::Ambiguous(track.id, names)),
            ItemAction::Report,
        ),
        (ItemState::Verifying, ItemEvent::Verified(Err(cause))) => (
            ItemState::Done(Outcome::TransportFailure(track.id, cause)),
            ItemAction::Report,
        ),
        (ItemState::Applying, ItemEvent::Applied(Ok(_))) => (
            ItemState::Done(Outcome::Synced(track.id)),
            ItemAction::Report,
        ),
        (ItemState::Applying, ItemEvent::Applied(Err(cause))) => (
            ItemState::Done(Outcome::TransportFailure(track.id, cause)),
            ItemAction::Report,
        ),
        (unchanged, _) => (unchanged, ItemAction::Ignore),
    }
}

/// Takes one event for a track and gives the state that follows and what is
/// to be done next.
pub fn step(track: &Track, state: ItemState, event: ItemEvent) -> (next: (ItemState, ItemAction))
    ensures
        next == transition(*track, state, event),
{
    match state {
        ItemState::Pending => match event {
            ItemEvent::Start => (ItemState::Verifying, ItemAction::Verify),
            _ => (ItemState::Pending, ItemAction::Ignore),
        },
        ItemState::Verifying => match event {
            ItemEvent::Verified(verified) => match verified {
                Ok(Resolution::Found) => (ItemState::Applying, ItemAction::Apply),
                Ok(Resolution::NotFound) => (
                    ItemState::Done(Outcome::NotFound(track.id.clone())),
                    ItemAction::Report,
                ),
                Ok(Resolution::Ambiguous(names)) => (
                    ItemState::Done(Outcome::Ambiguous(track.id.clone(), names)),
                    ItemAction::Report,
                ),
                Err(cause) => (
                    ItemState::Done(Outcome::TransportFailure(track.id.clone(), cause)),
                    ItemAction::Report,
                ),
            },
            _ => (ItemState::Verifying, ItemAction::Ignore),
        },
        ItemState::Applying => match event {
            ItemEvent::Applied(applied) => match applied {
                Ok(_) => (ItemState::Done(Outcome::Synced(track.id.clone())), ItemAction::Report),
                Err(cause) => (
                    ItemState::Done(Outcome::TransportFailure(track.id.clone(), cause)),
                    ItemAction::Report,
                ),
            },
            _ => (ItemState::Applying, ItemAction::Ignore),
        },
        ItemState::Done(outcome) => (ItemState::Done(outcome), ItemAction::Ignore),
    }
}

/// The outcome of a track from what its two calls gave: the verification,
/// and the call that loves it, which is looked at only where the
/// verification found the track.
pub open spec fn outcome_of(
    track: Track,
    verified: Result<Resolution, String>,
    applied: Result<(), String>,
) -> Outcome {
    match verified {
        Ok(Resolution::Found) => match applied {
            Ok(_) => Outcome::Synced(track.id),
            Err(cause) => Outcome::TransportFailure(track.id, cause),
        },
        Ok(Resolution::NotFound) => Outcome::NotFound(track.id),
        Ok(Resolution::Ambiguous(names)) => Outcome::Ambiguous(track.id, names),
        Err(cause) => Outcome::TransportFailure(track.id, cause),
    }
}

/// A track that is started, verified and, where the verification asks for
/// it, applied, ends with the outcome of its two calls: every course
/// through the states ends, and none is left without an outcome.
pub proof fn lemma_every_course_ends(
    track: Track,
    verified: Result<Resolution, String>,
    applied: Result<(), String>,
)
    ensures
        ({
            let started = transition(track, ItemState::Pending, ItemEvent::Start);
            let checked = transition(track, started.0, ItemEvent::Verified(verified));
            let ended = if checked.1 == ItemAction::Apply {
                transition(track, checked.0, ItemEvent::Applied(applied))
            } else {
                checked
            };
            &&& started.1 == ItemAction::Verify
            &&& checked.1 == ItemAction::Apply <==> verified == Ok::<Resolution, String>(
                Resolution::Found,
            )
            &&& ended.0 == ItemState::Done(outcome_of(track, verified, applied))
            &&& ended.1 == ItemAction::Report
            &&& outcome_of(track, verified, applied).id() == track.id@
        }),
{
}

/// Nothing leads out of an ended track.
pub proof fn lemma_done_is_final(track: Track, outcome: Outcome, event: ItemEvent)
    ensures
        transition(track, ItemState::Done(outcome), event) == (
            ItemState::Done(outcome),
            ItemAction::Ignore,
        ),
{
}

} // verus!
