//! The bounded pipeline of a run: which track is started when, and which
//! outcomes have come in.

use vstd::prelude::*;
use crate::entities::{track_ids, Track};
use crate::errors::{Error, ErrorKind};
use crate::item::{outcome_ids, Outcome};
use crate::pending::Pending;
use crate::sequences::{lemma_push_to_set, lemma_remove_to_set};
use crate::text::{position, views};

verus! {

/// What a pipeline holds: its width, the tracks that wait for their turn in
/// the order of their turns, the identifiers of the tracks in flight, and
/// the outcomes in the order in which they came in.
pub struct PipelineModel {
    pub width: nat,
    pub waiting: Seq<Track>,
    pub in_flight: Seq<Seq<char>>,
    pub outcomes: Seq<Outcome>,
}

/// What a pipeline is told.
#[derive(Debug, PartialEq, Eq)]
pub enum PipelineEvent {
    /// Nothing happened: the caller is ready for the next action.
    Ready,
    /// A track in flight ended with this outcome.
    Completed(Outcome),
}

/// What the caller of a pipeline does next.
#[derive(Debug, PartialEq, Eq)]
pub enum PipelineAction {
    /// Start work on this track, then come back.
    Start(Track),
    /// Wait for one of the tracks in flight to end.
    Wait,
    /// Nothing waits and nothing is in flight: every track has its outcome.
    Drained,
}

/// What is said of a width that lets no track start.
pub open spec fn width_fault() -> Seq<char> {
    "the number of tracks in flight must be at least 1"@
}

/// Whether two sequences have no member in common.
pub open spec fn disjoint(a: Seq<Seq<char>>, b: Seq<Seq<char>>) -> bool {
    forall|i: int, j: int| 0 <= i < a.len() && 0 <= j < b.len() ==> a[i] != b[j]
}

impl PipelineModel {
    /// The pipeline at its start: every pending track waits.
    pub open spec fn fresh(width: nat, pending: Seq<Track>) -> PipelineModel {
        PipelineModel { width, waiting: pending, in_flight: Seq::empty(), outcomes: Seq::empty() }
    }

    /// What holds of every pipeline: at least one track may be in flight,
    /// never more than the width are, and no track is in two places or
    /// twice in one.
    pub open spec fn valid(self) -> bool {
        &&& self.width >= 1
        &&& self.in_flight.len() <= self.width
        &&& track_ids(self.waiting).no_duplicates()
        &&& self.in_flight.no_duplicates()
        &&& outcome_ids(self.outcomes).no_duplicates()
        &&& disjoint(track_ids(self.waiting), self.in_flight)
        &&& disjoint(track_ids(self.waiting), outcome_ids(self.outcomes))
        &&& disjoint(self.in_flight, outcome_ids(self.outcomes))
    }

    /// The identifiers of all the tracks of the run, wherever they stand.
    pub open spec fn items(self) -> Set<Seq<char>> {
        track_ids(self.waiting).to_set().union(self.in_flight.to_set()).union(
            outcome_ids(self.outcomes).to_set(),
        )
    }

    /// Whether nothing waits and nothing is in flight.
    pub open spec fn drained(self) -> bool {
        self.waiting.len() == 0 && self.in_flight.len() == 0
    }

    /// How far the run is from its end: a waiting track is two steps away,
    /// one in flight one step.
    pub open spec fn distance(self) -> nat {
        2 * self.waiting.len() + self.in_flight.len()
    }

    /// The pipeline after an outcome came in. The outcome of a track in
    /// flight is kept and the track leaves the flight; an outcome for any
    /// other identifier changes nothing.
    pub open spec fn accept(self, outcome: Outcome) -> PipelineModel {
        if self.in_flight.contains(outcome.id()) {
            PipelineModel {
                width: self.width,
                waiting: self.waiting,
                in_flight: self.in_flight.remove(self.in_flight.index_of(outcome.id())),
                outcomes: self.outcomes.push(outcome),
            }
        } else {
            self
        }
    }

    /// The next action, and the pipeline after it. While a track waits and
    /// fewer tracks than the width are in flight, the first that waits is
    /// started. Else the caller waits for a track in flight, or, where
    /// there is none, is told that the run has drained.
    pub open spec fn dispatch(self) -> (PipelineModel, PipelineAction) {
        if self.waiting.len() > 0 && self.in_flight.len() < self.width {
            (
                PipelineModel {
                    width: self.width,
                    waiting: self.waiting.drop_first(),
                    in_flight: self.in_flight.push(self.waiting[0].id@),
                    outcomes: self.outcomes,
                },
                PipelineAction::Start(self.waiting[0]),
            )
        } else if self.in_flight.len() > 0 {
            (self, PipelineAction::Wait)
        } else {
            (self, PipelineAction::Drained)
        }
    }

    /// The pipeline and the action that follow an event.
    pub open spec fn step(self, event: PipelineEvent) -> (PipelineModel, PipelineAction) {
        match event {
            PipelineEvent::Ready => self.dispatch(),
            PipelineEvent::Completed(outcome) => self.accept(outcome).dispatch(),
        }
    }
}

/// The set of a sequence without its first member, which occurs once.
proof fn lemma_set_drop_first(items: Seq<Seq<char>>)
    requires
        items.len() > 0,
        items.no_duplicates(),
    ensures
        items.drop_first().to_set() == items.to_set().remove(items[0]),
        items.drop_first().no_duplicates(),
        !items.drop_first().contains(items[0]),
{
    assert(items.drop_first() =~= items.remove(0));
    lemma_remove_to_set(items, 0);
}

/// An outcome that comes in keeps the pipeline valid and loses no track.
/// Where its track was in flight, the run is one step nearer its end, the
/// outcomes that were there stay, and every other track is where it was.
pub proof fn lemma_accept(model: PipelineModel, outcome: Outcome)
    requires
        model.valid(),
    ensures
        model.accept(outcome).valid(),
        model.accept(outcome).items() == model.items(),
        model.accept(outcome).waiting == model.waiting,
        model.accept(outcome).width == model.width,
        model.in_flight.contains(outcome.id()) ==> {
            &&& model.accept(outcome).distance() + 1 == model.distance()
            &&& model.accept(outcome).outcomes == model.outcomes.push(outcome)
            &&& model.accept(outcome).in_flight.to_set() == model.in_flight.to_set().remove(
                outcome.id(),
            )
        },
        !model.in_flight.contains(outcome.id()) ==> model.accept(outcome) == model,
{
    if model.in_flight.contains(outcome.id()) {
        let id = outcome.id();
        let at = model.in_flight.index_of(id);
        let next = model.accept(outcome);
        lemma_remove_to_set(model.in_flight, at);
        let ids = outcome_ids(model.outcomes);
        assert(outcome_ids(next.outcomes) =~= ids.push(id));
        lemma_push_to_set(ids, id);
        assert forall|a: int, b: int|
            0 <= a < ids.push(id).len() && 0 <= b < ids.push(id).len() && a != b implies ids.push(
            id,
        )[a] != ids.push(id)[b] by {
            if a < ids.len() && b < ids.len() {
                assert(ids[a] != ids[b]);
            } else if a < ids.len() {
                assert(model.in_flight[at] != ids[a]);
            } else {
                assert(model.in_flight[at] != ids[b]);
            }
        }
        assert forall|i: int, j: int|
            0 <= i < track_ids(next.waiting).len() && 0 <= j < outcome_ids(
                next.outcomes,
            ).len() implies track_ids(next.waiting)[i] != outcome_ids(next.outcomes)[j] by {
            if j < ids.len() {
                assert(track_ids(model.waiting)[i] != ids[j]);
            } else {
                assert(track_ids(model.waiting)[i] != model.in_flight[at]);
            }
        }
        assert forall|i: int, j: int|
            0 <= i < next.in_flight.len() && 0 <= j < outcome_ids(
                next.outcomes,
            ).len() implies next.in_flight[i] != outcome_ids(next.outcomes)[j] by {
            assert(model.in_flight.contains(next.in_flight[i]));
            let k = choose|k: int|
                0 <= k < model.in_flight.len() && model.in_flight[k] == next.in_flight[i];
            if j < ids.len() {
                assert(model.in_flight[k] != ids[j]);
            } else {
                assert(next.in_flight.contains(next.in_flight[i]));
            }
        }
        assert forall|i: int, j: int|
            0 <= i < track_ids(next.waiting).len() && 0 <= j
                < next.in_flight.len() implies track_ids(next.waiting)[i] != next.in_flight[j] by {
            assert(model.in_flight.contains(next.in_flight[j]));
            let k = choose|k: int|
                0 <= k < model.in_flight.len() && model.in_flight[k] == next.in_flight[j];
            assert(track_ids(model.waiting)[i] != model.in_flight[k]);
        }
        assert(model.in_flight.to_set().contains(id));
        assert(next.items() =~= model.items());
    }
}

/// The next action keeps the pipeline valid and loses no track. A track is
/// started only where fewer tracks than the width are in flight, and the
/// run is then one step nearer its end; the caller is told that the run has
/// drained just when it has.
pub proof fn lemma_dispatch(model: PipelineModel)
    requires
        model.valid(),
    ensures
        model.dispatch().0.valid(),
        model.dispatch().0.items() == model.items(),
        model.dispatch().0.outcomes == model.outcomes,
        model.dispatch().0.width == model.width,
        model.dispatch().1 is Start <==> model.waiting.len() > 0 && model.in_flight.len()
            < model.width,
        model.dispatch().1 is Start ==> {
            &&& model.dispatch().0.distance() + 1 == model.distance()
            &&& model.dispatch().0.in_flight.len() == model.in_flight.len() + 1
        },
        !(model.dispatch().1 is Start) ==> model.dispatch().0 == model,
        model.dispatch().1 is Drained <==> model.drained(),
{
    if model.waiting.len() > 0 && model.in_flight.len() < model.width {
        let next = model.dispatch().0;
        let ids = track_ids(model.waiting);
        let id = model.waiting[0].id@;
        assert(ids[0] == id);
        assert(track_ids(next.waiting) =~= ids.drop_first());
        lemma_set_drop_first(ids);
        lemma_push_to_set(model.in_flight, id);
        assert forall|a: int, b: int|
            0 <= a < next.in_flight.len() && 0 <= b < next.in_flight.len() && a
                != b implies next.in_flight[a] != next.in_flight[b] by {
            if a < model.in_flight.len() && b < model.in_flight.len() {
                assert(model.in_flight[a] != model.in_flight[b]);
            } else if a < model.in_flight.len() {
                assert(ids[0] != model.in_flight[a]);
            } else {
                assert(ids[0] != model.in_flight[b]);
            }
        }
        assert forall|i: int, j: int|
            0 <= i < track_ids(next.waiting).len() && 0 <= j
                < next.in_flight.len() implies track_ids(next.waiting)[i] != next.in_flight[j] by {
            assert(track_ids(next.waiting)[i] == ids[i + 1]);
            if j < model.in_flight.len() {
                assert(ids[i + 1] != model.in_flight[j]);
            } else {
                assert(ids[i + 1] != ids[0]);
            }
        }
        assert forall|i: int, j: int|
            0 <= i < track_ids(next.waiting).len() && 0 <= j < outcome_ids(
                next.outcomes,
            ).len() implies track_ids(next.waiting)[i] != outcome_ids(next.outcomes)[j] by {
            assert(track_ids(next.waiting)[i] == ids[i + 1]);
            assert(ids[i + 1] != outcome_ids(model.outcomes)[j]);
        }
        assert forall|i: int, j: int|
            0 <= i < next.in_flight.len() && 0 <= j < outcome_ids(
                next.outcomes,
            ).len() implies next.in_flight[i] != outcome_ids(next.outcomes)[j] by {
            if i < model.in_flight.len() {
                assert(model.in_flight[i] != outcome_ids(model.outcomes)[j]);
            } else {
                assert(ids[0] != outcome_ids(model.outcomes)[j]);
            }
        }
        assert(ids.to_set().contains(id));
        assert(next.items() =~= model.items());
    }
}

/// The pipeline of one run.
#[derive(Debug)]
pub struct Pipeline {
    width: usize,
    tracks: Vec<Track>,
    started: usize,
    in_flight: Vec<String>,
    outcomes: Vec<Outcome>,
}

impl Pipeline {
    #[verifier::type_invariant]
    spec fn well_formed(self) -> bool {
        &&& self.started <= self.tracks@.len()
        &&& self@.valid()
    }

    /// What the pipeline holds.
    pub closed spec fn view(&self) -> PipelineModel {
        PipelineModel {
            width: self.width as nat,
            waiting: self.tracks@.subrange(self.started as int, self.tracks@.len() as int),
            in_flight: views(self.in_flight@),
            outcomes: self.outcomes@,
        }
    }

    /// A pipeline over the pending tracks, none of them started yet, in
    /// which at most `width` tracks are in flight at a time. A width of
    /// zero would let no track start and is refused as a fault of the
    /// configuration.
    pub fn new(pending: Pending, width: usize) -> (pipeline: Result<Pipeline, Error>)
        ensures
            pipeline is Ok <==> width >= 1,
            pipeline matches Ok(p) ==> p@ == PipelineModel::fresh(width as nat, pending@)
                && p@.valid(),
            pipeline matches Err(e) ==> e@ == (ErrorKind::Configuration, width_fault()),
    {
        if width == 0 {
            return Err(
                Error::ConfigurationError(
                    String::from_str("the number of tracks in flight must be at least 1"),
                ),
            );
        }
        let tracks = pending.into_tracks();
        let in_flight: Vec<String> = Vec::new();
        let outcomes: Vec<Outcome> = Vec::new();
        assert(tracks@.subrange(0, tracks@.len() as int) =~= tracks@);
        assert(views(in_flight@) =~= Seq::<Seq<char>>::empty());
        assert(outcomes@ =~= Seq::<Outcome>::empty());
        Ok(Pipeline { width, tracks, started: 0, in_flight, outcomes })
    }

    /// How many tracks are in flight.
    pub fn in_flight(&self) -> (n: usize)
        ensures
            n == self@.in_flight.len(),
            n <= self@.width,
    {
        proof {
            use_type_invariant(self);
        }
        self.in_flight.len()
    }

    /// How many tracks wait for their turn.
    pub fn waiting(&self) -> (n: usize)
        ensures
            n == self@.waiting.len(),
    {
        proof {
            use_type_invariant(self);
        }
        self.tracks.len() - self.started
    }

    /// Whether nothing waits and nothing is in flight.
    pub fn is_drained(&self) -> (drained: bool)
        ensures
            drained <==> self@.drained(),
    {
        proof {
            use_type_invariant(self);
        }
        self.started == self.tracks.len() && self.in_flight.len() == 0
    }

    /// Takes an event and gives the pipeline that follows and what the
    /// caller does next. Never more tracks than the width are in flight.
    pub fn step(self, event: PipelineEvent) -> (next: (Pipeline, PipelineAction))
        ensures
            self@.valid(),
            next.0@ == self@.step(event).0,
            next.1 == self@.step(event).1,
            next.0@.valid(),
            next.0@.in_flight.len() <= next.0@.width,
    {
        proof {
            use_type_invariant(&self);
        }
        let ghost before = self@;
        let Pipeline { width, tracks, started, mut in_flight, mut outcomes } = self;
        match event {
            PipelineEvent::Ready => {},
            PipelineEvent::Completed(outcome) => {
                proof {
                    lemma_accept(before, outcome);
                }
                match position(&in_flight, outcome.track_id()) {
                    Some(at) => {
                        let ghost flying = views(in_flight@);
                        assert(flying[at as int] == outcome.id());
                        assert(flying.index_of(outcome.id()) == at);
                        let _ = in_flight.remove(at);
                        outcomes.push(outcome);
                        assert(views(in_flight@) =~= flying.remove(at as int));
                    },
                    None => {
                        assert forall|j: int| 0 <= j < views(in_flight@).len() implies views(
                            in_flight@,
                        )[j] != outcome.id() by {
                            assert(in_flight@[j]@ != outcome.id());
                        }
                    },
                }
            },
        }
        let ghost accepted = PipelineModel {
            width: width as nat,
            waiting: tracks@.subrange(started as int, tracks@.len() as int),
            in_flight: views(in_flight@),
            outcomes: outcomes@,
        };
        proof {
            lemma_dispatch(accepted);
        }
        if started < tracks.len() && in_flight.len() < width {
            let track = tracks[started].clone();
            let ghost flying = views(in_flight@);
            in_flight.push(track.id.clone());
            assert(views(in_flight@) =~= flying.push(track.id@));
            assert(tracks@.subrange(started + 1, tracks@.len() as int) =~= accepted.waiting.drop_first());
            (
                Pipeline { width, tracks, started: started + 1, in_flight, outcomes },
                PipelineAction::Start(track),
            )
        } else if in_flight.len() > 0 {
            (Pipeline { width, tracks, started, in_flight, outcomes }, PipelineAction::Wait)
        } else {
            (Pipeline { width, tracks, started, in_flight, outcomes }, PipelineAction::Drained)
        }
    }

    /// The outcomes that have come in, in the order of their coming.
    pub fn into_outcomes(self) -> (outcomes: Vec<Outcome>)
        ensures
            outcomes@ == self@.outcomes,
    {
        self.outcomes
    }
}

} // verus!
