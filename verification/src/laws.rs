//! What holds of every run, proved from the definitions of its parts.

use vstd::prelude::*;
use crate::entities::{track_ids, Track};
use crate::item::{outcome_ids, Outcome};
use crate::ledger::appendable;
use crate::pending::{lemma_pending_of, pending_of};
use crate::pipeline::{lemma_accept, lemma_dispatch, PipelineEvent, PipelineModel};
use crate::sequences::lemma_push_no_duplicates;
use crate::summary::{lemma_counts_push, synced_ids, synced_of};
use crate::syncer::advance;

verus! {

/// The pending identifiers are the liked ones without the reconciled ones:
/// together with the liked ones that are reconciled they make up the liked
/// ones, and none of them is reconciled.
pub proof fn lemma_pending_is_difference(liked: Seq<Track>, reconciled: Set<Seq<char>>)
    ensures
        ({
            let all = track_ids(liked).to_set();
            let pending = track_ids(pending_of(liked, reconciled)).to_set();
            &&& pending == all.difference(reconciled)
            &&& pending.union(all.intersect(reconciled)) == all
            &&& pending.intersect(reconciled) == Set::<Seq<char>>::empty()
        }),
{
    let all = track_ids(liked).to_set();
    let pending = track_ids(pending_of(liked, reconciled)).to_set();
    lemma_pending_of(liked, reconciled);
    assert forall|id: Seq<char>| pending.contains(id) <==> all.difference(reconciled).contains(
        id,
    ) by {
        assert(track_ids(pending_of(liked, reconciled)).contains(id) <==> track_ids(
            liked,
        ).contains(id) && !reconciled.contains(id));
    }
    assert(pending =~= all.difference(reconciled));
    assert(pending.union(all.intersect(reconciled)) =~= all);
    assert(pending.intersect(reconciled) =~= Set::<Seq<char>>::empty());
}

/// Every step of the pipeline keeps it valid, keeps every track of the run,
/// and leaves at most as many tracks in flight as the width allows.
pub proof fn lemma_step_is_bounded(pipeline: PipelineModel, event: PipelineEvent)
    requires
        pipeline.valid(),
    ensures
        pipeline.step(event).0.valid(),
        pipeline.step(event).0.width == pipeline.width,
        pipeline.step(event).0.in_flight.len() <= pipeline.width,
        pipeline.step(event).0.items() == pipeline.items(),
{
    match event {
        PipelineEvent::Ready => {
            lemma_dispatch(pipeline);
        },
        PipelineEvent::Completed(outcome) => {
            lemma_accept(pipeline, outcome);
            lemma_dispatch(pipeline.accept(outcome));
        },
    }
}

/// Every step that starts a track or takes the outcome of a track in
/// flight brings the run nearer its end: no run goes on for ever.
pub proof fn lemma_step_makes_progress(pipeline: PipelineModel, event: PipelineEvent)
    requires
        pipeline.valid(),
    ensures
        pipeline.step(event).0.distance() <= pipeline.distance(),
        pipeline.step(event).1 is Start ==> pipeline.step(event).0.distance() < pipeline.distance(),
        event matches PipelineEvent::Completed(outcome) && pipeline.in_flight.contains(
            outcome.id(),
        ) ==> pipeline.step(event).0.distance() < pipeline.distance(),
        pipeline.step(event).1 is Drained <==> pipeline.step(event).0.drained(),
{
    match event {
        PipelineEvent::Ready => {
            lemma_dispatch(pipeline);
        },
        PipelineEvent::Completed(outcome) => {
            lemma_accept(pipeline, outcome);
            lemma_dispatch(pipeline.accept(outcome));
        },
    }
}

/// Once the pipeline has drained, every track of the run has its outcome,
/// and no track has two.
pub proof fn lemma_drained_has_every_outcome(pipeline: PipelineModel)
    requires
        pipeline.valid(),
        pipeline.drained(),
    ensures
        outcome_ids(pipeline.outcomes).to_set() == pipeline.items(),
        outcome_ids(pipeline.outcomes).no_duplicates(),
{
    assert(track_ids(pipeline.waiting).to_set() =~= Set::<Seq<char>>::empty());
    assert(pipeline.in_flight.to_set() =~= Set::<Seq<char>>::empty());
    assert(outcome_ids(pipeline.outcomes).to_set() =~= pipeline.items());
}

/// The synced identifiers are identifiers of outcomes, in their order: each
/// names the track of a synced outcome, and none is named twice where no
/// outcome is.
pub proof fn lemma_synced_ids(outcomes: Seq<Outcome>)
    ensures
        forall|id: Seq<char>| #[trigger]
            synced_ids(outcomes).contains(id) <==> exists|i: int|
                0 <= i < outcomes.len() && outcomes[i] is Synced && (#[trigger] outcomes[i]).id()
                    == id,
        outcome_ids(outcomes).no_duplicates() ==> synced_ids(outcomes).no_duplicates(),
    decreases outcomes.len(),
{
    if outcomes.len() == 0 {
        assert(synced_of(outcomes).len() == 0) by {
            reveal(Seq::filter);
        }
    } else {
        let head = outcomes.drop_last();
        let last = outcomes.last();
        lemma_synced_ids(head);
        lemma_counts_push(head, last);
        assert(head.push(last) =~= outcomes);
        let before = synced_ids(head);
        let now = synced_ids(outcomes);
        if last is Synced {
            assert(now =~= before.push(last.id()));
        }
        assert forall|id: Seq<char>| #[trigger]
            now.contains(id) <==> exists|i: int|
                0 <= i < outcomes.len() && outcomes[i] is Synced && (#[trigger] outcomes[i]).id()
                    == id by {
            if now.contains(id) {
                let k = choose|k: int| 0 <= k < now.len() && now[k] == id;
                if k < before.len() {
                    assert(before[k] == id);
                    assert(before.contains(id));
                    let i = choose|i: int|
                        0 <= i < head.len() && head[i] is Synced && (#[trigger] head[i]).id()
                            == id;
                    assert(outcomes[i] is Synced && outcomes[i].id() == id);
                } else {
                    assert(outcomes[outcomes.len() - 1] is Synced && outcomes[outcomes.len()
                        - 1].id() == id);
                }
            }
            if exists|i: int|
                0 <= i < outcomes.len() && outcomes[i] is Synced && (#[trigger] outcomes[i]).id()
                    == id {
                let i = choose|i: int|
                    0 <= i < outcomes.len() && outcomes[i] is Synced && (
                    #[trigger] outcomes[i]).id() == id;
                if i < head.len() {
                    assert(head[i] is Synced && head[i].id() == id);
                    assert(before.contains(id));
                    let k = choose|k: int| 0 <= k < before.len() && before[k] == id;
                    assert(now[k] == id);
                } else {
                    assert(now[now.len() - 1] == id);
                }
            }
        }
        if outcome_ids(outcomes).no_duplicates() {
            assert(outcome_ids(head) =~= outcome_ids(outcomes).drop_last());
            assert forall|a: int, b: int|
                0 <= a < outcome_ids(head).len() && 0 <= b < outcome_ids(head).len() && a
                    != b implies outcome_ids(head)[a] != outcome_ids(head)[b] by {
                assert(outcome_ids(outcomes)[a] != outcome_ids(outcomes)[b]);
            }
            if last is Synced {
                if before.contains(last.id()) {
                    let i = choose|i: int|
                        0 <= i < head.len() && head[i] is Synced && (#[trigger] head[i]).id()
                            == last.id();
                    assert(outcome_ids(outcomes)[i] == outcome_ids(outcomes)[outcomes.len() - 1]);
                }
                lemma_push_no_duplicates(before, last.id());
            }
        }
    }
}

/// A failure on one track stops nothing. Whatever the outcome of a track in
/// flight, the run goes on or goes to its commit; the tracks that wait
/// still wait, the outcomes that were there are still there, and the
/// identifiers that were to be committed still are.
pub proof fn lemma_failure_is_isolated(pipeline: PipelineModel, outcome: Outcome)
    requires
        pipeline.valid(),
        pipeline.in_flight.contains(outcome.id()),
    ensures
        ({
            let next = advance(pipeline, PipelineEvent::Completed(outcome));
            let after = pipeline.step(PipelineEvent::Completed(outcome)).0;
            &&& next.0 is Processing || next.0 is Committing
            &&& !(next.1 is Fail)
            &&& after.outcomes == pipeline.outcomes.push(outcome)
            &&& after.items() == pipeline.items()
            &&& forall|i: int|
                0 <= i < track_ids(after.waiting).len() ==> track_ids(pipeline.waiting).contains(
                    #[trigger] track_ids(after.waiting)[i],
                )
            &&& forall|id: Seq<char>| #[trigger]
                synced_ids(pipeline.outcomes).contains(id) ==> synced_ids(after.outcomes).contains(
                    id,
                )
        }),
{
    let accepted = pipeline.accept(outcome);
    let after = pipeline.step(PipelineEvent::Completed(outcome)).0;
    lemma_accept(pipeline, outcome);
    lemma_dispatch(accepted);
    lemma_counts_push(pipeline.outcomes, outcome);
    assert forall|i: int| 0 <= i < track_ids(after.waiting).len() implies track_ids(
        pipeline.waiting,
    ).contains(#[trigger] track_ids(after.waiting)[i]) by {
        if after.waiting == pipeline.waiting {
            assert(track_ids(pipeline.waiting)[i] == track_ids(after.waiting)[i]);
        } else {
            assert(track_ids(pipeline.waiting)[i + 1] == track_ids(after.waiting)[i]);
        }
    }
    assert forall|id: Seq<char>| #[trigger]
        synced_ids(pipeline.outcomes).contains(id) implies synced_ids(after.outcomes).contains(
        id,
    ) by {
        let before = synced_ids(pipeline.outcomes);
        let k = choose|k: int| 0 <= k < before.len() && before[k] == id;
        if outcome is Synced {
            assert(synced_ids(after.outcomes) =~= before.push(outcome.id()));
        }
        assert(synced_ids(after.outcomes)[k] == id);
    }
}

/// The batch of a run can always be appended to the ledger that the run
/// started from: where the tracks of the pipeline are the pending ones, the
/// synced identifiers name none twice and none that is reconciled.
pub proof fn lemma_batch_is_appendable(
    liked: Seq<Track>,
    reconciled: Set<Seq<char>>,
    pipeline: PipelineModel,
)
    requires
        pipeline.valid(),
        pipeline.items() == track_ids(pending_of(liked, reconciled)).to_set(),
    ensures
        appendable(reconciled, synced_ids(pipeline.outcomes)),
{
    let batch = synced_ids(pipeline.outcomes);
    lemma_synced_ids(pipeline.outcomes);
    lemma_pending_of(liked, reconciled);
    assert forall|i: int| 0 <= i < batch.len() implies !reconciled.contains(
        #[trigger] batch[i],
    ) by {
        assert(batch.contains(batch[i]));
        let k = choose|k: int|
            0 <= k < pipeline.outcomes.len() && pipeline.outcomes[k] is Synced && (
            #[trigger] pipeline.outcomes[k]).id() == batch[i];
        assert(outcome_ids(pipeline.outcomes)[k] == batch[i]);
        assert(outcome_ids(pipeline.outcomes).to_set().contains(batch[i]));
        assert(pipeline.items().contains(batch[i]));
        assert(track_ids(pending_of(liked, reconciled)).contains(batch[i]));
    }
}

/// A second run over the same liked tracks leaves out what the first one
/// synced: its pending identifiers are those of the first run without the
/// ones that were committed, so no track is synced twice.
pub proof fn lemma_synced_are_not_pending_again(
    liked: Seq<Track>,
    reconciled: Set<Seq<char>>,
    outcomes: Seq<Outcome>,
)
    ensures
        ({
            let committed = reconciled.union(synced_ids(outcomes).to_set());
            let first = track_ids(pending_of(liked, reconciled)).to_set();
            let second = track_ids(pending_of(liked, committed)).to_set();
            &&& second == first.difference(synced_ids(outcomes).to_set())
            &&& second.intersect(synced_ids(outcomes).to_set()) == Set::<Seq<char>>::empty()
        }),
{
    let committed = reconciled.union(synced_ids(outcomes).to_set());
    let first = track_ids(pending_of(liked, reconciled)).to_set();
    let second = track_ids(pending_of(liked, committed)).to_set();
    lemma_pending_is_difference(liked, reconciled);
    lemma_pending_is_difference(liked, committed);
    assert(second =~= first.difference(synced_ids(outcomes).to_set()));
    assert(second.intersect(synced_ids(outcomes).to_set()) =~= Set::<Seq<char>>::empty());
}

/// Where the first run synced every pending track, a second run over the
/// same liked tracks finds nothing pending and so syncs nothing.
pub proof fn lemma_second_run_is_idle(
    liked: Seq<Track>,
    reconciled: Set<Seq<char>>,
    outcomes: Seq<Outcome>,
)
    requires
        forall|i: int|
            0 <= i < pending_of(liked, reconciled).len() ==> synced_ids(outcomes).contains(
                #[trigger] track_ids(pending_of(liked, reconciled))[i],
            ),
    ensures
        pending_of(liked, reconciled.union(synced_ids(outcomes).to_set())).len() == 0,
{
    let committed = reconciled.union(synced_ids(outcomes).to_set());
    let again = pending_of(liked, committed);
    lemma_synced_are_not_pending_again(liked, reconciled, outcomes);
    if again.len() > 0 {
        let id = track_ids(again)[0];
        assert(track_ids(again).to_set().contains(id));
        assert(track_ids(pending_of(liked, reconciled)).to_set().contains(id));
        let i = choose|i: int|
            0 <= i < track_ids(pending_of(liked, reconciled)).len() && track_ids(
                pending_of(liked, reconciled),
            )[i] == id;
        assert(synced_ids(outcomes).contains(id));
        assert(synced_ids(outcomes).to_set().contains(id));
        assert(false);
    }
}

} // verus!
