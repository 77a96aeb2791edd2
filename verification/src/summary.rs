//! What a run reports at its end: how many tracks ended in which way, and
//! which identifiers go to the ledger.

use vstd::prelude::*;
use crate::item::{outcome_ids, Outcome};
use crate::sequences::lemma_filter_push;
use crate::text::views;

verus! {

/// The counts of a run. A track that the target catalog does not hold, or
/// on which the decision was refused, counts as skipped; a track on which a
/// call failed counts as failed.
#[derive(Clone, Copy, Debug, PartialEq, Eq, Structural)]
pub struct Summary {
    pub synced_count: usize,
    pub skipped_count: usize,
    pub failed_count: usize,
}

/// The counts of a run, and the identifiers that it reconciled.
#[derive(Debug, PartialEq, Eq)]
pub struct RunReport {
    pub summary: Summary,
    /// The identifiers of the synced tracks, for the ledger.
    pub synced: Vec<String>,
}

/// The outcomes of the tracks that were loved in the target catalog.
pub open spec fn synced_of(outcomes: Seq<Outcome>) -> Seq<Outcome> {
    outcomes.filter(|o: Outcome| o is Synced)
}

/// The outcomes of the tracks that were passed over: not found, or found
/// under several artists.
pub open spec fn skipped_of(outcomes: Seq<Outcome>) -> Seq<Outcome> {
    outcomes.filter(|o: Outcome| o is NotFound || o is Ambiguous)
}

/// The outcomes of the tracks on which a call failed.
pub open spec fn failed_of(outcomes: Seq<Outcome>) -> Seq<Outcome> {
    outcomes.filter(|o: Outcome| o is TransportFailure)
}

/// The identifiers of the synced tracks, in the order of their outcomes.
pub open spec fn synced_ids(outcomes: Seq<Outcome>) -> Seq<Seq<char>> {
    outcome_ids(synced_of(outcomes))
}

/// The three counts over one more outcome.
pub proof fn lemma_counts_push(outcomes: Seq<Outcome>, last: Outcome)
    ensures
        synced_of(outcomes.push(last)) == if last is Synced {
            synced_of(outcomes).push(last)
        } else {
            synced_of(outcomes)
        },
        skipped_of(outcomes.push(last)) == if last is NotFound || last is Ambiguous {
            skipped_of(outcomes).push(last)
        } else {
            skipped_of(outcomes)
        },
        failed_of(outcomes.push(last)) == if last is TransportFailure {
            failed_of(outcomes).push(last)
        } else {
            failed_of(outcomes)
        },
{
    lemma_filter_push(outcomes, last, |o: Outcome| o is Synced);
    lemma_filter_push(outcomes, last, |o: Outcome| o is NotFound || o is Ambiguous);
    lemma_filter_push(outcomes, last, |o: Outcome| o is TransportFailure);
}

/// Every outcome is counted once: as synced, as skipped or as failed.
pub proof fn lemma_counts_cover(outcomes: Seq<Outcome>)
    ensures
        synced_of(outcomes).len() + skipped_of(outcomes).len() + failed_of(outcomes).len()
            == outcomes.len(),
    decreases outcomes.len(),
{
    if outcomes.len() == 0 {
        assert(synced_of(outcomes).len() == 0 && skipped_of(outcomes).len() == 0 && failed_of(
            outcomes,
        ).len() == 0) by {
            reveal(Seq::filter);
        }
    } else {
        lemma_counts_cover(outcomes.drop_last());
        lemma_counts_push(outcomes.drop_last(), outcomes.last());
        assert(outcomes.drop_last().push(outcomes.last()) =~= outcomes);
    }
}

/// Counts the outcomes of a run and collects the identifiers of the synced
/// tracks, in the order of their outcomes.
pub fn summarize(outcomes: &Vec<Outcome>) -> (report: RunReport)
    ensures
        report.summary.synced_count == synced_of(outcomes@).len(),
        report.summary.skipped_count == skipped_of(outcomes@).len(),
        report.summary.failed_count == failed_of(outcomes@).len(),
        report.summary.synced_count + report.summary.skipped_count + report.summary.failed_count
            == outcomes@.len(),
        views(report.synced@) == synced_ids(outcomes@),
{
    let mut synced: Vec<String> = Vec::new();
    let mut synced_count: usize = 0;
    let mut skipped_count: usize = 0;
    let mut failed_count: usize = 0;
    let mut i: usize = 0;
    proof {
        assert(outcomes@.take(0) =~= Seq::<Outcome>::empty());
        lemma_counts_cover(outcomes@.take(0));
        assert(views(synced@) =~= synced_ids(outcomes@.take(0)));
    }
    while i < outcomes.len()
        invariant
            i <= outcomes@.len(),
            synced_count == synced_of(outcomes@.take(i as int)).len(),
            skipped_count == skipped_of(outcomes@.take(i as int)).len(),
            failed_count == failed_of(outcomes@.take(i as int)).len(),
            synced_count + skipped_count + failed_count == i,
            views(synced@) == synced_ids(outcomes@.take(i as int)),
        decreases outcomes@.len() - i,
    {
        let ghost seen = outcomes@.take(i as int);
        let ghost ids = views(synced@);
        proof {
            assert(outcomes@.take(i + 1) =~= seen.push(outcomes@[i as int]));
            lemma_counts_push(seen, outcomes@[i as int]);
        }
        match &outcomes[i] {
            Outcome::Synced(id) => {
                synced.push(id.clone());
                synced_count = synced_count + 1;
                assert(views(synced@) =~= ids.push(id@));
                assert(synced_ids(outcomes@.take(i + 1)) =~= synced_ids(seen).push(id@));
            },
            Outcome::NotFound(_) => {
                skipped_count = skipped_count + 1;
            },
            Outcome::Ambiguous(_, _) => {
                skipped_count = skipped_count + 1;
            },
            Outcome::TransportFailure(_, _) => {
                failed_count = failed_count + 1;
            },
        }
        i = i + 1;
    }
    assert(outcomes@.take(i as int) =~= outcomes@);
    RunReport { summary: Summary { synced_count, skipped_count, failed_count }, synced }
}

} // verus!
