//! The tracks that a run has to work on: those that are liked and not yet
//! reconciled, each once.

use vstd::prelude::*;
use crate::entities::{track_ids, Track};
use crate::ledger::Ledger;
use crate::sequences::lemma_push_no_duplicates;

verus! {

/// The liked tracks whose identifier is not among the reconciled ones, in
/// the order of the liked tracks. Of several tracks with one identifier
/// the first stands for all.
pub open spec fn pending_of(liked: Seq<Track>, reconciled: Set<Seq<char>>) -> Seq<Track>
    decreases liked.len(),
{
    if liked.len() == 0 {
        Seq::empty()
    } else {
        let before = pending_of(liked.drop_last(), reconciled);
        let track = liked.last();
        if reconciled.contains(track.id@) || track_ids(before).contains(track.id@) {
            before
        } else {
            before.push(track)
        }
    }
}

/// What `pending_of` keeps: it names no identifier twice, and an identifier
/// is named just when it is liked and not reconciled.
pub proof fn lemma_pending_of(liked: Seq<Track>, reconciled: Set<Seq<char>>)
    ensures
        track_ids(pending_of(liked, reconciled)).no_duplicates(),
        pending_of(liked, reconciled).len() <= liked.len(),
        forall|id: Seq<char>|
            #![trigger track_ids(pending_of(liked, reconciled)).contains(id)]
            track_ids(pending_of(liked, reconciled)).contains(id) <==> track_ids(liked).contains(
                id,
            ) && !reconciled.contains(id),
    decreases liked.len(),
{
    if liked.len() > 0 {
        let head = liked.drop_last();
        let track = liked.last();
        let before = pending_of(head, reconciled);
        let kept = pending_of(liked, reconciled);
        lemma_pending_of(head, reconciled);
        assert(track_ids(before).contains(track.id@) <==> track_ids(head).contains(track.id@)
            && !reconciled.contains(track.id@));
        assert(track_ids(liked)[liked.len() - 1] == track.id@);
        if kept != before {
            assert(track_ids(kept) =~= track_ids(before).push(track.id@));
        }
        assert forall|id: Seq<char>| #![trigger track_ids(kept).contains(id)]
            track_ids(kept).contains(id) <==> track_ids(liked).contains(id) && !reconciled.contains(
                id,
            ) by {
            assert(track_ids(before).contains(id) <==> track_ids(head).contains(id)
                && !reconciled.contains(id));
            if track_ids(head).contains(id) {
                let i = choose|i: int| 0 <= i < head.len() && track_ids(head)[i] == id;
                assert(track_ids(liked)[i] == id);
            }
            if track_ids(liked).contains(id) {
                let i = choose|i: int| 0 <= i < liked.len() && track_ids(liked)[i] == id;
                if i < liked.len() - 1 {
                    assert(track_ids(head)[i] == id);
                }
            }
            if kept != before {
                let ids = track_ids(before);
                if ids.contains(id) {
                    let k = choose|k: int| 0 <= k < ids.len() && ids[k] == id;
                    assert(ids.push(track.id@)[k] == id);
                }
                assert(ids.push(track.id@)[ids.len() as int] == track.id@);
                if ids.push(track.id@).contains(id) {
                    let k = choose|k: int|
                        0 <= k < ids.push(track.id@).len() && ids.push(track.id@)[k] == id;
                    if k < ids.len() {
                        assert(ids[k] == id);
                    }
                }
            }
        }
        if kept != before {
            lemma_push_no_duplicates(track_ids(before), track.id@);
        }
    }
}

/// The tracks that a run works on. No identifier is named twice.
#[derive(Debug)]
pub struct Pending {
    tracks: Vec<Track>,
}

impl Pending {
    #[verifier::type_invariant]
    spec fn well_formed(self) -> bool {
        track_ids(self.tracks@).no_duplicates()
    }

    /// The tracks, in the order in which they will be started.
    pub closed spec fn view(&self) -> Seq<Track> {
        self.tracks@
    }

    /// How many tracks there are.
    pub fn len(&self) -> (n: usize)
        ensures
            n == self@.len(),
    {
        self.tracks.len()
    }

    /// Whether there is nothing to do.
    pub fn is_empty(&self) -> (empty: bool)
        ensures
            empty <==> self@.len() == 0,
    {
        self.tracks.len() == 0
    }

    /// The tracks, in order.
    pub fn into_tracks(self) -> (tracks: Vec<Track>)
        ensures
            tracks@ == self@,
            track_ids(tracks@).no_duplicates(),
    {
        proof {
            use_type_invariant(&self);
        }
        self.tracks
    }
}

/// Whether one of the tracks has the identifier.
pub fn names_id(tracks: &Vec<Track>, id: &String) -> (named: bool)
    ensures
        named <==> track_ids(tracks@).contains(id@),
{
    let mut i: usize = 0;
    while i < tracks.len()
        invariant
            i <= tracks@.len(),
            forall|j: int| 0 <= j < i ==> tracks@[j].id@ != id@,
        decreases tracks@.len() - i,
    {
        if tracks[i].id == *id {
            assert(track_ids(tracks@)[i as int] == id@);
            return true;
        }
        i = i + 1;
    }
    assert forall|j: int| 0 <= j < track_ids(tracks@).len() implies track_ids(tracks@)[j]
        != id@ by {
        assert(tracks@[j].id@ != id@);
    }
    false
}

/// The difference of the liked tracks and the ledger: the tracks that a run
/// has to work on.
pub fn pending_tracks(liked: &Vec<Track>, ledger: &Ledger) -> (pending: Pending)
    ensures
        pending@ == pending_of(liked@, ledger@),
{
    let mut tracks: Vec<Track> = Vec::new();
    let mut i: usize = 0;
    assert(liked@.take(0) =~= Seq::<Track>::empty());
    while i < liked.len()
        invariant
            i <= liked@.len(),
            tracks@ == pending_of(liked@.take(i as int), ledger@),
        decreases liked@.len() - i,
    {
        assert(liked@.take(i + 1).drop_last() =~= liked@.take(i as int));
        assert(liked@.take(i + 1).last() == liked@[i as int]);
        if !ledger.contains(&liked[i].id) && !names_id(&tracks, &liked[i].id) {
            tracks.push(liked[i].clone());
        }
        i = i + 1;
    }
    assert(liked@.take(i as int) =~= liked@);
    proof {
        lemma_pending_of(liked@, ledger@);
    }
    Pending { tracks }
}

} // verus!
