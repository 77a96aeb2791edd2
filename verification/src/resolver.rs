//! Deciding whether a track exists in the target catalog from the few
//! candidates that a search for it returns.

use vstd::prelude::*;
use crate::entities::Track;
use crate::errors::Error;
use crate::text::{contains, first_occurrences, lemma_first_occurrences, lemma_one_distinct_member, views};

verus! {

/// How many candidates a search asks for. Two are enough to see whether the
/// catalog knows the title under more than one artist.
pub const CANDIDATE_LIMIT: u32 = 2;

/// One match that the target catalog returned for a search.
#[derive(Debug, PartialEq, Eq)]
pub struct Candidate {
    pub url: String,
    pub name: String,
    pub artist: String,
}

/// What is asked of the target catalog to verify a track.
#[derive(Debug, PartialEq, Eq)]
pub struct SearchQuery {
    pub artist: String,
    pub track: String,
    pub limit: u32,
}

/// The decision on a track.
#[derive(Debug, PartialEq, Eq)]
pub enum Resolution {
    /// The catalog holds the track.
    Found,
    /// The catalog returned no candidate.
    NotFound,
    /// The candidates belong to the artists named here, more than one: no
    /// guess is made between them.
    Ambiguous(Vec<String>),
}

/// The artist names of the candidates, in the same order.
pub open spec fn artists_of(candidates: Seq<Candidate>) -> Seq<Seq<char>> {
    candidates.map_values(|c: Candidate| c.artist@)
}

/// Whether every candidate is attributed to the same artist.
pub open spec fn share_one_artist(candidates: Seq<Candidate>) -> bool {
    forall|i: int|
        0 <= i < candidates.len() ==> (#[trigger] candidates[i]).artist@ == candidates[0].artist@
}

/// Two candidates share one artist just when their artist names are equal:
/// two of one artist are found, two of two artists are ambiguous.
pub proof fn lemma_two_candidates(first: Candidate, second: Candidate)
    ensures
        share_one_artist(seq![first, second]) <==> first.artist@ == second.artist@,
{
    let both = seq![first, second];
    assert(both[0] == first && both[1] == second);
    if first.artist@ == second.artist@ {
        assert forall|i: int| 0 <= i < both.len() implies (#[trigger] both[i]).artist@
            == both[0].artist@ by {}
    }
}

/// The strings joined by a separator.
pub open spec fn joined(parts: Seq<Seq<char>>, separator: Seq<char>) -> Seq<char>
    decreases parts.len(),
{
    if parts.len() == 0 {
        Seq::empty()
    } else if parts.len() == 1 {
        parts[0]
    } else {
        joined(parts.drop_last(), separator) + separator + parts.last()
    }
}

/// The words that report an ambiguity on a track between the named artists.
pub open spec fn ambiguity_text(track: Track, names: Seq<Seq<char>>) -> Seq<char> {
    "Multiple tracks found for "@ + track.name@ + " - "@ + track.artist.name@
        + " by different artists: "@ + joined(names, ", "@)
}

/// The search that verifies a track: by its artist and its title, for at
/// most `CANDIDATE_LIMIT` candidates.
pub fn search_query(track: &Track) -> (query: SearchQuery)
    ensures
        query.artist@ == track.artist.name@,
        query.track@ == track.name@,
        query.limit == CANDIDATE_LIMIT,
{
    SearchQuery {
        artist: track.artist.name.clone(),
        track: track.name.clone(),
        limit: CANDIDATE_LIMIT,
    }
}

/// The distinct artist names of the candidates, each at the place where it
/// first occurs.
pub fn distinct_artists(candidates: &Vec<Candidate>) -> (names: Vec<String>)
    ensures
        views(names@) == first_occurrences(artists_of(candidates@)),
{
    let mut names: Vec<String> = Vec::new();
    let mut i: usize = 0;
    assert(views(names@) =~= first_occurrences(artists_of(candidates@).take(0)));
    while i < candidates.len()
        invariant
            i <= candidates@.len(),
            views(names@) == first_occurrences(artists_of(candidates@).take(i as int)),
        decreases candidates@.len() - i,
    {
        let ghost all = artists_of(candidates@);
        let ghost kept = views(names@);
        assert(all.take(i + 1).drop_last() =~= all.take(i as int));
        assert(all.take(i + 1).last() == candidates@[i as int].artist@);
        if !contains(&names, &candidates[i].artist) {
            names.push(candidates[i].artist.clone());
            assert(views(names@) =~= kept.push(candidates@[i as int].artist@));
        }
        i = i + 1;
    }
    assert(artists_of(candidates@).take(i as int) =~= artists_of(candidates@));
    names
}

/// Decides on a track from the candidates of its search.
///
/// No candidate: the track is not in the catalog. One candidate, or several
/// that all name the same artist: it is. Candidates of more than one artist:
/// the decision is refused, and the artists are named.
pub fn resolve(candidates: &Vec<Candidate>) -> (decision: Resolution)
    ensures
        decision is NotFound <==> candidates@.len() == 0,
        decision is Found <==> candidates@.len() > 0 && share_one_artist(candidates@),
        decision is Ambiguous <==> candidates@.len() > 0 && !share_one_artist(candidates@),
        decision matches Resolution::Ambiguous(names) ==> {
            &&& views(names@) == first_occurrences(artists_of(candidates@))
            &&& names@.len() >= 2
        },
{
    if candidates.len() == 0 {
        return Resolution::NotFound;
    }
    let names = distinct_artists(candidates);
    proof {
        let all = artists_of(candidates@);
        lemma_first_occurrences(all);
        lemma_one_distinct_member(all);
        assert(all.contains(all[0]));
        assert(views(names@).len() == names@.len());
        if share_one_artist(candidates@) {
            assert forall|i: int| 0 <= i < all.len() implies #[trigger] all[i] == all[0] by {
                assert(candidates@[i].artist@ == candidates@[0].artist@);
            }
        }
        if forall|i: int| 0 <= i < all.len() ==> #[trigger] all[i] == all[0] {
            assert forall|i: int| 0 <= i < candidates@.len() implies (
            #[trigger] candidates@[i]).artist@ == candidates@[0].artist@ by {
                assert(all[i] == all[0]);
            }
        }
        if names@.len() == 0 {
            assert(!first_occurrences(all).contains(all[0]));
        }
    }
    if names.len() == 1 {
        Resolution::Found
    } else {
        Resolution::Ambiguous(names)
    }
}

/// The strings joined by ", ".
pub fn join_names(names: &Vec<String>) -> (text: String)
    ensures
        text@ == joined(views(names@), ", "@),
{
    let mut text = String::new();
    let mut i: usize = 0;
    assert(views(names@).take(0) =~= Seq::<Seq<char>>::empty());
    while i < names.len()
        invariant
            i <= names@.len(),
            text@ == joined(views(names@).take(i as int), ", "@),
        decreases names@.len() - i,
    {
        let ghost parts = views(names@);
        assert(parts.take(i + 1).drop_last() =~= parts.take(i as int));
        assert(parts.take(i + 1).last() == names@[i as int]@);
        if i > 0 {
            text.append(", ");
        } else {
            assert(parts.take(1)[0] == names@[0]@);
            assert(text@ + names@[0]@ =~= names@[0]@);
        }
        text.append(names[i].as_str());
        i = i + 1;
    }
    assert(views(names@).take(i as int) =~= views(names@));
    text
}

/// The report of an ambiguity: the track, and the artists between which no
/// guess was made.
pub fn ambiguity_detail(track: &Track, names: &Vec<String>) -> (text: String)
    ensures
        text@ == ambiguity_text(*track, views(names@)),
{
    let list = join_names(names);
    String::from_str("Multiple tracks found for ").concat(track.name.as_str()).concat(
        " - ",
    ).concat(track.artist.name.as_str()).concat(" by different artists: ").concat(list.as_str())
}

/// Whether the target catalog holds the track, given the candidates of its
/// search: yes or no where a decision is made, the failure that reports the
/// ambiguity where it is refused.
pub fn track_exists(track: &Track, candidates: &Vec<Candidate>) -> (exists: Result<bool, Error>)
    ensures
        exists == Ok::<bool, Error>(false) <==> candidates@.len() == 0,
        exists == Ok::<bool, Error>(true) <==> candidates@.len() > 0 && share_one_artist(
            candidates@,
        ),
        exists is Err ==> (exists matches Err(Error::LastFMUnexpectedResponse(detail))
            && detail@ == ambiguity_text(*track, first_occurrences(artists_of(candidates@)))),
{
    match resolve(candidates) {
        Resolution::NotFound => Ok(false),
        Resolution::Found => Ok(true),
        Resolution::Ambiguous(names) => Err(
            Error::LastFMUnexpectedResponse(ambiguity_detail(track, &names)),
        ),
    }
}

} // verus!
