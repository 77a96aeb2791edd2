//! The value objects that a reconciliation pass works on.

use vstd::prelude::*;

verus! {

/// The performer a track is attributed to.
#[derive(Debug, PartialEq, Eq)]
pub struct Artist {
    pub name: String,
}

/// One item of a catalog: an identifier that is stable in the source
/// catalog, a display name, and the single artist it is attributed to.
#[derive(Debug, PartialEq, Eq)]
pub struct Track {
    pub id: String,
    pub name: String,
    pub artist: Artist,
}

/// What the source catalog reports for one liked item, before it is known
/// whether the item can be reconciled at all.
#[derive(Debug, PartialEq, Eq)]
pub struct SavedTrack {
    /// Absent for items that the source catalog holds only locally.
    pub id: Option<String>,
    pub name: String,
    /// The names of the artists, in the catalog's order.
    pub artists: Vec<String>,
}

impl Clone for Artist {
    fn clone(&self) -> (copy: Self)
        ensures
            copy == *self,
    {
        Artist { name: self.name.clone() }
    }
}

impl Clone for Track {
    fn clone(&self) -> (copy: Self)
        ensures
            copy == *self,
    {
        Track { id: self.id.clone(), name: self.name.clone(), artist: self.artist.clone() }
    }
}

impl Track {
    /// A track from its three parts.
    pub fn new(id: String, name: String, artist: String) -> (track: Track)
        ensures
            track.id == id,
            track.name == name,
            track.artist.name == artist,
    {
        Track { id, name, artist: Artist { name: artist } }
    }

    /// The track that stands for a saved item: its identifier, its name and
    /// the first of its artists. An item without an identifier or without
    /// any artist cannot be reconciled and yields nothing.
    pub fn from_saved(saved: SavedTrack) -> (track: Option<Track>)
        ensures
            track.is_some() <==> saved.id.is_some() && saved.artists@.len() > 0,
            track.is_some() ==> {
                &&& track.unwrap().id == saved.id.unwrap()
                &&& track.unwrap().name == saved.name
                &&& track.unwrap().artist.name == saved.artists@[0]
            },
    {
        let SavedTrack { id, name, artists } = saved;
        match id {
            None => None,
            Some(id) => {
                if artists.len() == 0 {
                    None
                } else {
                    let artist = artists[0].clone();
                    Some(Track { id, name, artist: Artist { name: artist } })
                }
            },
        }
    }
}

/// The identifiers of a sequence of tracks, in the same order.
pub open spec fn track_ids(tracks: Seq<Track>) -> Seq<Seq<char>> {
    tracks.map_values(|t: Track| t.id@)
}

} // verus!
