//! Playlists by name: what is needed to refer to one and to point a browser
//! at it.

use vstd::prelude::*;
use vstd::string::*;

verus! {

/// A reference to a playlist: enough to name it and to ask for it again.
#[derive(Clone, Debug, PartialEq, Eq, Hash)]
pub struct PlaylistLink {
    pub id: String,
    pub name: String,
}

/// A playlist as the catalog describes it.
#[derive(Clone, Debug, PartialEq, Eq)]
pub struct Playlist {
    pub id: String,
    pub name: String,
    pub description: String,
    /// How many tracks the playlist holds.
    pub track_count: usize,
}

/// The heading of a playlist's track listing.
#[derive(Clone, Debug, PartialEq, Eq)]
pub struct PlaylistTracks {
    pub id: String,
    pub name: String,
}

/// The web address of the playlist with the identifier `id`.
pub open spec fn playlist_url(id: Seq<char>) -> Seq<char> {
    "https://open.spotify.com/playlist/"@ + id
}

impl Playlist {
    /// A reference to this playlist, under its identifier and name.
    pub fn link(&self) -> (link: PlaylistLink)
        ensures
            link == (PlaylistLink { id: self.id, name: self.name }),
    {
        PlaylistLink { id: self.id.clone(), name: self.name.clone() }
    }

    /// The address of this playlist on the web.
    pub fn url(&self) -> (url: String)
        ensures
            url@ == playlist_url(self.id@),
    {
        let mut url = String::from_str("https://open.spotify.com/playlist/");
        url.append(self.id.as_str());
        url
    }
}

impl PlaylistTracks {
    /// A reference to the playlist that these tracks belong to.
    pub fn link(&self) -> (link: PlaylistLink)
        ensures
            link == (PlaylistLink { id: self.id, name: self.name }),
    {
        PlaylistLink { id: self.id.clone(), name: self.name.clone() }
    }
}

} // verus!
