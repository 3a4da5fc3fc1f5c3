//! The domain model: artists own albums, albums own tracks.
use vstd::prelude::*;

verus! {

/// What a track is, as plain values.
pub struct TrackView {
    pub title: Seq<char>,
    pub lyrics: Seq<char>,
    pub track: u8,
}

/// What an album is, as plain values.
pub struct AlbumView {
    pub title: Seq<char>,
    pub track_count: u8,
    pub tracks: Seq<TrackView>,
}

/// What an artist is, as plain values.
pub struct ArtistView {
    pub name: Seq<char>,
    pub albums: Seq<AlbumView>,
}

/// A track of an album. Two tracks are equal when their titles are.
#[derive(Debug)]
pub struct Track {
    pub title: String,
    pub lyrics: String,
    /// The track number; it only decides the order of the tracks.
    pub track: u8,
}

/// An album. `track_count` is the count the document declared, which need
/// not be the number of `tracks`. Two albums are equal when their titles are.
#[derive(Debug)]
pub struct Album {
    pub title: String,
    pub track_count: u8,
    pub tracks: Vec<Track>,
}

/// An artist. Two artists are equal when their names are.
#[derive(Debug)]
pub struct Artist {
    pub name: String,
    pub albums: Vec<Album>,
}

pub open spec fn tracks_view(tracks: Seq<Track>) -> Seq<TrackView> {
    tracks.map_values(|t: Track| t@)
}

pub open spec fn albums_view(albums: Seq<Album>) -> Seq<AlbumView> {
    albums.map_values(|a: Album| a@)
}

pub open spec fn artists_view(artists: Seq<Artist>) -> Seq<ArtistView> {
    artists.map_values(|a: Artist| a@)
}

impl View for Track {
    type V = TrackView;

    open spec fn view(&self) -> TrackView {
        TrackView { title: self.title@, lyrics: self.lyrics@, track: self.track }
    }
}

impl View for Album {
    type V = AlbumView;

    open spec fn view(&self) -> AlbumView {
        AlbumView {
            title: self.title@,
            track_count: self.track_count,
            tracks: tracks_view(self.tracks@),
        }
    }
}

impl View for Artist {
    type V = ArtistView;

    open spec fn view(&self) -> ArtistView {
        ArtistView { name: self.name@, albums: albums_view(self.albums@) }
    }
}

impl Artist {
    /// An artist with an empty name and no albums.
    pub fn new() -> (r: Artist)
        ensures
            r.name@ == Seq::<char>::empty(),
            r.albums@.len() == 0,
    {
        Artist { name: String::new(), albums: Vec::new() }
    }

    /// The artist as a reader sees it: its name.
    pub fn to_string(&self) -> (r: String)
        ensures
            r@ == self.name@,
    {
        self.name.clone()
    }
}

impl Album {
    /// An album with an empty title, a declared count of zero and no tracks.
    pub fn new() -> (r: Album)
        ensures
            r.title@ == Seq::<char>::empty(),
            r.track_count == 0,
            r.tracks@.len() == 0,
    {
        Album { title: String::new(), track_count: 0, tracks: Vec::new() }
    }
}

impl Track {
    /// A track with number zero, an empty title and empty lyrics.
    pub fn new() -> (r: Track)
        ensures
            r.track == 0,
            r.lyrics@ == Seq::<char>::empty(),
            r.title@ == Seq::<char>::empty(),
    {
        Track { track: 0, lyrics: String::new(), title: String::new() }
    }
}

impl PartialEq for Artist {
    fn eq(&self, other: &Artist) -> (r: bool)
        ensures
            r == (self.name@ == other.name@),
    {
        self.name == other.name
    }
}

impl vstd::std_specs::cmp::PartialEqSpecImpl for Artist {
    open spec fn obeys_eq_spec() -> bool {
        true
    }

    open spec fn eq_spec(&self, other: &Artist) -> bool {
        self.name@ == other.name@
    }
}

impl PartialEq for Album {
    fn eq(&self, other: &Album) -> (r: bool)
        ensures
            r == (self.title@ == other.title@),
    {
        self.title == other.title
    }
}

impl vstd::std_specs::cmp::PartialEqSpecImpl for Album {
    open spec fn obeys_eq_spec() -> bool {
        true
    }

    open spec fn eq_spec(&self, other: &Album) -> bool {
        self.title@ == other.title@
    }
}

impl PartialEq for Track {
    fn eq(&self, other: &Track) -> (r: bool)
        ensures
            r == (self.title@ == other.title@),
    {
        self.title == other.title
    }
}

impl vstd::std_specs::cmp::PartialEqSpecImpl for Track {
    open spec fn obeys_eq_spec() -> bool {
        true
    }

    open spec fn eq_spec(&self, other: &Track) -> bool {
        self.title@ == other.title@
    }
}

impl Eq for Artist {
}

impl Eq for Album {
}

} // verus!
