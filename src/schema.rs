//! What loading a document tree yields, and what tree saving a catalog
//! builds, stated over plain values.
//!
//! The schema has three levels under a `database` root: `artist` nodes with
//! a `name`, `album` nodes with a `title` and a declared `tracks` count, and
//! track nodes with a `num` and a `name`, whose text is the lyrics.
//! Attributes are read in their order and the first one that is not allowed
//! stops the load. Two rules differ from level to level: the error for a
//! wrong attribute of an artist carries the attribute's value where the
//! other levels carry the tag name, and the tag name of a track node is not
//! checked, so any tag is read as a track.
use vstd::prelude::*;
use crate::error::ErrorView;
use crate::metadata::{AlbumView, ArtistView, TrackView};
use crate::number::{decimal_spec, parse_u8_spec};
use crate::order::sort_by_number;
use crate::scan::{collect, scan};
use crate::tree::Node;

verus! {

/// An attribute: its name and its value.
pub type Attribute = (String, String);

/// The lyrics a node's text gives: the text, or nothing.
pub open spec fn lyrics_of(text: Option<String>) -> Seq<char> {
    match text {
        Some(t) => t@,
        None => Seq::<char>::empty(),
    }
}

pub open spec fn empty_track() -> TrackView {
    TrackView { title: Seq::<char>::empty(), lyrics: Seq::<char>::empty(), track: 0 }
}

/// One attribute of a track node named `tag`.
pub open spec fn track_attribute(t: TrackView, attr: Attribute, tag: Seq<char>) -> Result<
    TrackView,
    ErrorView,
> {
    if attr.0@ == "name"@ {
        Ok(TrackView { title: attr.1@, ..t })
    } else if attr.0@ == "num"@ {
        match parse_u8_spec(attr.1@) {
            Some(n) => Ok(TrackView { track: n, ..t }),
            None => Err(ErrorView::InvalidAttribute(attr.0@, tag)),
        }
    } else {
        Err(ErrorView::InvalidAttribute(attr.0@, tag))
    }
}

pub open spec fn track_step(tag: Seq<char>) -> spec_fn(TrackView, Attribute) -> Result<
    TrackView,
    ErrorView,
> {
    |t: TrackView, attr: Attribute| track_attribute(t, attr, tag)
}

/// The track a node stands for. Its own tag name is not checked.
pub open spec fn track_of(node: Node) -> Result<TrackView, ErrorView> {
    match scan(node.attributes@, empty_track(), track_step(node.name@)) {
        Ok(t) => Ok(TrackView { lyrics: lyrics_of(node.text), ..t }),
        Err(e) => Err(e),
    }
}

pub open spec fn track_reader() -> spec_fn(Node) -> Result<TrackView, ErrorView> {
    |n: Node| track_of(n)
}

/// The tracks that a sequence of nodes stands for, in node order.
pub open spec fn tracks_of(nodes: Seq<Node>) -> Result<Seq<TrackView>, ErrorView> {
    scan(nodes, Seq::<TrackView>::empty(), collect(track_reader()))
}

pub open spec fn empty_album() -> AlbumView {
    AlbumView { title: Seq::<char>::empty(), track_count: 0, tracks: Seq::<TrackView>::empty() }
}

/// One attribute of an album node named `tag`.
pub open spec fn album_attribute(a: AlbumView, attr: Attribute, tag: Seq<char>) -> Result<
    AlbumView,
    ErrorView,
> {
    if attr.0@ == "title"@ {
        Ok(AlbumView { title: attr.1@, ..a })
    } else if attr.0@ == "tracks"@ {
        match parse_u8_spec(attr.1@) {
            Some(n) => Ok(AlbumView { track_count: n, ..a }),
            None => Err(ErrorView::InvalidAttribute(attr.0@, tag)),
        }
    } else {
        Err(ErrorView::InvalidAttribute(attr.0@, tag))
    }
}

pub open spec fn album_step(tag: Seq<char>) -> spec_fn(AlbumView, Attribute) -> Result<
    AlbumView,
    ErrorView,
> {
    |a: AlbumView, attr: Attribute| album_attribute(a, attr, tag)
}

/// The album a node stands for, its tracks sorted by number.
pub open spec fn album_of(node: Node) -> Result<AlbumView, ErrorView> {
    if node.name@ != "album"@ {
        Err(ErrorView::InvalidTag(node.name@))
    } else {
        match scan(node.attributes@, empty_album(), album_step(node.name@)) {
            Ok(a) => match tracks_of(node.children@) {
                Ok(ts) => Ok(AlbumView { tracks: sort_by_number(ts), ..a }),
                Err(e) => Err(e),
            },
            Err(e) => Err(e),
        }
    }
}

pub open spec fn album_reader() -> spec_fn(Node) -> Result<AlbumView, ErrorView> {
    |n: Node| album_of(n)
}

pub open spec fn albums_of(nodes: Seq<Node>) -> Result<Seq<AlbumView>, ErrorView> {
    scan(nodes, Seq::<AlbumView>::empty(), collect(album_reader()))
}

/// One attribute of an artist node: only `name` is allowed.
pub open spec fn artist_attribute(name: Seq<char>, attr: Attribute) -> Result<Seq<char>, ErrorView> {
    if attr.0@ == "name"@ {
        Ok(attr.1@)
    } else {
        Err(ErrorView::InvalidAttribute(attr.0@, attr.1@))
    }
}

pub open spec fn artist_step() -> spec_fn(Seq<char>, Attribute) -> Result<Seq<char>, ErrorView> {
    |name: Seq<char>, attr: Attribute| artist_attribute(name, attr)
}

/// The artist a node stands for.
pub open spec fn artist_of(node: Node) -> Result<ArtistView, ErrorView> {
    if node.name@ != "artist"@ {
        Err(ErrorView::InvalidTag(node.name@))
    } else if node.attributes@.len() == 0 {
        Err(ErrorView::MissingAttribute("name"@, node.name@))
    } else {
        match scan(node.attributes@, Seq::<char>::empty(), artist_step()) {
            Ok(name) => match albums_of(node.children@) {
                Ok(albums) => Ok(ArtistView { name, albums }),
                Err(e) => Err(e),
            },
            Err(e) => Err(e),
        }
    }
}

pub open spec fn artist_reader() -> spec_fn(Node) -> Result<ArtistView, ErrorView> {
    |n: Node| artist_of(n)
}

pub open spec fn artists_of(nodes: Seq<Node>) -> Result<Seq<ArtistView>, ErrorView> {
    scan(nodes, Seq::<ArtistView>::empty(), collect(artist_reader()))
}

/// What loading a document whose root is `root` yields: its artists in
/// document order, or the first failure met on the way.
pub open spec fn catalog_of(root: Option<Node>) -> Result<Seq<ArtistView>, ErrorView> {
    match root {
        None => Err(ErrorView::Empty),
        Some(r) => if r.name@ != "database"@ {
            Err(ErrorView::InvalidTag(r.name@))
        } else {
            artists_of(r.children@)
        },
    }
}

/// The node that saving writes for a track: `num`, then `name`, and the
/// lyrics as text.
pub open spec fn is_track_node(n: Node, t: TrackView) -> bool {
    &&& n.name@ == "track"@
    &&& n.attributes@.len() == 2
    &&& n.attributes@[0].0@ == "num"@
    &&& n.attributes@[0].1@ == decimal_spec(t.track)
    &&& n.attributes@[1].0@ == "name"@
    &&& n.attributes@[1].1@ == t.title
    &&& n.children@.len() == 0
    &&& n.text is Some
    &&& n.text->Some_0@ == t.lyrics
}

/// The node that saving writes for an album: `title`, then the declared
/// count as `tracks`, and one child per track.
pub open spec fn is_album_node(n: Node, a: AlbumView) -> bool {
    &&& n.name@ == "album"@
    &&& n.attributes@.len() == 2
    &&& n.attributes@[0].0@ == "title"@
    &&& n.attributes@[0].1@ == a.title
    &&& n.attributes@[1].0@ == "tracks"@
    &&& n.attributes@[1].1@ == decimal_spec(a.track_count)
    &&& n.text is None
    &&& n.children@.len() == a.tracks.len()
    &&& forall|i: int| 0 <= i < a.tracks.len() ==> #[trigger] is_track_node(n.children@[i], a.tracks[i])
}

/// The node that saving writes for an artist: its `name` and one child per
/// album.
pub open spec fn is_artist_node(n: Node, a: ArtistView) -> bool {
    &&& n.name@ == "artist"@
    &&& n.attributes@.len() == 1
    &&& n.attributes@[0].0@ == "name"@
    &&& n.attributes@[0].1@ == a.name
    &&& n.text is None
    &&& n.children@.len() == a.albums.len()
    &&& forall|i: int| 0 <= i < a.albums.len() ==> #[trigger] is_artist_album(n, a, i)
}

pub open spec fn is_artist_album(n: Node, a: ArtistView, i: int) -> bool {
    is_album_node(n.children@[i], a.albums[i])
}

/// The tree that saving writes for a catalog: a `database` root with one
/// child per artist.
pub open spec fn is_catalog_tree(n: Node, artists: Seq<ArtistView>) -> bool {
    &&& n.name@ == "database"@
    &&& n.attributes@.len() == 0
    &&& n.text is None
    &&& n.children@.len() == artists.len()
    &&& forall|i: int| 0 <= i < artists.len() ==> #[trigger] is_artist_node(n.children@[i], artists[i])
}

} // verus!
