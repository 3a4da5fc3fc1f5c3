//! Building the document tree of a catalog.
use vstd::prelude::*;
use vstd::string::*;
use crate::metadata::{Album, Artist, Track, albums_view, artists_view, tracks_view};
use crate::number::decimal;
use crate::schema::{is_album_node, is_artist_album, is_artist_node, is_catalog_tree, is_track_node};
use crate::tree::Node;

verus! {

/// The node of a track: `num`, then `name`, and the lyrics as text.
pub fn track_node(t: &Track) -> (n: Node)
    ensures
        is_track_node(n, t@),
{
    let mut attributes: Vec<(String, String)> = Vec::new();
    attributes.push((String::from_str("num"), decimal(t.track)));
    attributes.push((String::from_str("name"), t.title.clone()));
    Node {
        name: String::from_str("track"),
        attributes,
        children: Vec::new(),
        text: Some(t.lyrics.clone()),
    }
}

/// The node of an album: `title`, then the declared count as `tracks`, and
/// a child per track.
pub fn album_node(a: &Album) -> (n: Node)
    ensures
        is_album_node(n, a@),
{
    let mut attributes: Vec<(String, String)> = Vec::new();
    attributes.push((String::from_str("title"), a.title.clone()));
    attributes.push((String::from_str("tracks"), decimal(a.track_count)));
    let mut children: Vec<Node> = Vec::new();
    let mut i: usize = 0;
    while i < a.tracks.len()
        invariant
            i <= a.tracks@.len(),
            children@.len() == i,
            forall|k: int| 0 <= k < i ==> #[trigger] is_track_node(children@[k], tracks_view(a.tracks@)[k]),
        decreases a.tracks@.len() - i,
    {
        children.push(track_node(&a.tracks[i]));
        i = i + 1;
    }
    Node { name: String::from_str("album"), attributes, children, text: None }
}

/// The node of an artist: its `name`, and a child per album.
pub fn artist_node(a: &Artist) -> (n: Node)
    ensures
        is_artist_node(n, a@),
{
    let mut attributes: Vec<(String, String)> = Vec::new();
    attributes.push((String::from_str("name"), a.name.clone()));
    let mut children: Vec<Node> = Vec::new();
    let mut i: usize = 0;
    while i < a.albums.len()
        invariant
            i <= a.albums@.len(),
            children@.len() == i,
            forall|k: int| 0 <= k < i ==> #[trigger] is_album_node(children@[k], albums_view(a.albums@)[k]),
        decreases a.albums@.len() - i,
    {
        children.push(album_node(&a.albums[i]));
        i = i + 1;
    }
    let n = Node { name: String::from_str("artist"), attributes, children, text: None };
    assert forall|k: int| 0 <= k < a@.albums.len() implies #[trigger] is_artist_album(n, a@, k) by {
        assert(is_album_node(children@[k], albums_view(a.albums@)[k]));
    }
    n
}

/// The tree of a catalog: a `database` root and a child per artist.
pub fn catalog_tree(entries: &Vec<Artist>) -> (n: Node)
    ensures
        is_catalog_tree(n, artists_view(entries@)),
{
    let mut children: Vec<Node> = Vec::new();
    let mut i: usize = 0;
    while i < entries.len()
        invariant
            i <= entries@.len(),
            children@.len() == i,
            forall|k: int| 0 <= k < i ==> #[trigger] is_artist_node(children@[k], artists_view(entries@)[k]),
        decreases entries@.len() - i,
    {
        children.push(artist_node(&entries[i]));
        i = i + 1;
    }
    Node { name: String::from_str("database"), attributes: Vec::new(), children, text: None }
}

} // verus!
