//! What loading guarantees of the catalogs it yields, and why saving a
//! loaded catalog and loading it again gives the same catalog.
use vstd::prelude::*;
use crate::error::ErrorView;
use crate::metadata::{AlbumView, ArtistView, TrackView};
use crate::number::lemma_decimal_round_trip;
use crate::order::{
    is_sorted_by_number, lemma_sort_is_permutation, lemma_sort_is_sorted, lemma_sort_is_stable, lemma_sort_keeps_sorted, numbered,
};
use crate::scan::{lemma_collect, scan};
use crate::schema::{
    album_attribute, album_of, album_reader, album_step, artist_of, artist_reader, catalog_of,
    empty_album, empty_track, is_album_node, is_artist_album, is_artist_node, is_catalog_tree,
    is_track_node, track_attribute, track_of, track_reader, track_step, tracks_of,
};
use crate::tree::Node;

verus! {

/// Every album of `artists` has its tracks in order of number.
pub open spec fn albums_sorted(artists: Seq<ArtistView>) -> bool {
    forall|i: int, j: int|
        0 <= i < artists.len() && 0 <= j < artists[i].albums.len() ==> is_sorted_by_number(
            #[trigger] artists[i].albums[j].tracks,
        )
}

/// The tracks of every album that loading yields are in order of number.
pub proof fn lemma_loaded_albums_sorted(root: Option<Node>, artists: Seq<ArtistView>)
    requires
        catalog_of(root) == Ok::<_, ErrorView>(artists),
    ensures
        albums_sorted(artists),
{
    let r = root->Some_0;
    lemma_collect(r.children@, artist_reader(), artists);
    assert forall|i: int, j: int|
        0 <= i < artists.len() && 0 <= j < artists[i].albums.len() implies is_sorted_by_number(
        #[trigger] artists[i].albums[j].tracks,
    ) by {
        let n = r.children@[i];
        assert(artist_reader()(n) == Ok::<_, ErrorView>(artists[i]));
        lemma_collect(n.children@, album_reader(), artists[i].albums);
        let m = n.children@[j];
        assert(album_reader()(m) == Ok::<_, ErrorView>(artists[i].albums[j]));
        lemma_sort_is_sorted(tracks_of(m.children@)->Ok_0);
    }
}

/// The tracks of an album whose track nodes already come in order of number
/// are kept in that order.
pub proof fn lemma_sorted_input_kept(node: Node, tracks: Seq<TrackView>)
    requires
        album_of(node) is Ok,
        tracks_of(node.children@) == Ok::<_, ErrorView>(tracks),
        is_sorted_by_number(tracks),
    ensures
        album_of(node)->Ok_0.tracks == tracks,
{
    lemma_sort_keeps_sorted(tracks);
}

/// Loading sorts the tracks of an album stably: the tracks with one number
/// keep the order of their nodes.
pub proof fn lemma_album_order_stable(node: Node, tracks: Seq<TrackView>, k: u8)
    requires
        album_of(node) is Ok,
        tracks_of(node.children@) == Ok::<_, ErrorView>(tracks),
    ensures
        numbered(album_of(node)->Ok_0.tracks, k) == numbered(tracks, k),
{
    lemma_sort_is_stable(tracks, k);
}

/// Loading keeps every track of an album: it only changes their order.
pub proof fn lemma_album_keeps_tracks(node: Node, tracks: Seq<TrackView>)
    requires
        album_of(node) is Ok,
        tracks_of(node.children@) == Ok::<_, ErrorView>(tracks),
    ensures
        album_of(node)->Ok_0.tracks.to_multiset() =~= tracks.to_multiset(),
{
    lemma_sort_is_permutation(tracks);
}

proof fn lemma_track_node_reads(n: Node, t: TrackView)
    requires
        is_track_node(n, t),
    ensures
        track_of(n) == Ok::<_, ErrorView>(t),
{
    reveal_with_fuel(scan, 3);
    reveal_strlit("name");
    reveal_strlit("num");
    lemma_decimal_round_trip(t.track);
    let attrs = n.attributes@;
    assert(attrs.drop_last().drop_last() =~= Seq::<(String, String)>::empty());
    assert(attrs.drop_last().last() == attrs[0]);
    assert(attrs.last() == attrs[1]);
    let step = track_step(n.name@);
    assert(scan(attrs.drop_last().drop_last(), empty_track(), step) == Ok::<_, ErrorView>(empty_track()));
    assert("num"@.len() != "name"@.len());
    let t1 = TrackView { track: t.track, ..empty_track() };
    assert(track_attribute(empty_track(), attrs[0], n.name@) == Ok::<_, ErrorView>(t1));
    assert(scan(attrs.drop_last(), empty_track(), step) == Ok::<_, ErrorView>(t1));
    let t2 = TrackView { title: t.title, ..t1 };
    assert(track_attribute(t1, attrs[1], n.name@) == Ok::<_, ErrorView>(t2));
    assert(scan(attrs, empty_track(), step) == Ok::<_, ErrorView>(t2));
}

proof fn lemma_album_node_reads(n: Node, a: AlbumView)
    requires
        is_album_node(n, a),
        is_sorted_by_number(a.tracks),
    ensures
        album_of(n) == Ok::<_, ErrorView>(a),
{
    reveal_with_fuel(scan, 3);
    reveal_strlit("title");
    reveal_strlit("tracks");
    lemma_decimal_round_trip(a.track_count);
    let attrs = n.attributes@;
    assert(attrs.drop_last().drop_last() =~= Seq::<(String, String)>::empty());
    assert(attrs.drop_last().last() == attrs[0]);
    assert(attrs.last() == attrs[1]);
    let step = album_step(n.name@);
    assert(scan(attrs.drop_last().drop_last(), empty_album(), step) == Ok::<_, ErrorView>(empty_album()));
    let a1 = AlbumView { title: a.title, ..empty_album() };
    assert(album_attribute(empty_album(), attrs[0], n.name@) == Ok::<_, ErrorView>(a1));
    assert(scan(attrs.drop_last(), empty_album(), step) == Ok::<_, ErrorView>(a1));
    assert("tracks"@[1] != "title"@[1]);
    let a2 = AlbumView { track_count: a.track_count, ..a1 };
    assert(album_attribute(a1, attrs[1], n.name@) == Ok::<_, ErrorView>(a2));
    assert(scan(attrs, empty_album(), step) == Ok::<_, ErrorView>(a2));
    assert forall|i: int| 0 <= i < n.children@.len() implies #[trigger] track_reader()(
        n.children@[i],
    ) == Ok::<_, ErrorView>(a.tracks[i]) by {
        lemma_track_node_reads(n.children@[i], a.tracks[i]);
    }
    lemma_collect(n.children@, track_reader(), a.tracks);
    lemma_sort_keeps_sorted(a.tracks);
}

proof fn lemma_artist_node_reads(n: Node, a: ArtistView)
    requires
        is_artist_node(n, a),
        forall|j: int| 0 <= j < a.albums.len() ==> is_sorted_by_number(#[trigger] a.albums[j].tracks),
    ensures
        artist_of(n) == Ok::<_, ErrorView>(a),
{
    reveal_with_fuel(scan, 2);
    reveal_strlit("name");
    let attrs = n.attributes@;
    assert(attrs.drop_last() =~= Seq::<(String, String)>::empty());
    assert(attrs.last() == attrs[0]);
    assert forall|j: int| 0 <= j < n.children@.len() implies #[trigger] album_reader()(
        n.children@[j],
    ) == Ok::<_, ErrorView>(a.albums[j]) by {
        assert(is_artist_album(n, a, j));
        lemma_album_node_reads(n.children@[j], a.albums[j]);
    }
    lemma_collect(n.children@, album_reader(), a.albums);
}

/// Saving a catalog that loading produced and loading the saved tree gives
/// the same catalog back: the same artists, albums, declared counts and
/// tracks, in the same order.
pub proof fn lemma_save_then_load(root: Option<Node>, artists: Seq<ArtistView>, tree: Node)
    requires
        catalog_of(root) == Ok::<_, ErrorView>(artists),
        is_catalog_tree(tree, artists),
    ensures
        catalog_of(Some(tree)) == Ok::<_, ErrorView>(artists),
{
    reveal_strlit("database");
    lemma_loaded_albums_sorted(root, artists);
    assert forall|i: int| 0 <= i < tree.children@.len() implies #[trigger] artist_reader()(
        tree.children@[i],
    ) == Ok::<_, ErrorView>(artists[i]) by {
        assert forall|j: int| 0 <= j < artists[i].albums.len() implies is_sorted_by_number(
            #[trigger] artists[i].albums[j].tracks,
        ) by {}
        lemma_artist_node_reads(tree.children@[i], artists[i]);
    }
    lemma_collect(tree.children@, artist_reader(), artists);
}

} // verus!
