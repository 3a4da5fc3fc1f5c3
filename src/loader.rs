//! Reading a catalog out of a document tree, level by level.
use vstd::prelude::*;
use vstd::string::*;
use crate::error::{DatabaseError, ErrorView};
use crate::metadata::{Album, AlbumView, Artist, ArtistView, Track, TrackView, albums_view, artists_view, tracks_view};
use crate::order::sort_by_number;
use crate::number::parse_u8;
use crate::order::sort_tracks;
use crate::scan::{collect, lemma_scan_all, lemma_scan_next, lemma_scan_stops, scan};
use crate::schema::{Attribute, album_of, album_step, artist_of, artist_step, catalog_of, empty_album, empty_track, album_reader, artist_reader, track_reader, track_of, track_step, tracks_of};
use crate::tree::Node;

verus! {

/// `r` is what `s` says, value for value.
pub open spec fn agrees<T: View>(r: Result<T, DatabaseError>, s: Result<T::V, ErrorView>) -> bool {
    match r {
        Ok(x) => s is Ok && x@ == s->Ok_0,
        Err(e) => s is Err && e@ == s->Err_0,
    }
}

/// `r` is the list of artists, or the failure, that `s` says.
pub open spec fn agrees_catalog(
    r: Result<Vec<Artist>, DatabaseError>,
    s: Result<Seq<ArtistView>, ErrorView>,
) -> bool {
    match r {
        Ok(x) => s is Ok && artists_view(x@) == s->Ok_0,
        Err(e) => s is Err && e@ == s->Err_0,
    }
}

fn invalid_attribute(attr: &String, tag: &String) -> (r: DatabaseError)
    ensures
        r@ == ErrorView::InvalidAttribute(attr@, tag@),
{
    DatabaseError::InvalidAttribute((attr.clone(), tag.clone()))
}

/// Reads a track node: `name` gives the title, `num` the number, the text
/// the lyrics.
pub fn read_track(node: &Node) -> (r: Result<Track, DatabaseError>)
    ensures
        agrees(r, track_of(*node)),
{
    let ghost attrs = node.attributes@;
    let ghost step = track_step(node.name@);
    let name_key = String::from_str("name");
    let num_key = String::from_str("num");
    let mut track = Track::new();
    let mut i: usize = 0;
    assert(attrs.take(0) =~= Seq::<Attribute>::empty());
    while i < node.attributes.len()
        invariant
            i <= attrs.len(),
            attrs == node.attributes@,
            step == track_step(node.name@),
            name_key@ == "name"@,
            num_key@ == "num"@,
            track.lyrics@ == Seq::<char>::empty(),
            scan(attrs.take(i as int), empty_track(), step) == Ok::<_, ErrorView>(track@),
        decreases attrs.len() - i,
    {
        let attr = &node.attributes[i];
        proof {
            lemma_scan_next(attrs, empty_track(), step, i as int);
        }
        if attr.0 == name_key {
            track.title = attr.1.clone();
        } else if attr.0 == num_key {
            match parse_u8(attr.1.as_str()) {
                Some(n) => track.track = n,
                None => {
                    proof {
                        lemma_scan_stops(attrs, empty_track(), step, i + 1);
                    }
                    return Err(invalid_attribute(&attr.0, &node.name));
                },
            }
        } else {
            proof {
                lemma_scan_stops(attrs, empty_track(), step, i + 1);
            }
            return Err(invalid_attribute(&attr.0, &node.name));
        }
        i = i + 1;
    }
    proof {
        lemma_scan_all(attrs, empty_track(), step);
    }
    match &node.text {
        Some(text) => track.lyrics = text.clone(),
        None => {},
    }
    Ok(track)
}

/// Reads the track nodes under an album node, in order, and sorts them by
/// number.
fn read_tracks(nodes: &Vec<Node>) -> (r: Result<Vec<Track>, DatabaseError>)
    ensures
        match tracks_of(nodes@) {
            Ok(ts) => r is Ok && tracks_view(r->Ok_0@) == sort_by_number(ts),
            Err(e) => r is Err && r->Err_0@ == e,
        },
{
    let ghost step = collect(track_reader());
    let mut tracks: Vec<Track> = Vec::new();
    let mut i: usize = 0;
    assert(nodes@.take(0) =~= Seq::<Node>::empty());
    assert(tracks_view(tracks@) =~= Seq::<TrackView>::empty());
    while i < nodes.len()
        invariant
            i <= nodes@.len(),
            step == collect(track_reader()),
            scan(nodes@.take(i as int), Seq::<TrackView>::empty(), step) == Ok::<_, ErrorView>(
                tracks_view(tracks@),
            ),
        decreases nodes@.len() - i,
    {
        proof {
            lemma_scan_next(nodes@, Seq::<TrackView>::empty(), step, i as int);
        }
        match read_track(&nodes[i]) {
            Ok(t) => {
                let ghost before = tracks_view(tracks@);
                tracks.push(t);
                assert(tracks_view(tracks@) =~= before.push(t@));
            },
            Err(e) => {
                proof {
                    lemma_scan_stops(nodes@, Seq::<TrackView>::empty(), step, i + 1);
                }
                return Err(e);
            },
        }
        i = i + 1;
    }
    proof {
        lemma_scan_all(nodes@, Seq::<TrackView>::empty(), step);
    }
    Ok(sort_tracks(tracks))
}

/// Reads an album node: its tag must be `album`; `title` gives the title,
/// `tracks` the declared count; its children are its tracks.
pub fn read_album(node: &Node) -> (r: Result<Album, DatabaseError>)
    ensures
        agrees(r, album_of(*node)),
{
    let album_tag = String::from_str("album");
    if node.name != album_tag {
        return Err(DatabaseError::InvalidTag(node.name.clone()));
    }
    let ghost attrs = node.attributes@;
    let ghost step = album_step(node.name@);
    let title_key = String::from_str("title");
    let tracks_key = String::from_str("tracks");
    let mut album = Album::new();
    let mut i: usize = 0;
    assert(attrs.take(0) =~= Seq::<Attribute>::empty());
    assert(tracks_view(album.tracks@) =~= Seq::<TrackView>::empty());
    while i < node.attributes.len()
        invariant
            i <= attrs.len(),
            attrs == node.attributes@,
            step == album_step(node.name@),
            title_key@ == "title"@,
            node.name@ == "album"@,
            tracks_key@ == "tracks"@,
            album.tracks@.len() == 0,
            scan(attrs.take(i as int), empty_album(), step) == Ok::<_, ErrorView>(album@),
        decreases attrs.len() - i,
    {
        let attr = &node.attributes[i];
        proof {
            lemma_scan_next(attrs, empty_album(), step, i as int);
        }
        if attr.0 == title_key {
            album.title = attr.1.clone();
        } else if attr.0 == tracks_key {
            match parse_u8(attr.1.as_str()) {
                Some(n) => album.track_count = n,
                None => {
                    proof {
                        lemma_scan_stops(attrs, empty_album(), step, i + 1);
                    }
                    return Err(invalid_attribute(&attr.0, &node.name));
                },
            }
        } else {
            proof {
                lemma_scan_stops(attrs, empty_album(), step, i + 1);
            }
            return Err(invalid_attribute(&attr.0, &node.name));
        }
        assert(tracks_view(album.tracks@) =~= Seq::<TrackView>::empty());
        i = i + 1;
    }
    proof {
        lemma_scan_all(attrs, empty_album(), step);
    }
    album.tracks = read_tracks(&node.children)?;
    Ok(album)
}

/// Reads an artist node: its tag must be `artist`, it must carry
/// attributes and `name` is the only one allowed; its children are its
/// albums.
pub fn read_artist(node: &Node) -> (r: Result<Artist, DatabaseError>)
    ensures
        agrees(r, artist_of(*node)),
{
    let artist_tag = String::from_str("artist");
    if node.name != artist_tag {
        return Err(DatabaseError::InvalidTag(node.name.clone()));
    }
    if node.attributes.len() == 0 {
        return Err(DatabaseError::MissingAttribute((String::from_str("name"), node.name.clone())));
    }
    let ghost attrs = node.attributes@;
    let name_key = String::from_str("name");
    let mut artist = Artist::new();
    let mut i: usize = 0;
    assert(attrs.take(0) =~= Seq::<Attribute>::empty());
    while i < node.attributes.len()
        invariant
            i <= attrs.len(),
            attrs == node.attributes@,
            name_key@ == "name"@,
            node.name@ == "artist"@,
            attrs.len() > 0,
            artist.albums@.len() == 0,
            scan(attrs.take(i as int), Seq::<char>::empty(), artist_step()) == Ok::<_, ErrorView>(
                artist.name@,
            ),
        decreases attrs.len() - i,
    {
        let attr = &node.attributes[i];
        proof {
            lemma_scan_next(attrs, Seq::<char>::empty(), artist_step(), i as int);
        }
        if attr.0 == name_key {
            artist.name = attr.1.clone();
        } else {
            proof {
                lemma_scan_stops(attrs, Seq::<char>::empty(), artist_step(), i + 1);
            }
            return Err(invalid_attribute(&attr.0, &attr.1));
        }
        i = i + 1;
    }
    proof {
        lemma_scan_all(attrs, Seq::<char>::empty(), artist_step());
    }
    let ghost step = collect(album_reader());
    let mut albums: Vec<Album> = Vec::new();
    let mut j: usize = 0;
    assert(node.children@.take(0) =~= Seq::<Node>::empty());
    assert(albums_view(albums@) =~= Seq::<AlbumView>::empty());
    while j < node.children.len()
        invariant
            j <= node.children@.len(),
            node.name@ == "artist"@,
            attrs == node.attributes@,
            attrs.len() > 0,
            scan(attrs, Seq::<char>::empty(), artist_step()) == Ok::<_, ErrorView>(artist.name@),
            step == collect(album_reader()),
            scan(node.children@.take(j as int), Seq::<AlbumView>::empty(), step) == Ok::<
                _,
                ErrorView,
            >(albums_view(albums@)),
        decreases node.children@.len() - j,
    {
        proof {
            lemma_scan_next(node.children@, Seq::<AlbumView>::empty(), step, j as int);
        }
        match read_album(&node.children[j]) {
            Ok(a) => {
                let ghost before = albums_view(albums@);
                albums.push(a);
                assert(albums_view(albums@) =~= before.push(a@));
            },
            Err(e) => {
                proof {
                    lemma_scan_stops(node.children@, Seq::<AlbumView>::empty(), step, j + 1);
                }
                return Err(e);
            },
        }
        j = j + 1;
    }
    proof {
        lemma_scan_all(node.children@, Seq::<AlbumView>::empty(), step);
    }
    artist.albums = albums;
    Ok(artist)
}

/// Reads the artists of a document whose root is `root`: the root must be
/// there and be a `database` node; its children are the artists.
pub fn read_catalog(root: Option<&Node>) -> (r: Result<Vec<Artist>, DatabaseError>)
    ensures
        agrees_catalog(r, catalog_of(
            match root {
                Some(n) => Some(*n),
                None => None,
            },
        )),
{
    let node = match root {
        Some(n) => n,
        None => return Err(DatabaseError::Empty),
    };
    let database_tag = String::from_str("database");
    if node.name != database_tag {
        return Err(DatabaseError::InvalidTag(node.name.clone()));
    }
    let ghost step = collect(artist_reader());
    let mut artists: Vec<Artist> = Vec::new();
    let mut i: usize = 0;
    assert(node.children@.take(0) =~= Seq::<Node>::empty());
    assert(artists_view(artists@) =~= Seq::<ArtistView>::empty());
    while i < node.children.len()
        invariant
            i <= node.children@.len(),
            node.name@ == "database"@,
            root == Some(node),
            step == collect(artist_reader()),
            scan(node.children@.take(i as int), Seq::<ArtistView>::empty(), step) == Ok::<
                _,
                ErrorView,
            >(artists_view(artists@)),
        decreases node.children@.len() - i,
    {
        proof {
            lemma_scan_next(node.children@, Seq::<ArtistView>::empty(), step, i as int);
        }
        match read_artist(&node.children[i]) {
            Ok(a) => {
                let ghost before = artists_view(artists@);
                artists.push(a);
                assert(artists_view(artists@) =~= before.push(a@));
            },
            Err(e) => {
                proof {
                    lemma_scan_stops(node.children@, Seq::<ArtistView>::empty(), step, i + 1);
                }
                return Err(e);
            },
        }
        i = i + 1;
    }
    proof {
        lemma_scan_all(node.children@, Seq::<ArtistView>::empty(), step);
    }
    Ok(artists)
}

} // verus!
