//! What the loader refuses, stated on its own.
use vstd::prelude::*;
use crate::error::ErrorView;
use crate::number::parse_u8_spec;
use crate::scan::lemma_scan_fails;
use crate::schema::{album_of, album_step, artist_of, artist_step, catalog_of, empty_album};
use crate::tree::Node;

verus! {

/// A document with no root element is refused as empty.
pub proof fn lemma_no_root_is_empty()
    ensures
        catalog_of(None) == Err::<Seq<crate::metadata::ArtistView>, _>(ErrorView::Empty),
{
}

/// A root element other than `database` is refused, naming its tag.
pub proof fn lemma_root_must_be_database(root: Node)
    requires
        root.name@ != "database"@,
    ensures
        catalog_of(Some(root)) == Err::<Seq<crate::metadata::ArtistView>, _>(
            ErrorView::InvalidTag(root.name@),
        ),
{
}

/// An `artist` node without attributes is refused: it misses `name`.
pub proof fn lemma_artist_needs_name(node: Node)
    requires
        node.name@ == "artist"@,
        node.attributes@.len() == 0,
    ensures
        artist_of(node) == Err::<crate::metadata::ArtistView, _>(
            ErrorView::MissingAttribute("name"@, "artist"@),
        ),
{
}

/// An `artist` node with any attribute other than `name` is refused with
/// an invalid attribute.
pub proof fn lemma_artist_other_attribute(node: Node, k: int)
    requires
        node.name@ == "artist"@,
        0 <= k < node.attributes@.len(),
        node.attributes@[k].0@ != "name"@,
    ensures
        artist_of(node) is Err,
        artist_of(node)->Err_0 is InvalidAttribute,
{
    let kind = |e: ErrorView| e is InvalidAttribute;
    lemma_scan_fails(node.attributes@, Seq::<char>::empty(), artist_step(), k, kind);
}

/// An `album` node whose `tracks` value is not a number from 0 to 255 is
/// refused with an invalid attribute; it never reads as zero.
pub proof fn lemma_album_count_must_be_number(node: Node, k: int)
    requires
        node.name@ == "album"@,
        0 <= k < node.attributes@.len(),
        node.attributes@[k].0@ == "tracks"@,
        parse_u8_spec(node.attributes@[k].1@) is None,
    ensures
        album_of(node) is Err,
        album_of(node)->Err_0 is InvalidAttribute,
{
    reveal_strlit("tracks");
    reveal_strlit("title");
    assert("tracks"@[1] != "title"@[1]);
    let kind = |e: ErrorView| e is InvalidAttribute;
    lemma_scan_fails(node.attributes@, empty_album(), album_step(node.name@), k, kind);
}

} // verus!
