use lyricsdb::number::{decimal, parse_u8};
use lyricsdb::order::sort_tracks;
use lyricsdb::{Album, Artist, Database, DatabaseError, Node, Track};

fn node(name: &str, attributes: &[(&str, &str)], children: Vec<Node>, text: Option<&str>) -> Node {
    Node {
        name: name.to_string(),
        attributes: attributes.iter().map(|(k, v)| (k.to_string(), v.to_string())).collect(),
        children,
        text: text.map(|t| t.to_string()),
    }
}

fn load(xml: &str) -> Result<Database, DatabaseError> {
    Database::from("catalog.xml", xml.as_bytes())
}

fn track(num: u8, title: &str, lyrics: &str) -> Track {
    Track { title: title.to_string(), lyrics: lyrics.to_string(), track: num }
}

const BOWIE: &str = "<database><artist name=\"Bowie\"><album title=\"Low\" tracks=\"2\">\
<track num=\"2\" name=\"Breaking Glass\">You're such a wonderful person</track>\
<track num=\"1\" name=\"Speed of Life\">instrumental</track>\
</album></artist></database>";

#[test]
fn concrete_scenario_orders_tracks() {
    let db = load(BOWIE).unwrap();
    assert_eq!(db.entries.len(), 1);
    let artist = &db.entries[0];
    assert_eq!(artist.name, "Bowie");
    assert_eq!(artist.albums.len(), 1);
    let album = &artist.albums[0];
    assert_eq!(album.title, "Low");
    assert_eq!(album.track_count, 2);
    assert_eq!(album.tracks.len(), 2);
    assert_eq!(album.tracks[0].title, "Speed of Life");
    assert_eq!(album.tracks[0].track, 1);
    assert_eq!(album.tracks[0].lyrics, "instrumental");
    assert_eq!(album.tracks[1].title, "Breaking Glass");
    assert_eq!(album.tracks[1].track, 2);
    assert_eq!(album.tracks[1].lyrics, "You're such a wonderful person");
    assert_eq!(db.file_path(), "catalog.xml");
}

#[test]
fn root_must_be_database() {
    match load("<library><artist name=\"X\"></artist></library>") {
        Err(DatabaseError::InvalidTag(tag)) => assert_eq!(tag, "library"),
        other => panic!("unexpected {:?}", other.map(|d| d.entries.len())),
    }
}

#[test]
fn artist_without_attributes_misses_name() {
    match load("<database><artist></artist></database>") {
        Err(DatabaseError::MissingAttribute((attr, tag))) => {
            assert_eq!(attr, "name");
            assert_eq!(tag, "artist");
        }
        other => panic!("unexpected {:?}", other.map(|d| d.entries.len())),
    }
}

#[test]
fn artist_with_unknown_attribute_is_refused() {
    match load("<database><artist name=\"X\" foo=\"bar\"></artist></database>") {
        Err(DatabaseError::InvalidAttribute((attr, value))) => {
            assert_eq!(attr, "foo");
            assert_eq!(value, "bar");
        }
        other => panic!("unexpected {:?}", other.map(|d| d.entries.len())),
    }
}

#[test]
fn non_numeric_track_count_is_refused() {
    let xml = "<database><artist name=\"A\"><album title=\"T\" tracks=\"abc\"></album></artist></database>";
    match load(xml) {
        Err(DatabaseError::InvalidAttribute((attr, tag))) => {
            assert_eq!(attr, "tracks");
            assert_eq!(tag, "album");
        }
        other => panic!("unexpected {:?}", other.map(|d| d.entries.len())),
    }
}

#[test]
fn track_count_out_of_range_is_refused() {
    let xml = "<database><artist name=\"A\"><album title=\"T\" tracks=\"256\"></album></artist></database>";
    assert!(matches!(load(xml), Err(DatabaseError::InvalidAttribute(_))));
}

#[test]
fn non_numeric_track_number_is_refused() {
    let xml = "<database><artist name=\"A\"><album title=\"T\">\
<track num=\"one\" name=\"x\"></track></album></artist></database>";
    match load(xml) {
        Err(DatabaseError::InvalidAttribute((attr, tag))) => {
            assert_eq!(attr, "num");
            assert_eq!(tag, "track");
        }
        other => panic!("unexpected {:?}", other.map(|d| d.entries.len())),
    }
}

#[test]
fn empty_input_is_empty_document() {
    assert!(matches!(load(""), Err(DatabaseError::Empty)));
}

#[test]
fn rootless_input_is_empty_document() {
    assert!(matches!(load("<?xml version=\"1.0\"?>"), Err(DatabaseError::Empty)));
    assert!(matches!(load("   "), Err(DatabaseError::Empty)));
    assert!(matches!(Database::from_tree("x", None), Err(DatabaseError::Empty)));
}

#[test]
fn save_then_load_gives_the_same_catalog() {
    let xml = "<database><artist name=\"Bowie\">\
<album title=\"Low\" tracks=\"9\">\
<track num=\"2\" name=\"Breaking Glass\">glass</track>\
<track num=\"1\" name=\"Speed of Life\"></track>\
<track num=\"2\" name=\"What in the World\">world</track>\
</album><album title=\"Heroes\" tracks=\"0\"></album></artist>\
<artist name=\"Eno\"></artist></database>";
    let first = load(xml).unwrap();
    let bytes = first.save().unwrap();
    let text = String::from_utf8(bytes.clone()).unwrap();
    assert!(text.contains("<database>"));
    let second = Database::from("again.xml", &bytes).unwrap();
    assert_eq!(first.entries.len(), second.entries.len());
    for (a, b) in first.entries.iter().zip(second.entries.iter()) {
        assert_eq!(a.name, b.name);
        assert_eq!(a.albums.len(), b.albums.len());
        for (x, y) in a.albums.iter().zip(b.albums.iter()) {
            assert_eq!(x.title, y.title);
            assert_eq!(x.track_count, y.track_count);
            assert_eq!(x.tracks.len(), y.tracks.len());
            for (s, t) in x.tracks.iter().zip(y.tracks.iter()) {
                assert_eq!(s.title, t.title);
                assert_eq!(s.lyrics, t.lyrics);
                assert_eq!(s.track, t.track);
            }
        }
    }
    // The declared count is kept even though the album has three tracks.
    assert_eq!(second.entries[0].albums[0].track_count, 9);
    assert_eq!(second.entries[0].albums[0].tracks.len(), 3);
}

#[test]
fn tree_round_trip_keeps_catalog() {
    let first = load(BOWIE).unwrap();
    let tree = first.to_tree();
    let second = Database::from_tree("tree", Some(&tree)).unwrap();
    assert_eq!(second.entries[0].name, "Bowie");
    assert_eq!(second.entries[0].albums[0].tracks[0].title, "Speed of Life");
    assert_eq!(second.entries[0].albums[0].tracks[1].title, "Breaking Glass");
    assert_eq!(second.file_path(), "tree");
}

#[test]
fn saved_tree_has_the_schema_shape() {
    let db = load(BOWIE).unwrap();
    let tree = db.to_tree();
    assert_eq!(tree.name, "database");
    assert!(tree.attributes.is_empty());
    let artist = &tree.children[0];
    assert_eq!(artist.name, "artist");
    assert_eq!(artist.attributes, vec![("name".to_string(), "Bowie".to_string())]);
    let album = &artist.children[0];
    assert_eq!(album.name, "album");
    assert_eq!(
        album.attributes,
        vec![("title".to_string(), "Low".to_string()), ("tracks".to_string(), "2".to_string())]
    );
    let first = &album.children[0];
    assert_eq!(first.name, "track");
    assert_eq!(
        first.attributes,
        vec![("num".to_string(), "1".to_string()), ("name".to_string(), "Speed of Life".to_string())]
    );
    assert_eq!(first.text.as_deref(), Some("instrumental"));
}

#[test]
fn tracks_sort_stably_by_number() {
    let xml = "<database><artist name=\"A\"><album title=\"T\" tracks=\"4\">\
<track num=\"3\" name=\"c\"></track>\
<track num=\"1\" name=\"a1\"></track>\
<track num=\"2\" name=\"b\"></track>\
<track num=\"1\" name=\"a2\"></track>\
</album></artist></database>";
    let db = load(xml).unwrap();
    let titles: Vec<&str> = db.entries[0].albums[0].tracks.iter().map(|t| t.title.as_str()).collect();
    assert_eq!(titles, vec!["a1", "a2", "b", "c"]);
}

#[test]
fn sorted_input_keeps_its_order() {
    let album = node(
        "album",
        &[("title", "T")],
        vec![
            node("track", &[("num", "1"), ("name", "x")], vec![], None),
            node("track", &[("num", "1"), ("name", "y")], vec![], None),
            node("track", &[("num", "5"), ("name", "z")], vec![], None),
        ],
        None,
    );
    let root = node("database", &[], vec![node("artist", &[("name", "A")], vec![album], None)], None);
    let db = Database::from_tree("t", Some(&root)).unwrap();
    let titles: Vec<&str> = db.entries[0].albums[0].tracks.iter().map(|t| t.title.as_str()).collect();
    assert_eq!(titles, vec!["x", "y", "z"]);
}

#[test]
fn sort_tracks_orders_and_keeps_ties() {
    let sorted = sort_tracks(vec![track(9, "i", ""), track(0, "z", ""), track(9, "j", ""), track(4, "f", "")]);
    let titles: Vec<&str> = sorted.iter().map(|t| t.title.as_str()).collect();
    assert_eq!(titles, vec!["z", "f", "i", "j"]);
    assert!(sort_tracks(Vec::new()).is_empty());
}

#[test]
fn track_tag_name_is_not_checked() {
    let xml = "<database><artist name=\"A\"><album title=\"T\">\
<song num=\"1\" name=\"x\">la</song></album></artist></database>";
    let db = load(xml).unwrap();
    assert_eq!(db.entries[0].albums[0].tracks[0].title, "x");
    assert_eq!(db.entries[0].albums[0].tracks[0].lyrics, "la");
}

#[test]
fn missing_text_gives_empty_lyrics_and_defaults() {
    let root = node(
        "database",
        &[],
        vec![node(
            "artist",
            &[("name", "A")],
            vec![node("album", &[], vec![node("track", &[], vec![], None)], None)],
            None,
        )],
        None,
    );
    let db = Database::from_tree("t", Some(&root)).unwrap();
    let album = &db.entries[0].albums[0];
    assert_eq!(album.title, "");
    assert_eq!(album.track_count, 0);
    assert_eq!(album.tracks[0].lyrics, "");
    assert_eq!(album.tracks[0].title, "");
    assert_eq!(album.tracks[0].track, 0);
}

#[test]
fn artist_error_carries_the_value() {
    let root = node("database", &[], vec![node("artist", &[("name", "A"), ("genre", "rock")], vec![], None)], None);
    match Database::from_tree("t", Some(&root)) {
        Err(DatabaseError::InvalidAttribute((attr, value))) => {
            assert_eq!(attr, "genre");
            assert_eq!(value, "rock");
        }
        other => panic!("unexpected {:?}", other.map(|d| d.entries.len())),
    }
}

#[test]
fn first_invalid_attribute_is_reported() {
    let album = node("album", &[("year", "1977"), ("label", "RCA")], vec![], None);
    let root = node("database", &[], vec![node("artist", &[("name", "A")], vec![album], None)], None);
    match Database::from_tree("t", Some(&root)) {
        Err(DatabaseError::InvalidAttribute((attr, tag))) => {
            assert_eq!(attr, "year");
            assert_eq!(tag, "album");
        }
        other => panic!("unexpected {:?}", other.map(|d| d.entries.len())),
    }
}

#[test]
fn last_name_attribute_wins() {
    let root = node("database", &[], vec![node("artist", &[("name", "A"), ("name", "B")], vec![], None)], None);
    let db = Database::from_tree("t", Some(&root)).unwrap();
    assert_eq!(db.entries[0].name, "B");
}

#[test]
fn wrong_tags_are_refused() {
    match load("<database><band name=\"A\"/></database>") {
        Err(DatabaseError::InvalidTag(tag)) => assert_eq!(tag, "band"),
        other => panic!("unexpected {:?}", other.map(|d| d.entries.len())),
    }
    match load("<database><artist name=\"A\"><record/></artist></database>") {
        Err(DatabaseError::InvalidTag(tag)) => assert_eq!(tag, "record"),
        other => panic!("unexpected {:?}", other.map(|d| d.entries.len())),
    }
}

#[test]
fn first_failing_artist_decides_the_error() {
    let root = node(
        "database",
        &[],
        vec![node("artist", &[], vec![], None), node("group", &[], vec![], None)],
        None,
    );
    assert!(matches!(Database::from_tree("t", Some(&root)), Err(DatabaseError::MissingAttribute(_))));
}

#[test]
fn parse_u8_reads_like_std() {
    assert_eq!(parse_u8("0"), Some(0));
    assert_eq!(parse_u8("255"), Some(255));
    assert_eq!(parse_u8("007"), Some(7));
    assert_eq!(parse_u8("+7"), Some(7));
    assert_eq!(parse_u8("256"), None);
    assert_eq!(parse_u8("1000"), None);
    assert_eq!(parse_u8(""), None);
    assert_eq!(parse_u8("+"), None);
    assert_eq!(parse_u8("-1"), None);
    assert_eq!(parse_u8(" 1"), None);
    assert_eq!(parse_u8("abc"), None);
    for text in ["12", "+0", "-0", "0256", "00255", "2 ", "1_0", "\u{661}", "++1", "999"] {
        assert_eq!(parse_u8(text), text.parse::<u8>().ok(), "{}", text);
    }
}

#[test]
fn decimal_writes_like_to_string() {
    assert_eq!(decimal(0), "0");
    assert_eq!(decimal(42), "42");
    assert_eq!(decimal(100), "100");
    assert_eq!(decimal(255), "255");
    for n in 0..=255u8 {
        assert_eq!(decimal(n), n.to_string());
        assert_eq!(parse_u8(&decimal(n)), Some(n));
    }
}

#[test]
fn error_messages_name_attribute_and_tag() {
    let e = DatabaseError::InvalidAttribute(("foo".to_string(), "album".to_string()));
    assert_eq!(e.message(), "Invalid attribute foo in tag album");
    assert_eq!(e.description(), "Invalid attribute");
    let e = DatabaseError::InvalidTag("library".to_string());
    assert_eq!(e.message(), "Invalid tag library");
    assert_eq!(e.description(), "Invalid tag");
    let e = DatabaseError::MissingAttribute(("name".to_string(), "artist".to_string()));
    assert_eq!(e.message(), "Missing attribute name in artist");
    assert_eq!(e.description(), "Missing attribute");
    let e = DatabaseError::Empty;
    assert_eq!(e.message(), "Database file is empty");
    assert_eq!(e.description(), "Database file is empty");
    let e = DatabaseError::from(std::io::Error::new(std::io::ErrorKind::NotFound, "gone"));
    assert!(matches!(e, DatabaseError::Io(_)));
    assert_eq!(e.message(), "io error: gone");
    assert_eq!(e.description(), "gone");
}

#[test]
fn entities_compare_by_name_or_title() {
    let mut a = Artist::new();
    a.name = "Bowie".to_string();
    let mut b = Artist::new();
    b.name = "Bowie".to_string();
    b.albums.push(Album::new());
    assert!(a == b);
    assert_eq!(a.to_string(), "Bowie");
    let mut x = Album::new();
    x.title = "Low".to_string();
    x.track_count = 3;
    let mut y = Album::new();
    y.title = "Low".to_string();
    assert!(x == y);
    y.title = "Heroes".to_string();
    assert!(x != y);
    assert!(track(1, "a", "la") == track(2, "a", "da"));
    assert!(track(1, "a", "") != track(1, "b", ""));
}

#[test]
fn new_entities_are_empty() {
    let a = Artist::new();
    assert_eq!(a.name, "");
    assert!(a.albums.is_empty());
    let b = Album::new();
    assert_eq!(b.title, "");
    assert_eq!(b.track_count, 0);
    assert!(b.tracks.is_empty());
    let t = Track::new();
    assert_eq!((t.title.as_str(), t.lyrics.as_str(), t.track), ("", "", 0));
}

#[test]
fn empty_and_clean() {
    let db = Database::empty();
    assert!(db.entries.is_empty());
    assert_eq!(db.file_path(), "");
    let mut db = load(BOWIE).unwrap();
    db.clean();
    assert!(db.entries.is_empty());
    assert_eq!(db.file_path(), "catalog.xml");
}

#[test]
fn saving_a_small_catalog_writes_its_tree() {
    let mut db = Database::empty();
    db.entries.push(Artist {
        name: "Bowie".to_string(),
        albums: vec![Album {
            title: "Low".to_string(),
            track_count: 2,
            tracks: vec![track(1, "Speed of Life", "x")],
        }],
    });
    let bytes = db.save().unwrap();
    let back = Database::from("saved.xml", &bytes).unwrap();
    assert_eq!(back.entries.len(), 1);
    assert_eq!(back.entries[0].name, "Bowie");
    let album = &back.entries[0].albums[0];
    assert_eq!(album.title, "Low");
    assert_eq!(album.track_count, 2);
    assert_eq!(album.tracks.len(), 1);
    assert_eq!(album.tracks[0].track, 1);
    assert_eq!(album.tracks[0].title, "Speed of Life");
    assert_eq!(album.tracks[0].lyrics, "x");
    let text = String::from_utf8(bytes).unwrap();
    assert!(text.contains("tracks=\"2\""));
    assert!(text.contains("num=\"1\""));
    assert!(text.contains(">x</track>"));
}

#[test]
fn saving_an_empty_catalog_writes_a_bare_root() {
    let db = Database::empty();
    let bytes = db.save().unwrap();
    let text = String::from_utf8(bytes.clone()).unwrap();
    assert!(text.contains("<database"));
    assert!(!text.contains("<artist"));
    let back = Database::from("empty.xml", &bytes).unwrap();
    assert!(back.entries.is_empty());
    assert_eq!(back.file_path, "empty.xml");
}
