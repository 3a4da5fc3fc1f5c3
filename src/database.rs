//! The catalog: the artists loaded from one document, and where it came
//! from.
use vstd::prelude::*;
use vstd::string::*;
use crate::error::{DatabaseError, ErrorView};
use crate::loader::read_catalog;
use crate::metadata::{Artist, ArtistView, artists_view};
use crate::schema::{catalog_of, is_catalog_tree};
use crate::serializer::catalog_tree;
use crate::tree::{
    Node, distinct_attributes, element_matches, element_mirrors, element_of, node_of, parse_document,
    parsed_root, write_document,
};

verus! {

/// A catalog of artists, in document order.
pub struct Database {
    pub entries: Vec<Artist>,
    /// Where the catalog was loaded from.
    pub file_path: String,
}

/// What a catalog holds, as plain values.
pub struct DatabaseView {
    pub entries: Seq<ArtistView>,
    pub file_path: Seq<char>,
}

impl View for Database {
    type V = DatabaseView;

    open spec fn view(&self) -> DatabaseView {
        DatabaseView { entries: artists_view(self.entries@), file_path: self.file_path@ }
    }
}

/// `r` is what loading the tree `root` read from `path` gives: the catalog
/// with its artists and that path, or the failure.
pub open spec fn loaded(r: Result<Database, DatabaseError>, root: Option<Node>, path: Seq<char>) -> bool {
    match catalog_of(root) {
        Ok(artists) => r is Ok && r->Ok_0@ == DatabaseView { entries: artists, file_path: path },
        Err(e) => r is Err && r->Err_0@ == e,
    }
}

impl Database {
    /// An empty catalog, loaded from nowhere.
    pub fn empty() -> (r: Database)
        ensures
            r@.entries.len() == 0,
            r@.file_path == Seq::<char>::empty(),
    {
        Database { entries: Vec::new(), file_path: String::new() }
    }

    /// Removes every artist; the path stays.
    pub fn clean(&mut self)
        ensures
            final(self)@.entries.len() == 0,
            final(self)@.file_path == old(self)@.file_path,
    {
        self.entries.clear();
    }

    /// The path or name the catalog was loaded from.
    pub fn file_path(&self) -> (r: &str)
        ensures
            r@ == self@.file_path,
    {
        self.file_path.as_str()
    }

    /// Loads a catalog from a document tree whose root is `root`, read from
    /// `path_str`.
    pub fn from_tree(path_str: &str, root: Option<&Node>) -> (r: Result<Database, DatabaseError>)
        ensures
            loaded(
                r,
                match root {
                    Some(n) => Some(*n),
                    None => None,
                },
                path_str@,
            ),
    {
        let result = read_catalog(root);
        match result {
            Ok(entries) => Ok(Database { entries, file_path: String::from_str(path_str) }),
            Err(e) => Err(e),
        }
    }

    /// Loads a catalog from the bytes of an XML document read from
    /// `path_str`. Bytes that hold no document with a root element give
    /// `Empty`. Otherwise the result is what `from_tree` gives for a node
    /// tree that carries exactly the parsed elements, with the attributes of
    /// each node in the order the parser's map hands them out.
    pub fn from(path_str: &str, data: &[u8]) -> (r: Result<Database, DatabaseError>)
        ensures
            match parsed_root(data@) {
                None => r is Err && r->Err_0@ == ErrorView::Empty,
                Some(v) => exists|e: treexml::Element, root: Node|
                    #![trigger element_mirrors(e, root)]
                    element_matches(e, v) && element_mirrors(e, root) && distinct_attributes(root)
                        && loaded(r, Some(root), path_str@),
            },
            data@.len() == 0 ==> r is Err && r->Err_0@ == ErrorView::Empty,
    {
        match parse_document(data) {
            Some(element) => {
                let ghost e = element;
                let node = node_of(element);
                let r = Database::from_tree(path_str, Some(&node));
                assert(element_mirrors(e, node));
                r
            },
            None => Database::from_tree(path_str, None),
        }
    }

    /// The document tree of the catalog, as `save` writes it.
    pub fn to_tree(&self) -> (n: Node)
        ensures
            is_catalog_tree(n, self@.entries),
    {
        catalog_tree(&self.entries)
    }

    /// Writes the catalog as an XML document and gives its bytes. The
    /// element tree handed to the writer mirrors the tree `to_tree` gives;
    /// writing into memory always succeeds.
    pub fn save(&self) -> (r: Result<Vec<u8>, DatabaseError>)
        ensures
            r is Ok,
    {
        let tree = self.to_tree();
        match write_document(element_of(&tree)) {
            Ok(bytes) => Ok(bytes),
            Err(e) => Err(DatabaseError::Io(e)),
        }
    }
}

} // verus!
