//! Why a catalog could not be loaded or saved.
use vstd::prelude::*;
use vstd::string::*;

verus! {

/// Declares `std::io::Error`, which an I/O failure carries.
#[verifier::external_type_specification]
#[verifier::external_body]
pub struct ExIoError(std::io::Error);

/// The ways a load or a save fails.
#[derive(Debug)]
pub enum DatabaseError {
    /// The document could not be read or written.
    Io(std::io::Error),
    /// An attribute that its level does not allow, or whose value is not a
    /// number from 0 to 255. The pair is the attribute's name and the tag
    /// name; at the artist level it is the attribute's name and its value.
    InvalidAttribute((String, String)),
    /// A tag that does not belong where it stands.
    InvalidTag(String),
    /// An attribute that must be there and is not, and the tag that lacks it.
    MissingAttribute((String, String)),
    /// The document has no root element.
    Empty,
}

/// A `DatabaseError` as plain values.
pub enum ErrorView {
    Io,
    InvalidAttribute(Seq<char>, Seq<char>),
    InvalidTag(Seq<char>),
    MissingAttribute(Seq<char>, Seq<char>),
    Empty,
}

impl View for DatabaseError {
    type V = ErrorView;

    open spec fn view(&self) -> ErrorView {
        match self {
            DatabaseError::Io(_) => ErrorView::Io,
            DatabaseError::InvalidAttribute((a, t)) => ErrorView::InvalidAttribute(a@, t@),
            DatabaseError::InvalidTag(t) => ErrorView::InvalidTag(t@),
            DatabaseError::MissingAttribute((a, t)) => ErrorView::MissingAttribute(a@, t@),
            DatabaseError::Empty => ErrorView::Empty,
        }
    }
}

/// Relies on `std::io::Error`'s `Display` (through `to_string`) for the
/// text of an I/O failure; nothing is known of that text.
#[verifier::external_body]
fn io_text(e: &std::io::Error) -> (r: String) {
    e.to_string()
}

impl DatabaseError {
    /// A short description of the kind of failure.
    pub fn description(&self) -> (r: String)
        ensures
            self@ is InvalidAttribute ==> r@ == "Invalid attribute"@,
            self@ is InvalidTag ==> r@ == "Invalid tag"@,
            self@ is Empty ==> r@ == "Database file is empty"@,
            self@ is MissingAttribute ==> r@ == "Missing attribute"@,
    {
        match self {
            DatabaseError::Io(e) => io_text(e),
            DatabaseError::InvalidAttribute(_) => String::from_str("Invalid attribute"),
            DatabaseError::InvalidTag(_) => String::from_str("Invalid tag"),
            DatabaseError::Empty => String::from_str("Database file is empty"),
            DatabaseError::MissingAttribute(_) => String::from_str("Missing attribute"),
        }
    }

    /// A message for a reader, naming the attribute and the tag at fault.
    pub fn message(&self) -> (r: String)
        ensures
            match self@ {
                ErrorView::Io => r@.len() >= "io error: "@.len()
                    && r@.subrange(0, "io error: "@.len() as int) == "io error: "@,
                ErrorView::InvalidAttribute(a, t) => r@ == "Invalid attribute "@ + a + " in tag "@ + t,
                ErrorView::InvalidTag(t) => r@ == "Invalid tag "@ + t,
                ErrorView::Empty => r@ == "Database file is empty"@,
                ErrorView::MissingAttribute(a, t) => r@ == "Missing attribute "@ + a + " in "@ + t,
            },
    {
        match self {
            DatabaseError::Io(e) => {
                let r = String::from_str("io error: ").concat(io_text(e).as_str());
                assert(r@.subrange(0, "io error: "@.len() as int) =~= "io error: "@);
                r
            },
            DatabaseError::InvalidAttribute((a, tag)) => {
                String::from_str("Invalid attribute ").concat(a.as_str()).concat(" in tag ").concat(
                    tag.as_str(),
                )
            },
            DatabaseError::InvalidTag(tag) => String::from_str("Invalid tag ").concat(tag.as_str()),
            DatabaseError::Empty => String::from_str("Database file is empty"),
            DatabaseError::MissingAttribute((a, tag)) => {
                String::from_str("Missing attribute ").concat(a.as_str()).concat(" in ").concat(
                    tag.as_str(),
                )
            },
        }
    }
}

impl From<std::io::Error> for DatabaseError {
    fn from(err: std::io::Error) -> (r: DatabaseError)
        ensures
            r@ is Io,
    {
        DatabaseError::Io(err)
    }
}

impl vstd::std_specs::convert::FromSpecImpl<std::io::Error> for DatabaseError {
    open spec fn obeys_from_spec() -> bool {
        true
    }

    open spec fn from_spec(err: std::io::Error) -> DatabaseError {
        DatabaseError::Io(err)
    }
}

} // verus!
