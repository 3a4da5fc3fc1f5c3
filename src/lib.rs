//! A catalog of artists, albums and tracks (each track with its lyrics),
//! loaded from an XML document with a fixed three-level schema and written
//! back to the same format.
pub mod database;
pub mod error;
pub mod loader;
pub mod metadata;
pub mod number;
pub mod order;
pub mod rejection;
pub mod round_trip;
pub mod scan;
pub mod schema;
pub mod serializer;
pub mod tree;

pub use database::Database;
pub use error::DatabaseError;
pub use metadata::{Album, Artist, Track};
pub use tree::Node;
