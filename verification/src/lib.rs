//! Records of chemical structures, and the rules by which they are kept in a
//! table of a relational store.
//!
//! An entry is a key, a molecule and a bag of properties. It is kept as one
//! row: the key, the molecule's document and the properties' document. This
//! library writes the molecule's document and reads it back, says which
//! statements make the table and add a row, and says step by step how a store
//! is opened and how a batch of entries is written as a whole or not at all.
//! It touches no store itself: whoever drives it runs the statements.

pub mod atomicity;
pub mod coordinate;
pub mod database;
pub mod decimal;
pub mod document;
pub mod entry;
pub mod error;
pub mod lists;
pub mod molecule;
pub mod parse;
pub mod plain;
pub mod positions;
pub mod roundtrip;
pub mod scan;
pub mod statement;

pub use crate::coordinate::Coordinate;
pub use crate::database::Batch;
pub use crate::database::Connecting;
pub use crate::database::Database;
pub use crate::entry::Entry;
pub use crate::entry::Row;
pub use crate::error::Error;
pub use crate::molecule::AromaticBonds;
pub use crate::molecule::Bonds;
pub use crate::molecule::Molecule;
