//! One unit of input, and the row that it becomes.

use vstd::prelude::*;
use crate::document::molecule_text;
use crate::molecule::Molecule;

verus! {

/// A mapping from names to values of any shape, kept by the encoder's own
/// type. Nothing is known of what a value of it holds.
#[verifier::external_type_specification]
#[verifier::external_body]
#[verifier::reject_recursive_types(K)]
#[verifier::reject_recursive_types(V)]
pub struct ExObject<K, V>(serde_json::Map<K, V>);

/// A value of any shape, kept by the encoder's own type.
#[verifier::external_type_specification]
#[verifier::external_body]
pub struct ExValue(serde_json::Value);

/// The document that the encoder writes for a property bag, where it writes
/// one.
pub uninterp spec fn properties_text(
    properties: serde_json::Map<String, serde_json::Value>,
) -> Option<Seq<char>>;

/// One unit of input: a key, a molecule and a bag of properties.
#[derive(Debug, PartialEq)]
pub struct Entry {
    pub key: String,
    pub molecule: Molecule,
    pub properties: serde_json::Map<String, serde_json::Value>,
}

/// One row of the table: the key and the two documents.
#[derive(Debug, PartialEq, Eq)]
pub struct Row {
    pub key: String,
    pub molecule: String,
    pub properties: String,
}

/// What a row holds.
pub struct RowView {
    pub key: Seq<char>,
    pub molecule: Seq<char>,
    pub properties: Seq<char>,
}

impl View for Row {
    type V = RowView;

    open spec fn view(&self) -> RowView {
        RowView { key: self.key@, molecule: self.molecule@, properties: self.properties@ }
    }
}

/// Writes a property bag as a document, by `serde_json::to_string`. Whether a
/// document is written, and which, depends on the bag alone. Where none is
/// written, the result is what the encoder's error says of itself.
#[verifier::external_body]
fn encode_properties(properties: &serde_json::Map<String, serde_json::Value>) -> (r: Result<
    String,
    String,
>)
    ensures
        match r {
            Ok(text) => properties_text(*properties) == Some(text@),
            Err(_) => properties_text(*properties) is None,
        },
{
    match serde_json::to_string(properties) {
        Ok(text) => Ok(text),
        Err(e) => Err(e.to_string()),
    }
}

/// The row that an entry becomes, where its properties can be written.
pub open spec fn entry_row(entry: Entry) -> Option<RowView> {
    match properties_text(entry.properties) {
        Some(text) => Some(
            RowView { key: entry.key@, molecule: molecule_text(entry.molecule@), properties: text },
        ),
        None => None,
    }
}

/// The row of a key and two documents, where the second document was
/// written.
pub fn make_row(key: &String, molecule: String, properties: Result<String, String>) -> (r: Result<
    Row,
    String,
>)
    ensures
        match properties {
            Ok(text) => r matches Ok(row) && row@ == (RowView {
                key: key@,
                molecule: molecule@,
                properties: text@,
            }),
            Err(e) => r == Err::<Row, String>(e),
        },
{
    match properties {
        Ok(text) => Ok(Row { key: key.clone(), molecule, properties: text }),
        Err(e) => Err(e),
    }
}

impl Entry {
    /// The row that the entry becomes: its key, and the documents of its
    /// molecule and of its properties. It fails where the encoder writes no
    /// document for the properties.
    pub fn to_row(&self) -> (r: Result<Row, String>)
        ensures
            match r {
                Ok(row) => entry_row(*self) == Some(row@),
                Err(_) => entry_row(*self) is None,
            },
    {
        let molecule = self.molecule.to_json();
        let properties = encode_properties(&self.properties);
        make_row(&self.key, molecule, properties)
    }
}

} // verus!
