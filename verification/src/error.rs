//! The two ways in which work on a store can fail.

use vstd::prelude::*;
use vstd::string::StringExecFns;

verus! {

/// Why work on a store failed. Each kind carries what the failing part
/// reported, as text.
#[derive(Debug, PartialEq, Eq)]
pub enum Error {
    /// The store could not be opened.
    Connect(String),
    /// The table could not be prepared, or a batch could not be written.
    Transaction(String),
}

impl Error {
    /// What the error says of itself.
    pub open spec fn message_text(self) -> Seq<char> {
        match self {
            Error::Connect(_) => "failed to connect to database"@,
            Error::Transaction(_) => "transaction error"@,
        }
    }

    /// What the error says of itself.
    pub fn message(&self) -> (text: String)
        ensures
            text@ == self.message_text(),
    {
        match self {
            Error::Connect(_) => String::from_str("failed to connect to database"),
            Error::Transaction(_) => String::from_str("transaction error"),
        }
    }

    /// What the failing part reported.
    pub fn cause(&self) -> (cause: &String)
        ensures
            *self == Error::Connect(*cause) || *self == Error::Transaction(*cause),
    {
        match self {
            Error::Connect(cause) => cause,
            Error::Transaction(cause) => cause,
        }
    }
}

} // verus!
