//! The ways in which the store refuses a request.

use vstd::prelude::*;
use vstd::string::StringExecFns;

verus! {

/// Why the store refused a request.
///
/// Failures of the file system are not among them: the store never touches
/// the file, so its caller meets those alone.
#[derive(Debug, PartialEq, Eq)]
pub enum Error {
    /// A record is already kept under the identity of the one to insert.
    AlreadyExists,
    /// No record is kept under the identity asked for, which the variant
    /// holds.
    NotFound(String),
}

/// The text that tells of a record that is already there.
pub open spec fn already_exists_text() -> Seq<char> {
    "data already exists"@
}

/// The text that tells that nothing is kept under `id`.
pub open spec fn not_found_text(id: Seq<char>) -> Seq<char> {
    "Data with specified ID ("@ + id + ") was not found."@
}

impl Error {
    /// The text of the error, as a reader is shown it.
    pub open spec fn text(self) -> Seq<char> {
        match self {
            Error::AlreadyExists => already_exists_text(),
            Error::NotFound(id) => not_found_text(id@),
        }
    }

    /// Writes the error out for a reader.
    pub fn message(&self) -> (text: String)
        ensures
            text@ == self.text(),
    {
        match self {
            Error::AlreadyExists => "data already exists".to_owned(),
            Error::NotFound(id) => {
                let mut text = "Data with specified ID (".to_owned();
                text.append(id.as_str());
                text.append(") was not found.");
                text
            },
        }
    }
}

} // verus!
