//! Why a directory could not be read.

use vstd::prelude::*;

verus! {

/// A directory that could not be opened, or one of its entries that could
/// not be read, with the reason as the system gave it.
#[derive(Debug, PartialEq, Eq)]
pub struct DirectoryError {
    reason: String,
}

impl View for DirectoryError {
    type V = Seq<char>;

    /// The reason, as text.
    closed spec fn view(&self) -> Seq<char> {
        self.reason@
    }
}

impl DirectoryError {
    /// An error with the given reason.
    pub fn new(reason: String) -> (e: DirectoryError)
        ensures
            e@ == reason@,
    {
        DirectoryError { reason }
    }

    /// The reason, word for word.
    pub fn reason(&self) -> (reason: &String)
        ensures
            reason@ == self@,
    {
        &self.reason
    }
}

} // verus!
