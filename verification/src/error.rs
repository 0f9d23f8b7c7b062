//! The errors of the local database.

use vstd::prelude::*;

verus! {

/// What can go wrong when the local database is read or queried.
#[derive(Debug, Clone, PartialEq, Eq)]
pub enum Error {
    /// A filesystem operation failed. The text is the system's description of the failure.
    Io(String),
    /// No installed package answers to this name, or a directory in the database
    /// root does not have the name of a package.
    InvalidLocalPackage(String),
}

/// An [`Error`] with its texts as sequences of characters.
pub enum ErrorView {
    Io(Seq<char>),
    InvalidLocalPackage(Seq<char>),
}

impl View for Error {
    type V = ErrorView;

    open spec fn view(&self) -> ErrorView {
        match *self {
            Error::Io(text) => ErrorView::Io(text@),
            Error::InvalidLocalPackage(name) => ErrorView::InvalidLocalPackage(name@),
        }
    }
}

} // verus!
