//! The ways in which building a tree can fail.

use vstd::prelude::*;

verus! {

/// Why a tree could not be built or removed. Every variant but
/// `EmptyEntryName` carries the path that the failure concerns.
#[derive(Debug, PartialEq, Eq)]
pub enum Error {
    /// The root directory did not exist and could not be created.
    FailedToCreateRootDirectory(String),
    /// A directory entry, or the parent directory of an entry, could not be
    /// created.
    FailedToCreateDirectory(String),
    /// The root directory could not be deleted on request.
    FailedToDeleteDirectory(String),
    /// A file could not be created.
    FailedToCreateFile(String),
    /// A file was created, but its content or its read-only mark could not be
    /// written.
    FailedToWriteFile(String),
    /// The source of a copied file could not be read. The path is that of the
    /// source, not of the destination.
    FailedToCopyFile(String),
    /// The entry's path, as written by the caller, leaves the root directory.
    EntryOutsideDirectory(String),
    /// The entry at this position has an empty path.
    EmptyEntryName(usize),
    /// The entry's path is already taken, on disk or by an earlier entry.
    DuplicateEntry(String),
}

/// An [`Error`] as a mathematical value.
pub enum ErrorView {
    FailedToCreateRootDirectory(Seq<char>),
    FailedToCreateDirectory(Seq<char>),
    FailedToDeleteDirectory(Seq<char>),
    FailedToCreateFile(Seq<char>),
    FailedToWriteFile(Seq<char>),
    FailedToCopyFile(Seq<char>),
    EntryOutsideDirectory(Seq<char>),
    EmptyEntryName(nat),
    DuplicateEntry(Seq<char>),
}

impl View for Error {
    type V = ErrorView;

    open spec fn view(&self) -> ErrorView {
        match self {
            Error::FailedToCreateRootDirectory(p) => ErrorView::FailedToCreateRootDirectory(p@),
            Error::FailedToCreateDirectory(p) => ErrorView::FailedToCreateDirectory(p@),
            Error::FailedToDeleteDirectory(p) => ErrorView::FailedToDeleteDirectory(p@),
            Error::FailedToCreateFile(p) => ErrorView::FailedToCreateFile(p@),
            Error::FailedToWriteFile(p) => ErrorView::FailedToWriteFile(p@),
            Error::FailedToCopyFile(p) => ErrorView::FailedToCopyFile(p@),
            Error::EntryOutsideDirectory(p) => ErrorView::EntryOutsideDirectory(p@),
            Error::EmptyEntryName(i) => ErrorView::EmptyEntryName(*i as nat),
            Error::DuplicateEntry(p) => ErrorView::DuplicateEntry(p@),
        }
    }
}

impl Clone for Error {
    fn clone(&self) -> (r: Self)
        ensures
            r@ == self@,
    {
        match self {
            Error::FailedToCreateRootDirectory(p) => Error::FailedToCreateRootDirectory(p.clone()),
            Error::FailedToCreateDirectory(p) => Error::FailedToCreateDirectory(p.clone()),
            Error::FailedToDeleteDirectory(p) => Error::FailedToDeleteDirectory(p.clone()),
            Error::FailedToCreateFile(p) => Error::FailedToCreateFile(p.clone()),
            Error::FailedToWriteFile(p) => Error::FailedToWriteFile(p.clone()),
            Error::FailedToCopyFile(p) => Error::FailedToCopyFile(p.clone()),
            Error::EntryOutsideDirectory(p) => Error::EntryOutsideDirectory(p.clone()),
            Error::EmptyEntryName(i) => Error::EmptyEntryName(*i),
            Error::DuplicateEntry(p) => Error::DuplicateEntry(p.clone()),
        }
    }
}

} // verus!
