//! What can go wrong with one file.

use vstd::prelude::*;

verus! {

/// A failure of an operation outside this crate, with the file it concerned.
#[derive(Debug, Clone, PartialEq, Eq)]
pub struct Failure {
    /// The path of the file that was being handled.
    pub path: String,
    /// What the failing operation said.
    pub message: String,
}

/// Why a file was not indexed, or has no cover.
#[derive(Debug, Clone, PartialEq, Eq)]
pub enum ScanError {
    /// The file could not be opened or its tags could not be parsed.
    MetadataError(Failure),
    /// The file system refused to resolve the path or to give its metadata.
    FileError(Failure),
    /// The store refused a statement or the commit.
    DatabaseError(Failure),
    /// The file is well-formed and holds no picture.
    NoCover,
}

/// The view of a [`ScanError`].
pub enum ScanErrorView {
    MetadataError { path: Seq<char>, message: Seq<char> },
    FileError { path: Seq<char>, message: Seq<char> },
    DatabaseError { path: Seq<char>, message: Seq<char> },
    NoCover,
}

impl View for ScanError {
    type V = ScanErrorView;

    open spec fn view(&self) -> ScanErrorView {
        match *self {
            ScanError::MetadataError(f) => ScanErrorView::MetadataError {
                path: f.path@,
                message: f.message@,
            },
            ScanError::FileError(f) => ScanErrorView::FileError {
                path: f.path@,
                message: f.message@,
            },
            ScanError::DatabaseError(f) => ScanErrorView::DatabaseError {
                path: f.path@,
                message: f.message@,
            },
            ScanError::NoCover => ScanErrorView::NoCover,
        }
    }
}

/// The text shown for a file without a cover.
pub const NO_COVER: &'static str = "No cover";

impl ScanErrorView {
    /// The text that describes the error: the message of the failure, or a
    /// fixed text where there is none.
    pub open spec fn message(self) -> Seq<char> {
        match self {
            ScanErrorView::MetadataError { message, .. } => message,
            ScanErrorView::FileError { message, .. } => message,
            ScanErrorView::DatabaseError { message, .. } => message,
            ScanErrorView::NoCover => NO_COVER@,
        }
    }

    /// The file that the error is about, where it names one.
    pub open spec fn path(self) -> Option<Seq<char>> {
        match self {
            ScanErrorView::MetadataError { path, .. } => Some(path),
            ScanErrorView::FileError { path, .. } => Some(path),
            ScanErrorView::DatabaseError { path, .. } => Some(path),
            ScanErrorView::NoCover => None,
        }
    }
}

impl ScanError {
    /// An error of parsing for the file at `path`.
    pub fn metadata(path: &str, message: &str) -> (e: ScanError)
        ensures
            e@ == (ScanErrorView::MetadataError { path: path@, message: message@ }),
    {
        ScanError::MetadataError(Failure { path: path.to_owned(), message: message.to_owned() })
    }

    /// An error of the file system for the file at `path`.
    pub fn file(path: &str, message: &str) -> (e: ScanError)
        ensures
            e@ == (ScanErrorView::FileError { path: path@, message: message@ }),
    {
        ScanError::FileError(Failure { path: path.to_owned(), message: message.to_owned() })
    }

    /// An error of the store for the file at `path`.
    pub fn database(path: &str, message: &str) -> (e: ScanError)
        ensures
            e@ == (ScanErrorView::DatabaseError { path: path@, message: message@ }),
    {
        ScanError::DatabaseError(Failure { path: path.to_owned(), message: message.to_owned() })
    }

    /// The text that describes the error.
    pub fn message(&self) -> (text: String)
        ensures
            text@ == self@.message(),
    {
        match self {
            ScanError::MetadataError(f) => f.message.clone(),
            ScanError::FileError(f) => f.message.clone(),
            ScanError::DatabaseError(f) => f.message.clone(),
            ScanError::NoCover => NO_COVER.to_owned(),
        }
    }

    /// The file that the error is about, where it names one.
    pub fn path(&self) -> (path: Option<String>)
        ensures
            crate::text::opt_view(path) == self@.path(),
    {
        match self {
            ScanError::MetadataError(f) => Some(f.path.clone()),
            ScanError::FileError(f) => Some(f.path.clone()),
            ScanError::DatabaseError(f) => Some(f.path.clone()),
            ScanError::NoCover => None,
        }
    }
}

} // verus!
