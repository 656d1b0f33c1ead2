//! How the store is opened.

use vstd::prelude::*;

use crate::error::{ScanError, ScanErrorView};
use crate::text::opt_view;

verus! {

/// The tables of the catalog. A store that has them keeps them as they are.
pub const SCHEMA: &'static str = "CREATE TABLE IF NOT EXISTS directory (path TEXT PRIMARY KEY);
CREATE TABLE IF NOT EXISTS artist (artist_name TEXT PRIMARY KEY);
CREATE TABLE IF NOT EXISTS album (album_title TEXT, artist_name TEXT);
CREATE TABLE IF NOT EXISTS song (disc_number INT, path TEXT UNIQUE, title TEXT, modified_stamp INT, artist_name TEXT, track_number INT, duration INT, album_title TEXT, directory TEXT, album_artist TEXT);
CREATE TABLE IF NOT EXISTS song_search (title TEXT, artist_name TEXT, album_title TEXT, path TEXT);
";

/// How to open the file of the store.
#[derive(Debug, Clone, PartialEq, Eq)]
pub struct Setup {
    /// The directory to create first, with those above it.
    pub parent: Option<String>,
    /// Whether to create the file and to give it the tables of `SCHEMA`.
    pub create: bool,
    /// How many idle connections the pool keeps at least.
    pub min_idle: u32,
}

/// The view of a [`Setup`].
pub struct SetupView {
    pub parent: Option<Seq<char>>,
    pub create: bool,
    pub min_idle: u32,
}

impl View for Setup {
    type V = SetupView;

    open spec fn view(&self) -> SetupView {
        SetupView { parent: opt_view(self.parent), create: self.create, min_idle: self.min_idle }
    }
}

/// What to tell of a path that has no parent.
pub const NO_PARENT: &'static str = "Do not pass a directory!";

/// How the store at `path` is opened. A file that exists is opened as it
/// is. One that does not is created, with the directories above it and the
/// tables; a path without a parent cannot be created.
pub open spec fn setup_of(path: Seq<char>, exists: bool, parent: Option<Seq<char>>) -> Result<
    SetupView,
    ScanErrorView,
> {
    if exists {
        Ok(SetupView { parent: None, create: false, min_idle: 1 })
    } else {
        match parent {
            Some(directory) => Ok(SetupView { parent: Some(directory), create: true, min_idle: 1 }),
            None => Err(ScanErrorView::FileError { path, message: NO_PARENT@ }),
        }
    }
}

/// The view of what `database` returns.
pub open spec fn database_view(setup: Result<Setup, ScanError>) -> Result<SetupView, ScanErrorView> {
    match setup {
        Ok(s) => Ok(s@),
        Err(e) => Err(e@),
    }
}

/// Decides how to open the store at `path`, given whether the file exists
/// and what the parent of the path is.
pub fn database(path: &str, exists: bool, parent: Option<&str>) -> (setup: Result<Setup, ScanError>)
    ensures
        database_view(setup) == setup_of(
            path@,
            exists,
            match parent {
                Some(directory) => Some(directory@),
                None => None,
            },
        ),
{
    if exists {
        Ok(Setup { parent: None, create: false, min_idle: 1 })
    } else {
        match parent {
            Some(directory) => Ok(
                Setup { parent: Some(directory.to_owned()), create: true, min_idle: 1 },
            ),
            None => Err(ScanError::file(path, NO_PARENT)),
        }
    }
}

} // verus!
