//! The catalog: its tables, the statements that fill them, and what each
//! statement does to them.
//!
//! The store itself is outside this crate. A statement is a value here: its
//! SQL text and its parameters go to the store, and `Catalog` says what the
//! store holds afterwards.

use vstd::multiset::Multiset;
use vstd::prelude::*;

use crate::record::{Record, RecordView};

verus! {

/// A table of the catalog.
#[derive(Debug, Clone, Copy, PartialEq, Eq, Structural)]
pub enum Table {
    Artist,
    Album,
    Directory,
    Song,
    SongSearch,
}

/// One statement for the store.
#[derive(Debug, Clone, PartialEq, Eq)]
pub enum Statement {
    /// Registers a scanned root, unless it is registered.
    InsertDirectory { path: String },
    /// Adds an artist, unless the catalog has one of that name.
    InsertArtist { artist_name: String },
    /// Adds an album, whether or not the catalog has it.
    InsertAlbum { album_title: String, artist_name: String },
    /// Adds a song, unless the catalog has one at that path.
    InsertSong { record: Record, directory: String },
    /// Appends one row for each song to the search index.
    RebuildSearch,
    /// Deletes every row of a table.
    Clear(Table),
}

/// The view of a [`Statement`].
pub enum StatementView {
    InsertDirectory { path: Seq<char> },
    InsertArtist { artist_name: Seq<char> },
    InsertAlbum { album_title: Seq<char>, artist_name: Seq<char> },
    InsertSong { record: RecordView, directory: Seq<char> },
    RebuildSearch,
    Clear(Table),
}

impl View for Statement {
    type V = StatementView;

    open spec fn view(&self) -> StatementView {
        match *self {
            Statement::InsertDirectory { path } => StatementView::InsertDirectory { path: path@ },
            Statement::InsertArtist { artist_name } => StatementView::InsertArtist {
                artist_name: artist_name@,
            },
            Statement::InsertAlbum { album_title, artist_name } => StatementView::InsertAlbum {
                album_title: album_title@,
                artist_name: artist_name@,
            },
            Statement::InsertSong { record, directory } => StatementView::InsertSong {
                record: record@,
                directory: directory@,
            },
            Statement::RebuildSearch => StatementView::RebuildSearch,
            Statement::Clear(table) => StatementView::Clear(table),
        }
    }
}

/// The views of a list of statements.
pub open spec fn statements_view(statements: Seq<Statement>) -> Seq<StatementView> {
    Seq::new(statements.len(), |i: int| statements[i]@)
}

/// A parameter of a statement, as the store holds it.
#[derive(Debug, Clone, PartialEq, Eq)]
pub enum Value {
    Text(String),
    Integer(i64),
}

/// The view of a [`Value`].
pub enum ValueView {
    Text(Seq<char>),
    Integer(i64),
}

impl View for Value {
    type V = ValueView;

    open spec fn view(&self) -> ValueView {
        match *self {
            Value::Text(text) => ValueView::Text(text@),
            Value::Integer(n) => ValueView::Integer(n),
        }
    }
}

/// The views of a list of parameters.
pub open spec fn values_view(values: Seq<Value>) -> Seq<ValueView> {
    Seq::new(values.len(), |i: int| values[i]@)
}

/// A song as the catalog holds it, under its path.
pub struct SongRow {
    pub record: RecordView,
    /// The scanned root under which the song was found.
    pub directory: Seq<char>,
}

/// A row of the search index.
pub struct SearchRow {
    pub title: Seq<char>,
    pub artist_name: Seq<char>,
    pub album_title: Seq<char>,
    pub path: Seq<char>,
}

/// What the store holds.
pub struct Catalog {
    /// The scanned roots.
    pub directories: Set<Seq<char>>,
    /// The names of the artists; none comes twice.
    pub artists: Set<Seq<char>>,
    /// The albums, each a title and an artist; one may come more than once.
    pub albums: Multiset<(Seq<char>, Seq<char>)>,
    /// The songs, each under its path.
    pub songs: Map<Seq<char>, SongRow>,
    /// The rows of the search index; one may come more than once.
    pub search: Multiset<SearchRow>,
}

/// The row of the search index for the song at `path`.
pub open spec fn search_row(path: Seq<char>, song: SongRow) -> SearchRow {
    SearchRow {
        title: song.record.title,
        artist_name: song.record.artist_name,
        album_title: song.record.album_title,
        path,
    }
}

/// One row of the search index for each song of `songs`.
pub open spec fn projection(songs: Map<Seq<char>, SongRow>) -> Multiset<SearchRow> {
    Multiset::from_set(
        Set::new(
            |row: SearchRow| songs.dom().contains(row.path) && row == search_row(row.path, songs[row.path]),
        ),
    )
}

impl Catalog {
    /// The catalog without a row.
    pub open spec fn empty() -> Catalog {
        Catalog {
            directories: Set::empty(),
            artists: Set::empty(),
            albums: Multiset::empty(),
            songs: Map::empty(),
            search: Multiset::empty(),
        }
    }

    /// Whether each song is held under its own path and under a root that
    /// the catalog knows.
    pub open spec fn wf(self) -> bool {
        forall|path: Seq<char>| #[trigger]
            self.songs.dom().contains(path) ==> self.songs[path].record.path == path
                && self.directories.contains(self.songs[path].directory)
    }

    /// The catalog after `statement`.
    pub open spec fn apply(self, statement: StatementView) -> Catalog {
        match statement {
            StatementView::InsertDirectory { path } => Catalog {
                directories: self.directories.insert(path),
                ..self
            },
            StatementView::InsertArtist { artist_name } => Catalog {
                artists: self.artists.insert(artist_name),
                ..self
            },
            StatementView::InsertAlbum { album_title, artist_name } => Catalog {
                albums: self.albums.insert((album_title, artist_name)),
                ..self
            },
            StatementView::InsertSong { record, directory } => if self.songs.dom().contains(
                record.path,
            ) {
                self
            } else {
                Catalog { songs: self.songs.insert(record.path, SongRow { record, directory }), ..self }
            },
            StatementView::RebuildSearch => Catalog {
                search: self.search.add(projection(self.songs)),
                ..self
            },
            StatementView::Clear(table) => match table {
                Table::Artist => Catalog { artists: Set::empty(), ..self },
                Table::Album => Catalog { albums: Multiset::empty(), ..self },
                Table::Directory => Catalog { directories: Set::empty(), ..self },
                Table::Song => Catalog { songs: Map::empty(), ..self },
                Table::SongSearch => Catalog { search: Multiset::empty(), ..self },
            },
        }
    }

    /// The catalog after the statements of `statements`, first to last.
    pub open spec fn apply_all(self, statements: Seq<StatementView>) -> Catalog
        decreases statements.len(),
    {
        if statements.len() == 0 {
            self
        } else {
            self.apply_all(statements.drop_last()).apply(statements.last())
        }
    }

    /// The catalog after the transactions of `transactions` have committed,
    /// first to last. A transaction that fails, be it that the store
    /// refuses a statement or that a statement cannot be run, leaves no
    /// trace and is not among them.
    pub open spec fn commit_all(self, transactions: Seq<Seq<StatementView>>) -> Catalog
        decreases transactions.len(),
    {
        if transactions.len() == 0 {
            self
        } else {
            self.commit_all(transactions.drop_last()).apply_all(transactions.last())
        }
    }
}

/// Registers a root, unless the store has it.
pub const INSERT_DIRECTORY: &'static str = "INSERT OR IGNORE INTO directory (path) VALUES (?1)";

/// Adds an artist, unless the store has one of that name.
pub const INSERT_ARTIST: &'static str = "INSERT OR IGNORE INTO artist (artist_name) VALUES (?1)";

/// Adds an album.
pub const INSERT_ALBUM: &'static str = "INSERT INTO album (album_title, artist_name) VALUES (?1, ?2)";

/// Adds a song, unless the store has one at that path.
pub const INSERT_SONG: &'static str = "INSERT OR IGNORE INTO song (disc_number, path, title, modified_stamp, artist_name, track_number, duration, album_title, directory, album_artist) VALUES (?1, ?2, ?3, ?4, ?5, ?6, ?7, ?8, ?9, ?10)";

/// Appends a row for each song to the search index.
pub const REBUILD_SEARCH: &'static str = "INSERT INTO song_search (title, artist_name, album_title, path) SELECT title, artist_name, album_title, path FROM song";

pub const CLEAR_ARTIST: &'static str = "DELETE FROM artist";

pub const CLEAR_ALBUM: &'static str = "DELETE FROM album";

pub const CLEAR_DIRECTORY: &'static str = "DELETE FROM directory";

pub const CLEAR_SONG: &'static str = "DELETE FROM song";

pub const CLEAR_SONG_SEARCH: &'static str = "DELETE FROM song_search";

/// The SQL text of `statement`.
pub open spec fn sql_of(statement: StatementView) -> Seq<char> {
    match statement {
        StatementView::InsertDirectory { .. } => INSERT_DIRECTORY@,
        StatementView::InsertArtist { .. } => INSERT_ARTIST@,
        StatementView::InsertAlbum { .. } => INSERT_ALBUM@,
        StatementView::InsertSong { .. } => INSERT_SONG@,
        StatementView::RebuildSearch => REBUILD_SEARCH@,
        StatementView::Clear(table) => match table {
            Table::Artist => CLEAR_ARTIST@,
            Table::Album => CLEAR_ALBUM@,
            Table::Directory => CLEAR_DIRECTORY@,
            Table::Song => CLEAR_SONG@,
            Table::SongSearch => CLEAR_SONG_SEARCH@,
        },
    }
}

/// What to tell of a number that the store cannot hold.
pub const OUT_OF_RANGE: &'static str = "the length of the song is out of range";

/// Whether the store can hold each number of `statement`: its integers
/// have 64 bits with a sign.
pub open spec fn storable(statement: StatementView) -> bool {
    match statement {
        StatementView::InsertSong { record, .. } => record.duration <= i64::MAX,
        _ => true,
    }
}

/// The parameters of `statement`, in the order of its placeholders.
pub open spec fn bound_values(statement: StatementView) -> Seq<ValueView> {
    match statement {
        StatementView::InsertDirectory { path } => seq![ValueView::Text(path)],
        StatementView::InsertArtist { artist_name } => seq![ValueView::Text(artist_name)],
        StatementView::InsertAlbum { album_title, artist_name } => seq![
            ValueView::Text(album_title),
            ValueView::Text(artist_name),
        ],
        StatementView::InsertSong { record, directory } => seq![
            ValueView::Integer(record.disc_number as i64),
            ValueView::Text(record.path),
            ValueView::Text(record.title),
            ValueView::Integer(record.modified_stamp),
            ValueView::Text(record.artist_name),
            ValueView::Integer(record.track_number as i64),
            ValueView::Integer(record.duration as i64),
            ValueView::Text(record.album_title),
            ValueView::Text(directory),
            ValueView::Text(record.album_artist),
        ],
        StatementView::RebuildSearch => Seq::empty(),
        StatementView::Clear(_) => Seq::empty(),
    }
}

/// The parameters of `statement`, or why it cannot be run: a song whose
/// length the store cannot hold is refused before it reaches the store.
pub open spec fn parameters_of(statement: StatementView) -> Result<Seq<ValueView>, Seq<char>> {
    if storable(statement) {
        Ok(bound_values(statement))
    } else {
        Err(OUT_OF_RANGE@)
    }
}

/// The view of what `parameters` returns.
pub open spec fn parameters_view(values: Result<Vec<Value>, String>) -> Result<
    Seq<ValueView>,
    Seq<char>,
> {
    match values {
        Ok(list) => Ok(values_view(list@)),
        Err(message) => Err(message@),
    }
}

impl Statement {
    /// The SQL text of the statement.
    pub fn sql(&self) -> (text: &'static str)
        ensures
            text@ == sql_of(self@),
    {
        match self {
            Statement::InsertDirectory { .. } => INSERT_DIRECTORY,
            Statement::InsertArtist { .. } => INSERT_ARTIST,
            Statement::InsertAlbum { .. } => INSERT_ALBUM,
            Statement::InsertSong { .. } => INSERT_SONG,
            Statement::RebuildSearch => REBUILD_SEARCH,
            Statement::Clear(table) => match table {
                Table::Artist => CLEAR_ARTIST,
                Table::Album => CLEAR_ALBUM,
                Table::Directory => CLEAR_DIRECTORY,
                Table::Song => CLEAR_SONG,
                Table::SongSearch => CLEAR_SONG_SEARCH,
            },
        }
    }

    /// The parameters of the statement, in the order of its placeholders,
    /// or the message with which the statement fails where the store cannot
    /// hold one of them.
    pub fn parameters(&self) -> (values: Result<Vec<Value>, String>)
        ensures
            parameters_view(values) == parameters_of(self@),
    {
        let mut values: Vec<Value> = Vec::new();
        match self {
            Statement::InsertDirectory { path } => {
                values.push(Value::Text(path.clone()));
            },
            Statement::InsertArtist { artist_name } => {
                values.push(Value::Text(artist_name.clone()));
            },
            Statement::InsertAlbum { album_title, artist_name } => {
                values.push(Value::Text(album_title.clone()));
                values.push(Value::Text(artist_name.clone()));
            },
            Statement::InsertSong { record, directory } => {
                if record.duration > i64::MAX as u64 {
                    return Err(OUT_OF_RANGE.to_owned());
                }
                values.push(Value::Integer(record.disc_number as i64));
                values.push(Value::Text(record.path.clone()));
                values.push(Value::Text(record.title.clone()));
                values.push(Value::Integer(record.modified_stamp));
                values.push(Value::Text(record.artist_name.clone()));
                values.push(Value::Integer(record.track_number as i64));
                values.push(Value::Integer(record.duration as i64));
                values.push(Value::Text(record.album_title.clone()));
                values.push(Value::Text(directory.clone()));
                values.push(Value::Text(record.album_artist.clone()));
            },
            Statement::RebuildSearch => {},
            Statement::Clear(_) => {},
        }
        proof {
            assert(values_view(values@) =~= bound_values(self@));
        }
        Ok(values)
    }
}

} // verus!
