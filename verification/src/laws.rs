//! What holds of every scan, whatever the tree and the catalog.

use vstd::multiset::Multiset;
use vstd::prelude::*;

use crate::catalog::{projection, Catalog, SongRow, Statement, StatementView, Table};
use crate::error::{ScanError, ScanErrorView};
use crate::filter::{accepted, accepted_paths, WalkItem};
use crate::record::{resolved, FileRead, RecordView};
use crate::scan::{clearing, closing, opening_of, outcome_of, plan_view, planned, transaction_of};

verus! {

/// The transactions that store the files with the records `records` under
/// `root`.
pub open spec fn transactions_of(records: Seq<RecordView>, root: Seq<char>) -> Seq<
    Seq<StatementView>,
> {
    Seq::new(records.len(), |i: int| transaction_of(records[i], root))
}

/// The catalog after a scan of `root` in which the transactions of the
/// files with the records `records` committed, in this order. The files
/// that failed are not among them.
pub open spec fn scanned(catalog: Catalog, root: Seq<char>, records: Seq<RecordView>) -> Catalog {
    catalog.apply_all(opening_of(root)).commit_all(transactions_of(records, root)).apply_all(
        closing(),
    )
}

/// The catalog after a scan of `root` that first emptied it.
pub open spec fn rescanned(catalog: Catalog, root: Seq<char>, records: Seq<RecordView>) -> Catalog {
    scanned(catalog.apply_all(clearing()), root, records)
}

/// The songs after one more song was offered: a path that is taken keeps
/// its row.
pub open spec fn with_song(songs: Map<Seq<char>, SongRow>, record: RecordView, root: Seq<char>)
    -> Map<Seq<char>, SongRow> {
    if songs.dom().contains(record.path) {
        songs
    } else {
        songs.insert(record.path, SongRow { record, directory: root })
    }
}

/// The songs after the songs of `records` were offered, first to last.
pub open spec fn with_songs(
    songs: Map<Seq<char>, SongRow>,
    records: Seq<RecordView>,
    root: Seq<char>,
) -> Map<Seq<char>, SongRow>
    decreases records.len(),
{
    if records.len() == 0 {
        songs
    } else {
        with_song(with_songs(songs, records.drop_last(), root), records.last(), root)
    }
}

/// Whether a file brings its artist and its album with it.
pub open spec fn first_track(record: RecordView) -> bool {
    record.track_number == 1 && record.disc_number == 1
}

/// The artists after the files with the records `records` were stored.
pub open spec fn with_artists(artists: Set<Seq<char>>, records: Seq<RecordView>) -> Set<Seq<char>>
    decreases records.len(),
{
    if records.len() == 0 {
        artists
    } else if first_track(records.last()) {
        with_artists(artists, records.drop_last()).insert(records.last().album_artist)
    } else {
        with_artists(artists, records.drop_last())
    }
}

/// The albums after the files with the records `records` were stored, first
/// to last.
pub open spec fn with_albums(
    albums: Multiset<(Seq<char>, Seq<char>)>,
    records: Seq<RecordView>,
) -> Multiset<(Seq<char>, Seq<char>)>
    decreases records.len(),
{
    if records.len() == 0 {
        albums
    } else if first_track(records.last()) {
        with_albums(albums, records.drop_last()).insert(
            (records.last().album_title, records.last().album_artist),
        )
    } else {
        with_albums(albums, records.drop_last())
    }
}

proof fn lemma_apply_all_push(catalog: Catalog, statements: Seq<StatementView>, last: StatementView)
    ensures
        catalog.apply_all(statements.push(last)) == catalog.apply_all(statements).apply(last),
{
    assert(statements.push(last).drop_last() == statements);
}

proof fn lemma_apply_one(catalog: Catalog, statement: StatementView)
    ensures
        catalog.apply_all(seq![statement]) == catalog.apply(statement),
{
    lemma_apply_all_push(catalog, Seq::empty(), statement);
    assert(seq![statement] == Seq::<StatementView>::empty().push(statement));
}

/// A file's transaction offers its song and leaves the roots and the search
/// index alone.
proof fn lemma_transaction(catalog: Catalog, record: RecordView, root: Seq<char>)
    ensures
        catalog.apply_all(transaction_of(record, root)).songs == with_song(
            catalog.songs,
            record,
            root,
        ),
        catalog.apply_all(transaction_of(record, root)).directories == catalog.directories,
        catalog.apply_all(transaction_of(record, root)).search == catalog.search,
        catalog.apply_all(transaction_of(record, root)).artists == if first_track(record) {
            catalog.artists.insert(record.album_artist)
        } else {
            catalog.artists
        },
        catalog.apply_all(transaction_of(record, root)).albums == if first_track(record) {
            catalog.albums.insert((record.album_title, record.album_artist))
        } else {
            catalog.albums
        },
{
    let song = StatementView::InsertSong { record, directory: root };
    if record.track_number == 1 && record.disc_number == 1 {
        let artist = StatementView::InsertArtist { artist_name: record.album_artist };
        let album = StatementView::InsertAlbum {
            album_title: record.album_title,
            artist_name: record.album_artist,
        };
        assert(transaction_of(record, root) == seq![artist].push(album).push(song));
        lemma_apply_one(catalog, artist);
        lemma_apply_all_push(catalog, seq![artist], album);
        lemma_apply_all_push(catalog, seq![artist].push(album), song);
    } else {
        lemma_apply_one(catalog, song);
    }
}

proof fn lemma_commit_all(catalog: Catalog, records: Seq<RecordView>, root: Seq<char>)
    ensures
        catalog.commit_all(transactions_of(records, root)).songs == with_songs(
            catalog.songs,
            records,
            root,
        ),
        catalog.commit_all(transactions_of(records, root)).directories == catalog.directories,
        catalog.commit_all(transactions_of(records, root)).search == catalog.search,
        catalog.commit_all(transactions_of(records, root)).artists == with_artists(
            catalog.artists,
            records,
        ),
        catalog.commit_all(transactions_of(records, root)).albums == with_albums(
            catalog.albums,
            records,
        ),
    decreases records.len(),
{
    if records.len() > 0 {
        let transactions = transactions_of(records, root);
        assert(transactions.drop_last() == transactions_of(records.drop_last(), root));
        lemma_commit_all(catalog, records.drop_last(), root);
        lemma_transaction(catalog.commit_all(transactions.drop_last()), records.last(), root);
    }
}

/// Offering songs takes no row away and changes none.
proof fn lemma_with_songs_keeps(
    songs: Map<Seq<char>, SongRow>,
    records: Seq<RecordView>,
    root: Seq<char>,
)
    ensures
        forall|path: Seq<char>| #[trigger]
            songs.dom().contains(path) ==> with_songs(songs, records, root).dom().contains(path)
                && with_songs(songs, records, root)[path] == songs[path],
        forall|path: Seq<char>| #[trigger]
            with_songs(songs, records, root).dom().contains(path) ==> songs.dom().contains(path)
                || exists|i: int|
                0 <= i < records.len() && (#[trigger] records[i]).path == path && with_songs(
                    songs,
                    records,
                    root,
                )[path] == (SongRow { record: records[i], directory: root }),
        forall|i: int|
            0 <= i < records.len() ==> with_songs(songs, records, root).dom().contains(
                (#[trigger] records[i]).path,
            ),
    decreases records.len(),
{
    if records.len() > 0 {
        let before = with_songs(songs, records.drop_last(), root);
        let after = with_songs(songs, records, root);
        lemma_with_songs_keeps(songs, records.drop_last(), root);
        assert forall|i: int| 0 <= i < records.len() implies after.dom().contains(
            (#[trigger] records[i]).path,
        ) by {
            if i < records.len() - 1 {
                assert(records.drop_last()[i] == records[i]);
            }
        }
        assert forall|path: Seq<char>| #[trigger] after.dom().contains(path) implies songs.dom().contains(
            path,
        ) || exists|i: int|
            0 <= i < records.len() && (#[trigger] records[i]).path == path && after[path] == (SongRow {
                record: records[i],
                directory: root,
            }) by {
            if !songs.dom().contains(path) {
                if before.dom().contains(path) {
                    let i = choose|i: int|
                        0 <= i < records.drop_last().len() && (#[trigger] records.drop_last()[i]).path
                            == path && before[path] == (SongRow {
                            record: records.drop_last()[i],
                            directory: root,
                        });
                    assert(records[i] == records.drop_last()[i]);
                } else {
                    assert(records[records.len() - 1].path == path);
                }
            }
        }
    }
}

/// Offering songs whose paths are all taken changes nothing.
proof fn lemma_with_songs_taken(
    songs: Map<Seq<char>, SongRow>,
    records: Seq<RecordView>,
    root: Seq<char>,
)
    requires
        forall|i: int| 0 <= i < records.len() ==> songs.dom().contains((#[trigger] records[i]).path),
    ensures
        with_songs(songs, records, root) == songs,
    decreases records.len(),
{
    if records.len() > 0 {
        assert forall|i: int| 0 <= i < records.drop_last().len() implies songs.dom().contains(
            (#[trigger] records.drop_last()[i]).path,
        ) by {
            assert(records.drop_last()[i] == records[i]);
        }
        lemma_with_songs_taken(songs, records.drop_last(), root);
        assert(songs.dom().contains(records[records.len() - 1].path));
    }
}

/// What a scan does to each table: it registers the root, offers the songs,
/// adds the artists and albums of the first tracks, and appends a row for
/// each song to the search index.
pub proof fn lemma_scanned(catalog: Catalog, root: Seq<char>, records: Seq<RecordView>)
    ensures
        scanned(catalog, root, records).directories == catalog.directories.insert(root),
        scanned(catalog, root, records).artists == with_artists(catalog.artists, records),
        scanned(catalog, root, records).albums == with_albums(catalog.albums, records),
        scanned(catalog, root, records).songs == with_songs(catalog.songs, records, root),
        scanned(catalog, root, records).search == catalog.search.add(
            projection(with_songs(catalog.songs, records, root)),
        ),
{
    let registered = catalog.apply_all(opening_of(root));
    lemma_apply_one(catalog, StatementView::InsertDirectory { path: root });
    lemma_commit_all(registered, records, root);
    lemma_apply_one(
        registered.commit_all(transactions_of(records, root)),
        StatementView::RebuildSearch,
    );
}

/// Whether one of the files with the records `records` brings the artist
/// `name` with it.
pub open spec fn brings_artist(records: Seq<RecordView>, name: Seq<char>) -> bool {
    exists|i: int|
        0 <= i < records.len() && first_track(#[trigger] records[i]) && records[i].album_artist
            == name
}

/// Storing artists takes none away and brings in those of the first
/// tracks.
proof fn lemma_with_artists(artists: Set<Seq<char>>, records: Seq<RecordView>, name: Seq<char>)
    ensures
        with_artists(artists, records).contains(name) <==> artists.contains(name) || brings_artist(
            records,
            name,
        ),
    decreases records.len(),
{
    if records.len() > 0 {
        let shorter = records.drop_last();
        let last = records.len() - 1;
        lemma_with_artists(artists, shorter, name);
        if brings_artist(shorter, name) {
            let i = choose|i: int|
                0 <= i < shorter.len() && first_track(#[trigger] shorter[i])
                    && shorter[i].album_artist == name;
            assert(records[i] == shorter[i]);
        }
        if first_track(records[last]) && records[last].album_artist == name {
            assert(brings_artist(records, name));
        }
        if brings_artist(records, name) {
            let i = choose|i: int|
                0 <= i < records.len() && first_track(#[trigger] records[i]) && records[i].album_artist
                    == name;
            if i < last {
                assert(shorter[i] == records[i]);
            }
        }
    }
}

/// Storing albums adds to those that are there the albums that the same
/// files add to an empty table.
proof fn lemma_with_albums(albums: Multiset<(Seq<char>, Seq<char>)>, records: Seq<RecordView>)
    ensures
        with_albums(albums, records) == albums.add(with_albums(Multiset::empty(), records)),
    decreases records.len(),
{
    if records.len() == 0 {
        assert(albums.add(Multiset::empty()) =~= albums);
    } else {
        lemma_with_albums(albums, records.drop_last());
        let fresh = with_albums(Multiset::empty(), records.drop_last());
        if first_track(records.last()) {
            let album = (records.last().album_title, records.last().album_artist);
            assert(albums.add(fresh).insert(album) =~= albums.add(fresh.insert(album)));
        }
    }
}

/// A scan of a tree that has not changed since the last scan leaves the
/// songs as they are: the same rows, and none twice. So does it leave the
/// roots and the artists. The albums of the first tracks come once more.
pub proof fn lemma_scan_again(catalog: Catalog, root: Seq<char>, records: Seq<RecordView>)
    ensures
        scanned(scanned(catalog, root, records), root, records).songs == scanned(
            catalog,
            root,
            records,
        ).songs,
        scanned(scanned(catalog, root, records), root, records).directories == scanned(
            catalog,
            root,
            records,
        ).directories,
        scanned(scanned(catalog, root, records), root, records).artists == scanned(
            catalog,
            root,
            records,
        ).artists,
        scanned(scanned(catalog, root, records), root, records).albums == scanned(
            catalog,
            root,
            records,
        ).albums.add(with_albums(Multiset::empty(), records)),
{
    let once = scanned(catalog, root, records);
    let twice = scanned(once, root, records);
    lemma_scanned(catalog, root, records);
    lemma_scanned(once, root, records);
    lemma_with_songs_keeps(catalog.songs, records, root);
    lemma_with_songs_taken(once.songs, records, root);
    assert(once.directories.insert(root) == once.directories);
    assert forall|name: Seq<char>| twice.artists.contains(name) <==> once.artists.contains(
        name,
    ) by {
        lemma_with_artists(catalog.artists, records, name);
        lemma_with_artists(once.artists, records, name);
    }
    assert(twice.artists =~= once.artists);
    lemma_with_albums(once.albums, records);
}

/// A scan whose files the catalog holds already changes no song, whatever
/// their tags say now.
pub proof fn lemma_scan_of_known_files(catalog: Catalog, root: Seq<char>, records: Seq<RecordView>)
    requires
        forall|i: int|
            0 <= i < records.len() ==> catalog.songs.dom().contains((#[trigger] records[i]).path),
    ensures
        scanned(catalog, root, records).songs == catalog.songs,
{
    lemma_scanned(catalog, root, records);
    lemma_with_songs_taken(catalog.songs, records, root);
}

/// The order in which the files of a scan are stored does not show in the
/// songs, as long as no two of them have the same path.
pub proof fn lemma_order_is_immaterial(
    catalog: Catalog,
    root: Seq<char>,
    one: Seq<RecordView>,
    other: Seq<RecordView>,
)
    requires
        forall|i: int, j: int|
            0 <= i < j < other.len() ==> (#[trigger] other[i]).path != (#[trigger] other[j]).path,
        forall|i: int| 0 <= i < one.len() ==> other.contains(#[trigger] one[i]),
        forall|j: int| 0 <= j < other.len() ==> one.contains(#[trigger] other[j]),
    ensures
        scanned(catalog, root, one).songs == scanned(catalog, root, other).songs,
        scanned(catalog, root, one).artists == scanned(catalog, root, other).artists,
        scanned(catalog, root, one).directories == scanned(catalog, root, other).directories,
{
    lemma_scanned(catalog, root, one);
    lemma_scanned(catalog, root, other);
    lemma_with_songs_keeps(catalog.songs, one, root);
    lemma_with_songs_keeps(catalog.songs, other, root);
    let a = with_songs(catalog.songs, one, root);
    let b = with_songs(catalog.songs, other, root);
    assert forall|path: Seq<char>| a.dom().contains(path) implies #[trigger] b.dom().contains(path)
        && a[path] == b[path] by {
        if !catalog.songs.dom().contains(path) {
            let i = choose|i: int|
                0 <= i < one.len() && (#[trigger] one[i]).path == path && a[path] == (SongRow {
                    record: one[i],
                    directory: root,
                });
            assert(other.contains(one[i]));
            let j = choose|j: int| 0 <= j < other.len() && other[j] == one[i];
            assert(b.dom().contains(other[j].path));
            let k = choose|k: int|
                0 <= k < other.len() && (#[trigger] other[k]).path == path && b[path] == (SongRow {
                    record: other[k],
                    directory: root,
                });
            if k < j {
                assert(other[k].path != other[j].path);
            }
            if j < k {
                assert(other[j].path != other[k].path);
            }
        }
    }
    assert forall|path: Seq<char>| b.dom().contains(path) implies #[trigger] a.dom().contains(
        path,
    ) by {
        if !catalog.songs.dom().contains(path) {
            let k = choose|k: int|
                0 <= k < other.len() && (#[trigger] other[k]).path == path && b[path] == (SongRow {
                    record: other[k],
                    directory: root,
                });
            assert(one.contains(other[k]));
            let i = choose|i: int| 0 <= i < one.len() && one[i] == other[k];
            assert(a.dom().contains(one[i].path));
        }
    }
    assert(a =~= b);
    assert forall|name: Seq<char>|
        with_artists(catalog.artists, one).contains(name) <==> with_artists(
            catalog.artists,
            other,
        ).contains(name) by {
        lemma_with_artists(catalog.artists, one, name);
        lemma_with_artists(catalog.artists, other, name);
        if brings_artist(one, name) {
            let i = choose|i: int|
                0 <= i < one.len() && first_track(#[trigger] one[i]) && one[i].album_artist == name;
            assert(other.contains(one[i]));
            let j = choose|j: int| 0 <= j < other.len() && other[j] == one[i];
            assert(first_track(other[j]) && other[j].album_artist == name);
        }
        if brings_artist(other, name) {
            let j = choose|j: int|
                0 <= j < other.len() && first_track(#[trigger] other[j]) && other[j].album_artist
                    == name;
            assert(one.contains(other[j]));
            let i = choose|i: int| 0 <= i < one.len() && one[i] == other[j];
            assert(first_track(one[i]) && one[i].album_artist == name);
        }
    }
    assert(with_artists(catalog.artists, one) =~= with_artists(catalog.artists, other));
}

/// Each file whose transaction committed has a song at its path after the
/// scan, whatever became of the other files. Where the catalog had no song
/// there before, the song is that of the first such file.
pub proof fn lemma_stored_songs_present(
    catalog: Catalog,
    root: Seq<char>,
    records: Seq<RecordView>,
    i: int,
)
    requires
        0 <= i < records.len(),
    ensures
        scanned(catalog, root, records).songs.dom().contains(records[i].path),
        catalog.songs.dom().contains(records[i].path) ==> scanned(
            catalog,
            root,
            records,
        ).songs[records[i].path] == catalog.songs[records[i].path],
        !catalog.songs.dom().contains(records[i].path) ==> exists|first: int|
            0 <= first < records.len() && (#[trigger] records[first]).path == records[i].path
                && scanned(catalog, root, records).songs[records[i].path] == (SongRow {
                record: records[first],
                directory: root,
            }),
{
    lemma_scanned(catalog, root, records);
    lemma_with_songs_keeps(catalog.songs, records, root);
    let after = with_songs(catalog.songs, records, root);
    assert(after.dom().contains(records[i].path));
}

/// A scan keeps every song that the catalog held, unchanged: what the tags
/// of a file say now does not reach a song that is already there.
pub proof fn lemma_scan_keeps_songs(
    catalog: Catalog,
    root: Seq<char>,
    records: Seq<RecordView>,
    path: Seq<char>,
)
    requires
        catalog.songs.dom().contains(path),
    ensures
        scanned(catalog, root, records).songs.dom().contains(path),
        scanned(catalog, root, records).songs[path] == catalog.songs[path],
{
    lemma_scanned(catalog, root, records);
    lemma_with_songs_keeps(catalog.songs, records, root);
}

/// After a scan each song is held under its own path and under a root that
/// the catalog knows, if that was so before.
pub proof fn lemma_scan_keeps_wf(catalog: Catalog, root: Seq<char>, records: Seq<RecordView>)
    requires
        catalog.wf(),
    ensures
        scanned(catalog, root, records).wf(),
{
    let after = scanned(catalog, root, records);
    lemma_scanned(catalog, root, records);
    lemma_with_songs_keeps(catalog.songs, records, root);
    assert forall|path: Seq<char>| #[trigger] after.songs.dom().contains(path) implies after.songs[path].record.path
        == path && after.directories.contains(after.songs[path].directory) by {
        if catalog.songs.dom().contains(path) {
            assert(after.songs[path] == catalog.songs[path]);
        }
    }
}

/// The statements that open a rescan leave nothing of the catalog.
pub proof fn lemma_clearing_empties(catalog: Catalog)
    ensures
        catalog.apply_all(clearing()) == Catalog::empty(),
{
    let a = StatementView::Clear(Table::Artist);
    let b = StatementView::Clear(Table::Album);
    let c = StatementView::Clear(Table::Directory);
    let d = StatementView::Clear(Table::Song);
    let e = StatementView::Clear(Table::SongSearch);
    assert(clearing() == seq![a].push(b).push(c).push(d).push(e));
    lemma_apply_one(catalog, a);
    lemma_apply_all_push(catalog, seq![a], b);
    lemma_apply_all_push(catalog, seq![a].push(b), c);
    lemma_apply_all_push(catalog, seq![a].push(b).push(c), d);
    lemma_apply_all_push(catalog, seq![a].push(b).push(c).push(d), e);
}

/// A rescan forgets what the catalog held: the result is that of a scan of
/// the empty catalog. Where the tree holds no file any more, no song is
/// left; and the search index has one row for each song.
pub proof fn lemma_rescan_forgets(catalog: Catalog, root: Seq<char>, records: Seq<RecordView>)
    ensures
        rescanned(catalog, root, records) == scanned(Catalog::empty(), root, records),
        rescanned(catalog, root, records).wf(),
        rescanned(catalog, root, records).directories == Set::<Seq<char>>::empty().insert(root),
        rescanned(catalog, root, records).search == projection(
            rescanned(catalog, root, records).songs,
        ),
        records.len() == 0 ==> rescanned(catalog, root, records).songs == Map::<
            Seq<char>,
            SongRow,
        >::empty(),
        forall|path: Seq<char>| #[trigger]
            rescanned(catalog, root, records).songs.dom().contains(path) ==> exists|i: int|
                0 <= i < records.len() && (#[trigger] records[i]).path == path,
{
    lemma_clearing_empties(catalog);
    lemma_scanned(Catalog::empty(), root, records);
    lemma_scan_keeps_wf(Catalog::empty(), root, records);
    lemma_with_songs_keeps(Map::empty(), records, root);
    let after = rescanned(catalog, root, records);
    assert(Multiset::<crate::catalog::SearchRow>::empty().add(projection(after.songs)) =~= projection(
        after.songs,
    ));
}

/// What is handed to `stored` for a file with the plan `plan` to whose
/// transaction, if it has one, the store answered `answer`.
pub open spec fn answered(plan: Result<Vec<Statement>, ScanError>, answer: Result<(), String>)
    -> Result<Result<(), String>, ScanError> {
    match plan {
        Ok(_) => Ok(answer),
        Err(e) => Err(e),
    }
}

/// What becomes of a file depends on the file and on what the store
/// answers to it, and on no other file: one that does not resolve is an
/// error, its own, whatever the store would have said; one that resolves is
/// a success if the store takes its transaction and an error of the
/// database if not.
pub proof fn lemma_outcome_is_the_files_own(
    read: FileRead,
    root: Seq<char>,
    plan: Result<Vec<Statement>, ScanError>,
    answer: Result<(), String>,
)
    requires
        plan_view(plan) == planned(read, root),
    ensures
        resolved(read) matches Err(e) ==> outcome_of(read.path@, answered(plan, answer)) == Err::<
            (),
            ScanErrorView,
        >(e),
        resolved(read) is Ok && answer is Ok ==> outcome_of(read.path@, answered(plan, answer))
            is Ok,
        resolved(read) is Ok ==> (answer matches Err(message) ==> outcome_of(
            read.path@,
            answered(plan, answer),
        ) == Err::<(), ScanErrorView>(
            ScanErrorView::DatabaseError { path: read.path@, message: message@ },
        )),
{
}

/// An entry that is not accepted is invisible to a scan: with it or
/// without it, the same files are read.
pub proof fn lemma_rejected_is_invisible(items: Seq<WalkItem>, at: int, item: WalkItem)
    requires
        0 <= at <= items.len(),
        !accepted(item),
    ensures
        accepted_paths(items.insert(at, item)) == accepted_paths(items),
    decreases items.len() - at,
{
    let with = items.insert(at, item);
    if at == items.len() {
        assert(with.drop_last() == items);
    } else {
        assert(with.drop_last() == items.drop_last().insert(at, item));
        assert(with.last() == items.last());
        lemma_rejected_is_invisible(items.drop_last(), at, item);
    }
}

} // verus!
