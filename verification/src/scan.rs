//! A scan of a directory tree: which files it reads, what it writes for each,
//! and what it reports.
//!
//! The caller walks the tree, reads each candidate, runs each transaction and
//! hands back what happened. A file that fails counts as an error and does
//! not stop the others.

use vstd::prelude::*;

use crate::catalog::{statements_view, Statement, StatementView, Table};
use crate::error::{ScanError, ScanErrorView};
use crate::filter::{accepted_paths, candidates, paths_view, WalkItem};
use crate::record::{resolve, resolved, FileRead, Record, RecordView};

verus! {

/// The statements of the one transaction that stores `record` under `root`.
///
/// The first track of the first disc brings its artist and its album with
/// it; every other track brings only itself.
pub open spec fn transaction_of(record: RecordView, root: Seq<char>) -> Seq<StatementView> {
    if record.track_number == 1 && record.disc_number == 1 {
        seq![
            StatementView::InsertArtist { artist_name: record.album_artist },
            StatementView::InsertAlbum {
                album_title: record.album_title,
                artist_name: record.album_artist,
            },
            StatementView::InsertSong { record, directory: root },
        ]
    } else {
        seq![StatementView::InsertSong { record, directory: root }]
    }
}

/// The statements that come before the files of a scan of `root`.
pub open spec fn opening_of(root: Seq<char>) -> Seq<StatementView> {
    seq![StatementView::InsertDirectory { path: root }]
}

/// The statements that come after the files of a scan.
pub open spec fn closing() -> Seq<StatementView> {
    seq![StatementView::RebuildSearch]
}

/// The statements that empty the catalog, table by table.
pub open spec fn clearing() -> Seq<StatementView> {
    seq![
        StatementView::Clear(Table::Artist),
        StatementView::Clear(Table::Album),
        StatementView::Clear(Table::Directory),
        StatementView::Clear(Table::Song),
        StatementView::Clear(Table::SongSearch),
    ]
}

/// What is written for the file read as `read`: its transaction, or the
/// reason why there is none.
pub open spec fn planned(read: FileRead, root: Seq<char>) -> Result<
    Seq<StatementView>,
    ScanErrorView,
> {
    match resolved(read) {
        Ok(record) => Ok(transaction_of(record, root)),
        Err(e) => Err(e),
    }
}

/// The view of what `insert_into` returns.
pub open spec fn plan_view(plan: Result<Vec<Statement>, ScanError>) -> Result<
    Seq<StatementView>,
    ScanErrorView,
> {
    match plan {
        Ok(statements) => Ok(statements_view(statements@)),
        Err(e) => Err(e@),
    }
}

/// What became of the file at `path`. `answered` is the error that kept the
/// file from the store, or what the store answered to its transaction.
pub open spec fn outcome_of(path: Seq<char>, answered: Result<Result<(), String>, ScanError>)
    -> Result<(), ScanErrorView> {
    match answered {
        Ok(Ok(_)) => Ok(()),
        Ok(Err(message)) => Err(ScanErrorView::DatabaseError { path, message: message@ }),
        Err(e) => Err(e@),
    }
}

/// The view of what became of one file.
pub open spec fn outcome_view(outcome: Result<(), ScanError>) -> Result<(), ScanErrorView> {
    match outcome {
        Ok(_) => Ok(()),
        Err(e) => Err(e@),
    }
}

/// How many of `outcomes` are successes.
pub open spec fn successes(outcomes: Seq<Result<(), ScanError>>) -> nat
    decreases outcomes.len(),
{
    if outcomes.len() == 0 {
        0
    } else if outcomes.last() is Ok {
        successes(outcomes.drop_last()) + 1
    } else {
        successes(outcomes.drop_last())
    }
}

/// The errors among `outcomes`, in their order.
pub open spec fn failures(outcomes: Seq<Result<(), ScanError>>) -> Seq<ScanErrorView>
    decreases outcomes.len(),
{
    if outcomes.len() == 0 {
        Seq::empty()
    } else {
        match outcomes.last() {
            Ok(_) => failures(outcomes.drop_last()),
            Err(e) => failures(outcomes.drop_last()).push(e@),
        }
    }
}

/// The views of a list of errors.
pub open spec fn errors_view(errors: Seq<ScanError>) -> Seq<ScanErrorView> {
    Seq::new(errors.len(), |i: int| errors[i]@)
}

/// Each outcome is a success or an error, and none is both.
pub proof fn lemma_every_outcome_counts(outcomes: Seq<Result<(), ScanError>>)
    ensures
        successes(outcomes) + failures(outcomes).len() == outcomes.len(),
    decreases outcomes.len(),
{
    if outcomes.len() > 0 {
        lemma_every_outcome_counts(outcomes.drop_last());
    }
}

/// What a scan does around its files.
#[derive(Debug, Clone, PartialEq, Eq)]
pub struct ScanPlan {
    /// The statements to run before any file is read. If one of them fails,
    /// the scan cannot go on.
    pub opening: Vec<Statement>,
    /// The paths of the files to read.
    pub candidates: Vec<String>,
    /// The statements to run when every file is done. If one of them fails,
    /// the scan has failed.
    pub closing: Vec<Statement>,
}

/// The statements of the transaction that stores `record` under `root`.
pub fn transaction(record: Record, root: &str) -> (statements: Vec<Statement>)
    ensures
        statements_view(statements@) == transaction_of(record@, root@),
{
    let mut statements: Vec<Statement> = Vec::new();
    if record.track_number == 1 && record.disc_number == 1 {
        statements.push(Statement::InsertArtist { artist_name: record.album_artist.clone() });
        statements.push(
            Statement::InsertAlbum {
                album_title: record.album_title.clone(),
                artist_name: record.album_artist.clone(),
            },
        );
    }
    statements.push(Statement::InsertSong { record, directory: root.to_owned() });
    proof {
        assert(statements_view(statements@) =~= transaction_of(record@, root@));
    }
    statements
}

/// What to write for one file of a scan of `root`: the transaction that
/// stores it, or the error that keeps it out of the catalog.
pub fn insert_into(read: &FileRead, root: &str) -> (plan: Result<Vec<Statement>, ScanError>)
    ensures
        plan_view(plan) == planned(*read, root@),
{
    match resolve(read) {
        Ok(record) => Ok(transaction(record, root)),
        Err(e) => Err(e),
    }
}

/// What became of the file at `path`: a success if the store took its
/// transaction, and else an error.
///
/// `answered` is the error that kept the file from the store, or what the
/// store answered. A transaction that the store refused is an error of the
/// database; nothing of it stays in the catalog.
pub fn stored(path: &str, answered: Result<Result<(), String>, ScanError>) -> (outcome: Result<
    (),
    ScanError,
>)
    ensures
        outcome_view(outcome) == outcome_of(path@, answered),
{
    match answered {
        Ok(Ok(_)) => Ok(()),
        Ok(Err(message)) => Err(ScanError::database(path, message.as_str())),
        Err(e) => Err(e),
    }
}

/// What a scan reports: how many files were stored, and the errors of the
/// others.
pub fn report(outcomes: Vec<Result<(), ScanError>>) -> (totals: (usize, Vec<ScanError>))
    ensures
        totals.0 == successes(outcomes@),
        errors_view(totals.1@) == failures(outcomes@),
        totals.0 + totals.1.len() == outcomes.len(),
{
    let ghost all = outcomes@;
    let len = outcomes.len();
    let mut count: usize = 0;
    let mut errors: Vec<ScanError> = Vec::new();
    for outcome in it: outcomes
        invariant
            it.seq() == all,
            all.len() == len,
            count == successes(all.take(it.index() as int)),
            errors_view(errors@) == failures(all.take(it.index() as int)),
            count + errors.len() == it.index(),
    {
        proof {
            assert(all.take(it.index() + 1).drop_last() == all.take(it.index() as int));
        }
        match outcome {
            Ok(_) => {
                count = count + 1;
            },
            Err(e) => {
                let ghost before = errors@;
                errors.push(e);
                proof {
                    assert(errors_view(errors@) =~= errors_view(before).push(e@));
                }
            },
        }
    }
    proof {
        assert(all.take(all.len() as int) == all);
    }
    (count, errors)
}

/// Plans a scan of `root`, in which walking the tree gave `walked`.
///
/// The root is registered first. Of the entries only the regular files with
/// an audio extension are read; any other entry is as if it were not there.
/// The search index is extended last.
pub fn scan_directory(root: &str, walked: &Vec<WalkItem>) -> (plan: ScanPlan)
    ensures
        statements_view(plan.opening@) == opening_of(root@),
        paths_view(plan.candidates@) == accepted_paths(walked@),
        statements_view(plan.closing@) == closing(),
{
    let mut opening: Vec<Statement> = Vec::new();
    opening.push(Statement::InsertDirectory { path: root.to_owned() });
    let mut closing: Vec<Statement> = Vec::new();
    closing.push(Statement::RebuildSearch);
    proof {
        assert(statements_view(opening@) =~= opening_of(root@));
        assert(statements_view(closing@) =~= crate::scan::closing());
    }
    ScanPlan { opening, candidates: candidates(walked), closing }
}

/// Plans a scan of `root` that first empties the catalog.
pub fn rescan_directory(root: &str, walked: &Vec<WalkItem>) -> (plan: ScanPlan)
    ensures
        statements_view(plan.opening@) == clearing() + opening_of(root@),
        paths_view(plan.candidates@) == accepted_paths(walked@),
        statements_view(plan.closing@) == closing(),
{
    let mut plan = scan_directory(root, walked);
    let mut opening: Vec<Statement> = Vec::new();
    opening.push(Statement::Clear(Table::Artist));
    opening.push(Statement::Clear(Table::Album));
    opening.push(Statement::Clear(Table::Directory));
    opening.push(Statement::Clear(Table::Song));
    opening.push(Statement::Clear(Table::SongSearch));
    let ghost cleared = opening@;
    let ghost registered = plan.opening@;
    opening.append(&mut plan.opening);
    proof {
        assert(statements_view(cleared) =~= clearing());
        assert(statements_view(opening@) =~= statements_view(cleared) + statements_view(registered));
    }
    ScanPlan { opening, candidates: plan.candidates, closing: plan.closing }
}

} // verus!
