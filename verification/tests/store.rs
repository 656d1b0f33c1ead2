use music_library::error::{Failure, ScanError};
use music_library::status::{status_code, Ending};
use music_library::store::{database, Setup, SCHEMA};

#[test]
fn a_file_that_exists_is_opened_as_it_is() {
    assert_eq!(
        database("/data/library.db", true, Some("/data")),
        Ok(Setup { parent: None, create: false, min_idle: 1 })
    );
    assert_eq!(
        database("library.db", true, None),
        Ok(Setup { parent: None, create: false, min_idle: 1 })
    );
}

#[test]
fn a_new_file_is_created_with_its_directories() {
    assert_eq!(
        database("/data/music/library.db", false, Some("/data/music")),
        Ok(Setup { parent: Some("/data/music".to_string()), create: true, min_idle: 1 })
    );
    assert_eq!(
        database("library.db", false, Some("")),
        Ok(Setup { parent: Some(String::new()), create: true, min_idle: 1 })
    );
}

#[test]
fn a_new_file_without_a_parent_is_refused() {
    assert_eq!(
        database("/", false, None),
        Err(ScanError::FileError(Failure {
            path: "/".to_string(),
            message: "Do not pass a directory!".to_string(),
        }))
    );
}

#[test]
fn a_clean_scan_answers_zero() {
    assert_eq!(status_code(&Ending::Scanned { errors: 0 }), 0);
}

#[test]
fn a_scan_with_a_failed_file_answers_one() {
    assert_eq!(status_code(&Ending::Scanned { errors: 1 }), 1);
    assert_eq!(status_code(&Ending::Scanned { errors: 250 }), 1);
    assert_eq!(status_code(&Ending::Scanned { errors: usize::MAX }), 1);
}

#[test]
fn a_store_that_does_not_open_answers_one() {
    assert_eq!(status_code(&Ending::NoStore), 1);
}

#[test]
fn a_wrong_call_answers_minus_one() {
    assert_eq!(status_code(&Ending::BadArgument), -1);
}

#[test]
fn the_schema_has_the_five_tables() {
    for table in ["directory", "artist", "album", "song", "song_search"] {
        assert!(SCHEMA.contains(&format!("CREATE TABLE IF NOT EXISTS {} (", table)), "{}", table);
    }
    let conn = rusqlite::Connection::open_in_memory().unwrap();
    conn.execute_batch(SCHEMA).unwrap();
    // a second time changes nothing
    conn.execute_batch(SCHEMA).unwrap();
    let tables: i64 = conn
        .query_row("SELECT count(*) FROM sqlite_master WHERE type = 'table'", [], |row| row.get(0))
        .unwrap();
    assert_eq!(tables, 5);
}
