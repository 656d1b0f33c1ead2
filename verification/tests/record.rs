use music_library::error::{Failure, ScanError};
use music_library::record::{
    resolve, resolve_number, resolve_tags, resolve_text, Audio, FileRead, Length, Record,
};
use music_library::tags::{TagItem, TagKey, WantedTags};

fn tag(key: TagKey, value: &str) -> TagItem {
    TagItem { key, text: Some(value.to_string()) }
}

fn no_tags() -> WantedTags {
    WantedTags {
        album_artist: None,
        track_artist: None,
        album_title: None,
        track_title: None,
        track_number: None,
        disc_number: None,
    }
}

fn read_of(primary: Option<Vec<TagItem>>) -> FileRead {
    FileRead {
        path: "music/a.mp3".to_string(),
        audio: Ok(Audio { length: Length { secs: 251, subsec_nanos: 999_999_999 }, primary }),
        absolute: Ok("/home/music/a.mp3".to_string()),
        modified: Ok(1_700_000_000),
    }
}

fn failure(message: &str) -> Failure {
    Failure { path: "music/a.mp3".to_string(), message: message.to_string() }
}

#[test]
fn a_file_without_a_tag_gets_every_default() {
    let record = resolve(&read_of(None)).unwrap();
    assert_eq!(record.title, "UNKNOWN");
    assert_eq!(record.album_title, "UNKNOWN");
    assert_eq!(record.artist_name, "UNKNOWN");
    assert_eq!(record.album_artist, "UNKNOWN");
    assert_eq!(record.track_number, 1);
    assert_eq!(record.disc_number, 1);
}

#[test]
fn a_file_with_an_empty_tag_gets_every_default() {
    assert_eq!(
        resolve(&read_of(Some(vec![]))),
        Ok(Record {
            disc_number: 1,
            path: "/home/music/a.mp3".to_string(),
            title: "UNKNOWN".to_string(),
            modified_stamp: 1_700_000_000,
            artist_name: "UNKNOWN".to_string(),
            track_number: 1,
            duration: 251,
            album_title: "UNKNOWN".to_string(),
            album_artist: "UNKNOWN".to_string(),
        })
    );
}

#[test]
fn a_full_tag_fills_the_record() {
    let items = vec![
        tag(TagKey::TrackTitle, "So What"),
        tag(TagKey::TrackArtist, "Miles Davis"),
        tag(TagKey::AlbumTitle, "Kind of Blue"),
        tag(TagKey::AlbumArtist, "Miles Davis Sextet"),
        tag(TagKey::TrackNumber, "1/5"),
        tag(TagKey::DiscNumber, "01"),
        tag(TagKey::Other, "1959"),
    ];
    assert_eq!(
        resolve(&read_of(Some(items))),
        Ok(Record {
            disc_number: 1,
            path: "/home/music/a.mp3".to_string(),
            title: "So What".to_string(),
            modified_stamp: 1_700_000_000,
            artist_name: "Miles Davis".to_string(),
            track_number: 1,
            duration: 251,
            album_title: "Kind of Blue".to_string(),
            album_artist: "Miles Davis Sextet".to_string(),
        })
    );
}

#[test]
fn the_length_is_cut_to_whole_seconds() {
    let length = Length { secs: 59, subsec_nanos: 999_999_999 };
    assert_eq!(length.whole_seconds(), 59);
    assert_eq!(Length { secs: 0, subsec_nanos: 1 }.whole_seconds(), 0);
    assert_eq!(resolve(&read_of(None)).unwrap().duration, 251);
}

#[test]
fn the_path_of_the_record_is_the_absolute_one() {
    let record = resolve(&read_of(None)).unwrap();
    assert_eq!(record.path, "/home/music/a.mp3");
    assert_eq!(record.modified_stamp, 1_700_000_000);
}

#[test]
fn a_missing_text_is_unknown() {
    assert_eq!(resolve_text(&None), "UNKNOWN");
    assert_eq!(resolve_text(&Some("Title".to_string())), "Title");
    assert_eq!(resolve_text(&Some(String::new())), "");
}

#[test]
fn a_missing_number_is_one() {
    assert_eq!(resolve_number(&None), 1);
    assert_eq!(resolve_number(&Some("3/12".to_string())), 3);
    assert_eq!(resolve_number(&Some("12".to_string())), 12);
    assert_eq!(resolve_number(&Some("0".to_string())), 0);
    assert_eq!(resolve_number(&Some("0/9".to_string())), 0);
}

#[test]
fn a_number_that_cannot_be_read_is_one() {
    assert_eq!(resolve_number(&Some("none".to_string())), 1);
    assert_eq!(resolve_number(&Some("abc".to_string())), 1);
    assert_eq!(resolve_number(&Some(String::new())), 1);
    assert_eq!(resolve_number(&Some(" 7".to_string())), 1);
    assert_eq!(resolve_number(&Some("/12".to_string())), 1);
    assert_eq!(resolve_number(&Some("A1".to_string())), 1);
}

#[test]
fn a_track_number_without_a_digit_resolves_to_the_first_track() {
    let items = vec![tag(TagKey::TrackNumber, "abc"), tag(TagKey::TrackTitle, "Title")];
    let record = resolve(&read_of(Some(items))).unwrap();
    assert_eq!(record.track_number, 1);
    assert_eq!(record.disc_number, 1);
    let items = vec![tag(TagKey::TrackNumber, "2"), tag(TagKey::DiscNumber, "one")];
    let record = resolve(&read_of(Some(items))).unwrap();
    assert_eq!(record.track_number, 2);
    assert_eq!(record.disc_number, 1);
}

#[test]
fn the_album_artist_comes_before_the_track_artist() {
    let both = WantedTags {
        album_artist: Some("Various".to_string()),
        track_artist: Some("Someone".to_string()),
        ..no_tags()
    };
    let record = resolve_tags(&both, 1, "/p", 2);
    assert_eq!(record.album_artist, "Various");
    assert_eq!(record.artist_name, "Someone");
}

#[test]
fn without_an_album_artist_the_track_artist_stands_in() {
    let only_track = WantedTags { track_artist: Some("Someone".to_string()), ..no_tags() };
    let record = resolve_tags(&only_track, 1, "/p", 2);
    assert_eq!(record.album_artist, "Someone");
    assert_eq!(record.artist_name, "Someone");
}

#[test]
fn an_album_artist_alone_leaves_the_track_artist_unknown() {
    let only_album = WantedTags { album_artist: Some("Various".to_string()), ..no_tags() };
    let record = resolve_tags(&only_album, 1, "/p", 2);
    assert_eq!(record.album_artist, "Various");
    assert_eq!(record.artist_name, "UNKNOWN");
}

#[test]
fn an_album_artist_that_is_not_text_does_not_count() {
    let items = vec![
        TagItem { key: TagKey::AlbumArtist, text: None },
        tag(TagKey::TrackArtist, "Someone"),
    ];
    let record = resolve(&read_of(Some(items))).unwrap();
    assert_eq!(record.album_artist, "Someone");
}

#[test]
fn a_file_that_did_not_parse_is_an_error_of_metadata() {
    let read = FileRead { audio: Err("bad header".to_string()), ..read_of(None) };
    assert_eq!(resolve(&read), Err(ScanError::MetadataError(failure("bad header"))));
}

#[test]
fn a_path_that_cannot_be_resolved_is_an_error_of_the_file() {
    let read = FileRead { absolute: Err("no such directory".to_string()), ..read_of(None) };
    assert_eq!(resolve(&read), Err(ScanError::FileError(failure("no such directory"))));
}

#[test]
fn a_file_without_a_time_is_an_error_of_the_file() {
    let read = FileRead { modified: Err("permission denied".to_string()), ..read_of(None) };
    assert_eq!(resolve(&read), Err(ScanError::FileError(failure("permission denied"))));
}

#[test]
fn the_first_failure_is_the_one_that_counts() {
    let all = FileRead {
        path: "music/a.mp3".to_string(),
        audio: Err("first".to_string()),
        absolute: Err("second".to_string()),
        modified: Err("third".to_string()),
    };
    assert_eq!(resolve(&all), Err(ScanError::MetadataError(failure("first"))));
    let two = FileRead { audio: read_of(None).audio, ..all };
    assert_eq!(resolve(&two), Err(ScanError::FileError(failure("second"))));
}

#[test]
fn an_error_tells_its_message_and_its_file() {
    let e = ScanError::metadata("a.mp3", "bad header");
    assert_eq!(e.message(), "bad header");
    assert_eq!(e.path(), Some("a.mp3".to_string()));
    assert_eq!(ScanError::file("b", "m").message(), "m");
    assert_eq!(ScanError::database("c", "locked").path(), Some("c".to_string()));
    assert_eq!(ScanError::NoCover.message(), "No cover");
    assert_eq!(ScanError::NoCover.path(), None);
}

#[test]
fn the_kinds_of_error_differ() {
    assert!(matches!(ScanError::metadata("p", "m"), ScanError::MetadataError(_)));
    assert!(matches!(ScanError::file("p", "m"), ScanError::FileError(_)));
    assert!(matches!(ScanError::database("p", "m"), ScanError::DatabaseError(_)));
    assert_ne!(ScanError::metadata("p", "m"), ScanError::file("p", "m"));
}
