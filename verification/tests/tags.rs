use music_library::tags::{extract_metadata, TagItem, TagKey, WantedTags};

fn text(key: TagKey, value: &str) -> TagItem {
    TagItem { key, text: Some(value.to_string()) }
}

fn binary(key: TagKey) -> TagItem {
    TagItem { key, text: None }
}

fn nothing() -> WantedTags {
    WantedTags {
        album_artist: None,
        track_artist: None,
        album_title: None,
        track_title: None,
        track_number: None,
        disc_number: None,
    }
}

#[test]
fn an_empty_tag_holds_nothing() {
    assert_eq!(extract_metadata(&vec![]), nothing());
}

#[test]
fn each_key_goes_to_its_field() {
    let items = vec![
        text(TagKey::DiscNumber, "2"),
        text(TagKey::TrackNumber, "5"),
        text(TagKey::TrackTitle, "Title"),
        text(TagKey::AlbumTitle, "Album"),
        text(TagKey::TrackArtist, "Artist"),
        text(TagKey::AlbumArtist, "Various"),
    ];
    assert_eq!(
        extract_metadata(&items),
        WantedTags {
            album_artist: Some("Various".to_string()),
            track_artist: Some("Artist".to_string()),
            album_title: Some("Album".to_string()),
            track_title: Some("Title".to_string()),
            track_number: Some("5".to_string()),
            disc_number: Some("2".to_string()),
        }
    );
}

#[test]
fn other_entries_are_passed_over() {
    let items = vec![
        text(TagKey::Other, "2019"),
        text(TagKey::TrackTitle, "Title"),
        binary(TagKey::Other),
    ];
    assert_eq!(
        extract_metadata(&items),
        WantedTags { track_title: Some("Title".to_string()), ..nothing() }
    );
}

#[test]
fn the_last_entry_of_a_key_counts() {
    let items = vec![
        text(TagKey::TrackArtist, "First"),
        text(TagKey::TrackTitle, "Title"),
        text(TagKey::TrackArtist, "Second"),
    ];
    assert_eq!(extract_metadata(&items).track_artist, Some("Second".to_string()));
}

#[test]
fn a_value_that_is_not_text_is_no_text() {
    let items = vec![binary(TagKey::TrackTitle), text(TagKey::AlbumTitle, "Album")];
    let tags = extract_metadata(&items);
    assert_eq!(tags.track_title, None);
    assert_eq!(tags.album_title, Some("Album".to_string()));
}

#[test]
fn a_later_value_that_is_not_text_hides_the_text() {
    let items = vec![text(TagKey::TrackTitle, "Title"), binary(TagKey::TrackTitle)];
    assert_eq!(extract_metadata(&items).track_title, None);
}

#[test]
fn an_empty_text_is_kept() {
    let items = vec![text(TagKey::TrackTitle, "")];
    assert_eq!(extract_metadata(&items).track_title, Some(String::new()));
}

#[test]
fn the_pass_stops_when_all_six_keys_were_seen() {
    let items = vec![
        text(TagKey::AlbumArtist, "a"),
        text(TagKey::TrackArtist, "b"),
        text(TagKey::AlbumTitle, "c"),
        text(TagKey::TrackTitle, "d"),
        text(TagKey::TrackNumber, "1"),
        text(TagKey::DiscNumber, "2"),
        // not read any more
        text(TagKey::TrackTitle, "late"),
        text(TagKey::DiscNumber, "9"),
    ];
    let tags = extract_metadata(&items);
    assert_eq!(tags.track_title, Some("d".to_string()));
    assert_eq!(tags.disc_number, Some("2".to_string()));
}

#[test]
fn a_repeated_key_before_the_sixth_is_still_read() {
    let items = vec![
        text(TagKey::AlbumArtist, "a"),
        text(TagKey::TrackArtist, "b"),
        text(TagKey::AlbumTitle, "c"),
        text(TagKey::TrackTitle, "d"),
        text(TagKey::TrackNumber, "1"),
        text(TagKey::TrackTitle, "again"),
        text(TagKey::DiscNumber, "2"),
        text(TagKey::TrackTitle, "late"),
    ];
    let tags = extract_metadata(&items);
    assert_eq!(tags.track_title, Some("again".to_string()));
    assert_eq!(tags.disc_number, Some("2".to_string()));
}

#[test]
fn a_key_counts_as_seen_whatever_its_value() {
    let items = vec![
        binary(TagKey::AlbumArtist),
        binary(TagKey::TrackArtist),
        binary(TagKey::AlbumTitle),
        binary(TagKey::TrackTitle),
        binary(TagKey::TrackNumber),
        binary(TagKey::DiscNumber),
        text(TagKey::TrackTitle, "late"),
    ];
    assert_eq!(extract_metadata(&items), nothing());
}
