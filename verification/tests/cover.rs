use music_library::cover::cover_data;
use music_library::error::{Failure, ScanError};

#[test]
fn the_one_picture_is_the_cover() {
    let picture = vec![0x89, b'P', b'N', b'G', 0x0d, 0x0a, 0x1a, 0x0a];
    let cover = cover_data("a.flac", Ok(Some(vec![picture.clone()]))).unwrap();
    assert!(!cover.is_empty());
    assert_eq!(cover, picture);
}

#[test]
fn the_first_of_several_pictures_is_the_cover() {
    let pictures = vec![vec![1, 2, 3], vec![4, 5], vec![6]];
    assert_eq!(cover_data("a.flac", Ok(Some(pictures))), Ok(vec![1, 2, 3]));
}

#[test]
fn a_tag_without_a_picture_has_no_cover() {
    assert_eq!(cover_data("a.flac", Ok(Some(vec![]))), Err(ScanError::NoCover));
}

#[test]
fn a_file_without_a_tag_has_no_cover() {
    assert_eq!(cover_data("a.flac", Ok(None)), Err(ScanError::NoCover));
}

#[test]
fn a_file_that_did_not_parse_is_an_error_of_metadata_not_of_cover() {
    assert_eq!(
        cover_data("a.flac", Err("bad header".to_string())),
        Err(ScanError::MetadataError(Failure {
            path: "a.flac".to_string(),
            message: "bad header".to_string(),
        }))
    );
}

#[test]
fn an_empty_picture_is_still_the_cover() {
    assert_eq!(cover_data("a.flac", Ok(Some(vec![vec![], vec![1]]))), Ok(vec![]));
}
