//! From what was read of a file to the record that the catalog stores.

use vstd::prelude::*;

use crate::error::{ScanError, ScanErrorView};
use crate::number::{is_digit, lemma_digit_run, number_of, parse_number};
use crate::tags::{extract_metadata, nothing_wanted, wanted_of, TagItem, WantedTags, WantedView};

verus! {

/// How long a file plays: whole seconds, and the part of a second beyond
/// them in nanoseconds.
#[derive(Debug, Clone, Copy, PartialEq, Eq)]
pub struct Length {
    pub secs: u64,
    pub subsec_nanos: u32,
}

impl Length {
    /// The whole length in nanoseconds.
    pub open spec fn nanos(self) -> nat {
        self.secs as nat * 1_000_000_000 + self.subsec_nanos as nat
    }

    /// The length cut down to whole seconds.
    pub fn whole_seconds(&self) -> (secs: u64)
        ensures
            secs == self.secs,
            self.subsec_nanos < 1_000_000_000 ==> secs == self.nanos() / 1_000_000_000,
    {
        proof {
            if self.subsec_nanos < 1_000_000_000 {
                vstd::arithmetic::div_mod::lemma_fundamental_div_mod_converse(
                    self.nanos() as int,
                    1_000_000_000,
                    self.secs as int,
                    self.subsec_nanos as int,
                );
            }
        }
        self.secs
    }
}

/// What parsing a file gave.
#[derive(Debug, Clone, PartialEq, Eq)]
pub struct Audio {
    pub length: Length,
    /// The entries of the file's primary tag, in the order in which the tag
    /// holds them; `None` where the file has no such tag.
    pub primary: Option<Vec<TagItem>>,
}

/// What was read of one file. Each part that failed holds the message of the
/// failure in place of a value.
#[derive(Debug, PartialEq, Eq)]
pub struct FileRead {
    /// The path under which the file was found.
    pub path: String,
    /// The parsed file.
    pub audio: Result<Audio, String>,
    /// The absolute form of `path`.
    pub absolute: Result<String, String>,
    /// When the file was last modified, in seconds since the epoch.
    pub modified: Result<i64, String>,
}

/// A file as the catalog stores it: no field is missing.
#[derive(Debug, Clone, PartialEq, Eq)]
pub struct Record {
    pub disc_number: u32,
    /// The absolute path of the file.
    pub path: String,
    pub title: String,
    pub modified_stamp: i64,
    /// The artist of the track.
    pub artist_name: String,
    pub track_number: u32,
    /// The length in whole seconds.
    pub duration: u64,
    pub album_title: String,
    /// The artist under whom the album is filed.
    pub album_artist: String,
}

/// The view of a [`Record`].
pub struct RecordView {
    pub disc_number: u32,
    pub path: Seq<char>,
    pub title: Seq<char>,
    pub modified_stamp: i64,
    pub artist_name: Seq<char>,
    pub track_number: u32,
    pub duration: u64,
    pub album_title: Seq<char>,
    pub album_artist: Seq<char>,
}

impl View for Record {
    type V = RecordView;

    open spec fn view(&self) -> RecordView {
        RecordView {
            disc_number: self.disc_number,
            path: self.path@,
            title: self.title@,
            modified_stamp: self.modified_stamp,
            artist_name: self.artist_name@,
            track_number: self.track_number,
            duration: self.duration,
            album_title: self.album_title@,
            album_artist: self.album_artist@,
        }
    }
}

/// The text that stands for a missing title or artist.
pub const UNKNOWN: &'static str = "UNKNOWN";

/// The number that stands for a missing track or disc number.
pub const NO_NUM: u32 = 1;

/// A text tag, or `UNKNOWN` where it is missing.
pub open spec fn text_or_unknown(tag: Option<Seq<char>>) -> Seq<char> {
    match tag {
        Some(text) => text,
        None => UNKNOWN@,
    }
}

/// A number tag read from its front, or `NO_NUM` where it is missing or
/// cannot be read: a text that starts with no digit is no number.
pub open spec fn number_or_one(tag: Option<Seq<char>>) -> u32 {
    match tag {
        Some(text) => match number_of(text) {
            Some(n) => n,
            None => NO_NUM,
        },
        None => NO_NUM,
    }
}

/// The artist under whom the album is filed: the album artist, or the
/// artist of the track where the tag names none.
pub open spec fn effective_artist(tags: WantedView) -> Seq<char> {
    match tags.album_artist {
        Some(text) => text,
        None => text_or_unknown(tags.track_artist),
    }
}

/// The record of a file with the tags `tags`.
pub open spec fn record_of(tags: WantedView, duration: u64, path: Seq<char>, modified: i64)
    -> RecordView {
    RecordView {
        disc_number: number_or_one(tags.disc_number),
        path,
        title: text_or_unknown(tags.track_title),
        modified_stamp: modified,
        artist_name: text_or_unknown(tags.track_artist),
        track_number: number_or_one(tags.track_number),
        duration,
        album_title: text_or_unknown(tags.album_title),
        album_artist: effective_artist(tags),
    }
}

/// What one pass over the primary tag of `audio` finds.
pub open spec fn tags_of(audio: Audio) -> WantedView {
    match audio.primary {
        Some(items) => wanted_of(items@),
        None => nothing_wanted(),
    }
}

/// What `read` resolves to. A file that did not parse is an error of
/// metadata; one whose path or modification time could not be had is an
/// error of the file system; in this order.
pub open spec fn resolved(read: FileRead) -> Result<RecordView, ScanErrorView> {
    match read.audio {
        Err(message) => Err(ScanErrorView::MetadataError { path: read.path@, message: message@ }),
        Ok(audio) => match read.absolute {
            Err(message) => Err(ScanErrorView::FileError { path: read.path@, message: message@ }),
            Ok(absolute) => match read.modified {
                Err(message) => Err(ScanErrorView::FileError { path: read.path@, message: message@ }),
                Ok(modified) => Ok(
                    record_of(tags_of(audio), audio.length.secs, absolute@, modified),
                ),
            },
        },
    }
}

/// A track or disc number that starts with no digit cannot be read and
/// gets the default, as a missing one does. A record whose two numbers
/// are of that kind is a first track of a first disc.
pub proof fn lemma_unreadable_number_is_default(text: Seq<char>)
    requires
        text.len() == 0 || !is_digit(text[0]),
    ensures
        number_or_one(Some(text)) == NO_NUM,
        number_or_one(None) == NO_NUM,
{
    lemma_digit_run(text, 0);
}

/// A file without a tag, or with a tag that holds none of the six entries,
/// gets every default: the texts are `UNKNOWN` and the numbers are 1.
pub proof fn lemma_no_tags_all_defaults(duration: u64, path: Seq<char>, modified: i64)
    ensures
        record_of(nothing_wanted(), duration, path, modified) == (RecordView {
            disc_number: 1,
            path,
            title: UNKNOWN@,
            modified_stamp: modified,
            artist_name: UNKNOWN@,
            track_number: 1,
            duration,
            album_title: UNKNOWN@,
            album_artist: UNKNOWN@,
        }),
        wanted_of(Seq::empty()) == nothing_wanted(),
{
    assert(Seq::<TagItem>::empty().take(0) == Seq::<TagItem>::empty());
}

/// The view of what `resolve` returns.
pub open spec fn resolution_view(r: Result<Record, ScanError>) -> Result<RecordView, ScanErrorView> {
    match r {
        Ok(record) => Ok(record@),
        Err(e) => Err(e@),
    }
}

/// A text tag, or `UNKNOWN`.
pub fn resolve_text(tag: &Option<String>) -> (text: String)
    ensures
        text@ == text_or_unknown(crate::text::opt_view(*tag)),
{
    match tag {
        Some(text) => text.clone(),
        None => UNKNOWN.to_owned(),
    }
}

/// A track or disc number, or 1 where the tag is missing or starts with no
/// digit.
pub fn resolve_number(tag: &Option<String>) -> (n: u32)
    ensures
        n == number_or_one(crate::text::opt_view(*tag)),
{
    match tag {
        Some(text) => match parse_number(text.as_str()) {
            Some(n) => n,
            None => NO_NUM,
        },
        None => NO_NUM,
    }
}

/// The record of a file: each tag that is missing gets its default.
pub fn resolve_tags(tags: &WantedTags, duration: u64, path: &str, modified: i64) -> (record: Record)
    ensures
        record@ == record_of(tags@, duration, path@, modified),
{
    let artist_name = resolve_text(&tags.track_artist);
    let album_artist = match &tags.album_artist {
        Some(text) => text.clone(),
        None => artist_name.clone(),
    };
    Record {
        disc_number: resolve_number(&tags.disc_number),
        path: path.to_owned(),
        title: resolve_text(&tags.track_title),
        modified_stamp: modified,
        artist_name,
        track_number: resolve_number(&tags.track_number),
        duration,
        album_title: resolve_text(&tags.album_title),
        album_artist,
    }
}

/// Resolves what was read of one file into its record, or says what failed.
pub fn resolve(read: &FileRead) -> (r: Result<Record, ScanError>)
    ensures
        resolution_view(r) == resolved(*read),
{
    match &read.audio {
        Err(message) => Err(ScanError::metadata(read.path.as_str(), message.as_str())),
        Ok(audio) => match &read.absolute {
            Err(message) => Err(ScanError::file(read.path.as_str(), message.as_str())),
            Ok(absolute) => match &read.modified {
                Err(message) => Err(ScanError::file(read.path.as_str(), message.as_str())),
                Ok(modified) => {
                    let tags = match &audio.primary {
                        Some(items) => extract_metadata(items),
                        None => WantedTags {
                            album_artist: None,
                            track_artist: None,
                            album_title: None,
                            track_title: None,
                            track_number: None,
                            disc_number: None,
                        },
                    };
                    Ok(resolve_tags(&tags, audio.length.whole_seconds(), absolute.as_str(), *modified))
                },
            },
        },
    }
}

} // verus!
