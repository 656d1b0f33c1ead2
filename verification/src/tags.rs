//! The tags of an audio file, and the six of them that the catalog reads.

use vstd::prelude::*;

use crate::text::{opt_clone, opt_view};

verus! {

/// What a tag entry is about.
#[derive(Debug, Clone, Copy, PartialEq, Eq, Structural)]
pub enum TagKey {
    AlbumArtist,
    TrackArtist,
    AlbumTitle,
    TrackTitle,
    TrackNumber,
    DiscNumber,
    /// Any entry that the catalog does not read.
    Other,
}

/// One entry of a tag.
#[derive(Debug, Clone, PartialEq, Eq)]
pub struct TagItem {
    pub key: TagKey,
    /// The text of the entry; `None` where its value is not text.
    pub text: Option<String>,
}

/// The entries that the catalog reads, as one pass over a tag found them.
#[derive(Debug, Clone, PartialEq, Eq)]
pub struct WantedTags {
    pub album_artist: Option<String>,
    pub track_artist: Option<String>,
    pub album_title: Option<String>,
    pub track_title: Option<String>,
    pub track_number: Option<String>,
    pub disc_number: Option<String>,
}

/// The view of [`WantedTags`].
pub struct WantedView {
    pub album_artist: Option<Seq<char>>,
    pub track_artist: Option<Seq<char>>,
    pub album_title: Option<Seq<char>>,
    pub track_title: Option<Seq<char>>,
    pub track_number: Option<Seq<char>>,
    pub disc_number: Option<Seq<char>>,
}

impl View for WantedTags {
    type V = WantedView;

    open spec fn view(&self) -> WantedView {
        WantedView {
            album_artist: opt_view(self.album_artist),
            track_artist: opt_view(self.track_artist),
            album_title: opt_view(self.album_title),
            track_title: opt_view(self.track_title),
            track_number: opt_view(self.track_number),
            disc_number: opt_view(self.disc_number),
        }
    }
}

/// Whether some entry of `items` has the key `key`.
pub open spec fn has_key(items: Seq<TagItem>, key: TagKey) -> bool {
    exists|i: int| 0 <= i < items.len() && (#[trigger] items[i]).key == key
}

/// Whether `items` holds an entry for each of the six keys that the catalog
/// reads.
pub open spec fn complete(items: Seq<TagItem>) -> bool {
    &&& has_key(items, TagKey::AlbumArtist)
    &&& has_key(items, TagKey::TrackArtist)
    &&& has_key(items, TagKey::AlbumTitle)
    &&& has_key(items, TagKey::TrackTitle)
    &&& has_key(items, TagKey::TrackNumber)
    &&& has_key(items, TagKey::DiscNumber)
}

/// The least `n` from `from` on for which the first `n` entries are
/// complete; the number of entries where there is none.
pub open spec fn first_complete(items: Seq<TagItem>, from: int) -> int
    decreases items.len() - from,
{
    if from >= items.len() {
        items.len() as int
    } else if complete(items.take(from)) {
        from
    } else {
        first_complete(items, from + 1)
    }
}

/// How many entries one pass reads: it stops as soon as it has seen all six
/// keys.
pub open spec fn read_len(items: Seq<TagItem>) -> int {
    first_complete(items, 0)
}

/// The text of the last entry of `items` with the key `key`; `None` where
/// there is no such entry or its value is not text.
pub open spec fn last_text(items: Seq<TagItem>, key: TagKey) -> Option<Seq<char>>
    decreases items.len(),
{
    if items.len() == 0 {
        None
    } else if items.last().key == key {
        opt_view(items.last().text)
    } else {
        last_text(items.drop_last(), key)
    }
}

/// What one pass over `items` finds: for each key the last entry among those
/// that the pass reads.
pub open spec fn wanted_of(items: Seq<TagItem>) -> WantedView {
    let read = items.take(read_len(items));
    WantedView {
        album_artist: last_text(read, TagKey::AlbumArtist),
        track_artist: last_text(read, TagKey::TrackArtist),
        album_title: last_text(read, TagKey::AlbumTitle),
        track_title: last_text(read, TagKey::TrackTitle),
        track_number: last_text(read, TagKey::TrackNumber),
        disc_number: last_text(read, TagKey::DiscNumber),
    }
}

/// What a file without a tag gives: nothing.
pub open spec fn nothing_wanted() -> WantedView {
    WantedView {
        album_artist: None,
        track_artist: None,
        album_title: None,
        track_title: None,
        track_number: None,
        disc_number: None,
    }
}

/// One more entry has a key if the entries before had it or the new one
/// brings it.
pub proof fn lemma_has_key_push(items: Seq<TagItem>, item: TagItem, key: TagKey)
    ensures
        has_key(items.push(item), key) <==> has_key(items, key) || item.key == key,
{
    let more = items.push(item);
    if has_key(items, key) {
        let i = choose|i: int| 0 <= i < items.len() && (#[trigger] items[i]).key == key;
        assert(more[i].key == key);
    }
    if item.key == key {
        assert(more[items.len() as int].key == key);
    }
    if has_key(more, key) {
        let i = choose|i: int| 0 <= i < more.len() && (#[trigger] more[i]).key == key;
        if i < items.len() {
            assert(items[i].key == key);
        }
    }
}

/// A pass that has read `n` entries without seeing all six keys before any
/// of them, and that has now seen them all or reached the end, has read
/// `read_len` entries.
pub proof fn lemma_read_len(items: Seq<TagItem>, n: int)
    requires
        0 <= n <= items.len(),
        forall|m: int| 0 <= m < n ==> !complete(#[trigger] items.take(m)),
        n < items.len() ==> complete(items.take(n)),
    ensures
        read_len(items) == n,
{
    lemma_first_complete(items, 0, n);
}

/// One pass reads no entry once it has seen all six keys, and stops before
/// the end only if it has seen them.
pub proof fn lemma_read_len_is_least(items: Seq<TagItem>)
    ensures
        0 <= read_len(items) <= items.len(),
        forall|m: int| 0 <= m < read_len(items) ==> !complete(#[trigger] items.take(m)),
        read_len(items) < items.len() ==> complete(items.take(read_len(items))),
{
    lemma_first_complete_is_least(items, 0);
}

proof fn lemma_first_complete_is_least(items: Seq<TagItem>, from: int)
    requires
        0 <= from <= items.len(),
    ensures
        from <= first_complete(items, from) <= items.len(),
        forall|m: int|
            from <= m < first_complete(items, from) ==> !complete(#[trigger] items.take(m)),
        first_complete(items, from) < items.len() ==> complete(
            items.take(first_complete(items, from)),
        ),
    decreases items.len() - from,
{
    if from < items.len() && !complete(items.take(from)) {
        lemma_first_complete_is_least(items, from + 1);
    }
}

/// The text found for a key is that of the last entry with the key, and
/// nothing where no entry has the key.
pub proof fn lemma_last_text(items: Seq<TagItem>, key: TagKey)
    ensures
        !has_key(items, key) ==> last_text(items, key) is None,
        has_key(items, key) ==> exists|i: int|
            0 <= i < items.len() && (#[trigger] items[i]).key == key && last_text(items, key)
                == opt_view(items[i].text) && forall|j: int|
                i < j < items.len() ==> (#[trigger] items[j]).key != key,
    decreases items.len(),
{
    if items.len() > 0 {
        let shorter = items.drop_last();
        let last = items.len() - 1;
        assert(items == shorter.push(items[last]));
        lemma_has_key_push(shorter, items[last], key);
        if items[last].key == key {
            assert(items[last].key == key && last_text(items, key) == opt_view(items[last].text));
        } else {
            lemma_last_text(shorter, key);
            if has_key(shorter, key) {
                let i = choose|i: int|
                    0 <= i < shorter.len() && (#[trigger] shorter[i]).key == key && last_text(
                        shorter,
                        key,
                    ) == opt_view(shorter[i].text) && forall|j: int|
                        i < j < shorter.len() ==> (#[trigger] shorter[j]).key != key;
                assert(items[i] == shorter[i]);
                assert forall|j: int| i < j < items.len() implies (#[trigger] items[j]).key
                    != key by {
                    if j < shorter.len() {
                        assert(shorter[j] == items[j]);
                    }
                }
            }
        }
    }
}

proof fn lemma_first_complete(items: Seq<TagItem>, from: int, n: int)
    requires
        0 <= from <= n <= items.len(),
        forall|m: int| from <= m < n ==> !complete(#[trigger] items.take(m)),
        n < items.len() ==> complete(items.take(n)),
    ensures
        first_complete(items, from) == n,
    decreases n - from,
{
    if from < n {
        assert(!complete(items.take(from)));
        lemma_first_complete(items, from + 1, n);
    }
}

/// Reads the six entries that the catalog needs in one pass over `items`.
///
/// The pass stops once it has seen each of the six keys. Where a key comes
/// more than once before that, its last entry counts.
pub fn extract_metadata(items: &Vec<TagItem>) -> (tags: WantedTags)
    ensures
        tags@ == wanted_of(items@),
{
    let mut tags = WantedTags {
        album_artist: None,
        track_artist: None,
        album_title: None,
        track_title: None,
        track_number: None,
        disc_number: None,
    };
    let mut seen_album_artist = false;
    let mut seen_track_artist = false;
    let mut seen_album_title = false;
    let mut seen_track_title = false;
    let mut seen_track_number = false;
    let mut seen_disc_number = false;
    let mut i: usize = 0;
    proof {
        assert(items@.take(0).len() == 0);
    }
    while i < items.len() && !(seen_album_artist && seen_track_artist && seen_album_title
        && seen_track_title && seen_track_number && seen_disc_number)
        invariant
            i <= items.len(),
            forall|m: int| 0 <= m < i ==> !complete(#[trigger] items@.take(m)),
            seen_album_artist == has_key(items@.take(i as int), TagKey::AlbumArtist),
            seen_track_artist == has_key(items@.take(i as int), TagKey::TrackArtist),
            seen_album_title == has_key(items@.take(i as int), TagKey::AlbumTitle),
            seen_track_title == has_key(items@.take(i as int), TagKey::TrackTitle),
            seen_track_number == has_key(items@.take(i as int), TagKey::TrackNumber),
            seen_disc_number == has_key(items@.take(i as int), TagKey::DiscNumber),
            tags@.album_artist == last_text(items@.take(i as int), TagKey::AlbumArtist),
            tags@.track_artist == last_text(items@.take(i as int), TagKey::TrackArtist),
            tags@.album_title == last_text(items@.take(i as int), TagKey::AlbumTitle),
            tags@.track_title == last_text(items@.take(i as int), TagKey::TrackTitle),
            tags@.track_number == last_text(items@.take(i as int), TagKey::TrackNumber),
            tags@.disc_number == last_text(items@.take(i as int), TagKey::DiscNumber),
        decreases items.len() - i,
    {
        let item = &items[i];
        proof {
            let before = items@.take(i as int);
            let after = items@.take(i + 1);
            assert(after == before.push(items@[i as int]));
            assert(after.drop_last() == before);
            lemma_has_key_push(before, items@[i as int], TagKey::AlbumArtist);
            lemma_has_key_push(before, items@[i as int], TagKey::TrackArtist);
            lemma_has_key_push(before, items@[i as int], TagKey::AlbumTitle);
            lemma_has_key_push(before, items@[i as int], TagKey::TrackTitle);
            lemma_has_key_push(before, items@[i as int], TagKey::TrackNumber);
            lemma_has_key_push(before, items@[i as int], TagKey::DiscNumber);
        }
        match item.key {
            TagKey::AlbumArtist => {
                tags.album_artist = opt_clone(&item.text);
                seen_album_artist = true;
            },
            TagKey::TrackArtist => {
                tags.track_artist = opt_clone(&item.text);
                seen_track_artist = true;
            },
            TagKey::AlbumTitle => {
                tags.album_title = opt_clone(&item.text);
                seen_album_title = true;
            },
            TagKey::TrackTitle => {
                tags.track_title = opt_clone(&item.text);
                seen_track_title = true;
            },
            TagKey::TrackNumber => {
                tags.track_number = opt_clone(&item.text);
                seen_track_number = true;
            },
            TagKey::DiscNumber => {
                tags.disc_number = opt_clone(&item.text);
                seen_disc_number = true;
            },
            TagKey::Other => {},
        }
        i = i + 1;
    }
    proof {
        lemma_read_len(items@, i as int);
    }
    tags
}

} // verus!
