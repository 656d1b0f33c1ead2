//! Which entries of a directory tree are audio files.

use vstd::prelude::*;
use vstd::string::StrSliceExecFns;

use crate::text::{chars_of, spells};

verus! {

/// Where the final component of `path` starts: behind its last `/`, or at 0.
pub open spec fn name_start(path: Seq<char>) -> int
    decreases path.len(),
{
    if path.len() == 0 || path.last() == '/' {
        path.len() as int
    } else {
        name_start(path.drop_last())
    }
}

/// The final component of `path`.
pub open spec fn file_name(path: Seq<char>) -> Seq<char> {
    path.skip(name_start(path))
}

/// The index of the last `.` of `name`, if it has one.
pub open spec fn last_dot(name: Seq<char>) -> Option<int>
    decreases name.len(),
{
    if name.len() == 0 {
        None
    } else if name.last() == '.' {
        Some(name.len() - 1)
    } else {
        last_dot(name.drop_last())
    }
}

/// The extension of a file name: what follows its last `.`. A name without
/// a `.`, one whose only `.` is its first character, and the name `..` have
/// none.
pub open spec fn name_extension(name: Seq<char>) -> Option<Seq<char>> {
    match last_dot(name) {
        None => None,
        Some(dot) => if dot == 0 || name == seq!['.', '.'] {
            None
        } else {
            Some(name.skip(dot + 1))
        },
    }
}

/// The extension of the final component of `path`.
pub open spec fn extension_of(path: Seq<char>) -> Option<Seq<char>> {
    name_extension(file_name(path))
}

/// Whether `extension` is one of the seven that mark an audio file. Upper
/// and lower case differ.
pub open spec fn audio_extension(extension: Seq<char>) -> bool {
    ||| extension == "flac"@
    ||| extension == "mp3"@
    ||| extension == "ogg"@
    ||| extension == "wav"@
    ||| extension == "m4a"@
    ||| extension == "vorbis"@
    ||| extension == "opus"@
}

/// `name_start(path)` is the one index behind which `path` has no `/` and
/// before which, if it is not 0, a `/` stands.
pub proof fn lemma_name_start(path: Seq<char>, start: int)
    requires
        0 <= start <= path.len(),
        start > 0 ==> path[start - 1] == '/',
        forall|i: int| start <= i < path.len() ==> #[trigger] path[i] != '/',
    ensures
        name_start(path) == start,
    decreases path.len() - start,
{
    if start < path.len() {
        let shorter = path.drop_last();
        assert forall|i: int| start <= i < shorter.len() implies #[trigger] shorter[i] != '/' by {
            assert(shorter[i] == path[i]);
        }
        if start > 0 {
            assert(shorter[start - 1] == path[start - 1]);
        }
        lemma_name_start(shorter, start);
    }
}

/// `last_dot(name)` is the index of a `.` behind which `name` has none, and
/// `None` where `name` has none at all.
pub proof fn lemma_last_dot(name: Seq<char>, from: int)
    requires
        0 <= from <= name.len(),
        forall|i: int| from <= i < name.len() ==> #[trigger] name[i] != '.',
    ensures
        from > 0 && name[from - 1] == '.' ==> last_dot(name) == Some(from - 1),
        from == 0 ==> last_dot(name) is None,
    decreases name.len() - from,
{
    if from < name.len() {
        let shorter = name.drop_last();
        assert forall|i: int| from <= i < shorter.len() implies #[trigger] shorter[i] != '.' by {
            assert(shorter[i] == name[i]);
        }
        if from > 0 {
            assert(shorter[from - 1] == name[from - 1]);
        }
        lemma_last_dot(shorter, from);
    }
}

/// The final component of a path holds no `/`, and a `/` stands before it
/// unless it is the whole path.
pub proof fn lemma_file_name(path: Seq<char>)
    ensures
        0 <= name_start(path) <= path.len(),
        name_start(path) > 0 ==> path[name_start(path) - 1] == '/',
        forall|i: int| name_start(path) <= i < path.len() ==> #[trigger] path[i] != '/',
        forall|i: int| 0 <= i < file_name(path).len() ==> #[trigger] file_name(path)[i] != '/',
    decreases path.len(),
{
    if path.len() > 0 && path.last() != '/' {
        let shorter = path.drop_last();
        lemma_file_name(shorter);
        assert forall|i: int| name_start(path) <= i < path.len() implies #[trigger] path[i]
            != '/' by {
            if i < shorter.len() {
                assert(shorter[i] == path[i]);
            }
        }
        if name_start(path) > 0 {
            assert(shorter[name_start(path) - 1] == path[name_start(path) - 1]);
        }
    }
}

/// The last `.` of a name is a `.`, and none comes behind it.
pub proof fn lemma_last_dot_is_last(name: Seq<char>)
    ensures
        last_dot(name) matches Some(dot) ==> 0 <= dot < name.len() && name[dot] == '.' && forall|
            i: int,
        |
            dot < i < name.len() ==> #[trigger] name[i] != '.',
        last_dot(name) is None ==> forall|i: int| 0 <= i < name.len() ==> #[trigger] name[i] != '.',
    decreases name.len(),
{
    if name.len() > 0 && name.last() != '.' {
        let shorter = name.drop_last();
        lemma_last_dot_is_last(shorter);
        match last_dot(name) {
            Some(dot) => {
                assert(shorter[dot] == name[dot]);
                assert forall|i: int| dot < i < name.len() implies #[trigger] name[i] != '.' by {
                    if i < shorter.len() {
                        assert(shorter[i] == name[i]);
                    }
                }
            },
            None => {
                assert forall|i: int| 0 <= i < name.len() implies #[trigger] name[i] != '.' by {
                    if i < shorter.len() {
                        assert(shorter[i] == name[i]);
                    }
                }
            },
        }
    }
}

/// A path with the extension `e` ends in a `.` and `e`, and `e` holds
/// neither a `.` nor a `/`. The `.` is not the first character of the name.
pub proof fn lemma_extension(path: Seq<char>)
    ensures
        extension_of(path) matches Some(e) ==> {
            &&& e.len() + 2 <= path.len()
            &&& path.skip(path.len() - e.len()) == e
            &&& path[path.len() - e.len() - 1] == '.'
            &&& path[path.len() - e.len() - 2] != '/'
            &&& forall|i: int| 0 <= i < e.len() ==> e[i] != '.' && #[trigger] e[i] != '/'
        },
{
    let name = file_name(path);
    lemma_file_name(path);
    lemma_last_dot_is_last(name);
    if extension_of(path) is Some {
        let e = extension_of(path).unwrap();
        let dot = last_dot(name).unwrap();
        let start = name_start(path);
        assert(path.skip(path.len() - e.len()) =~= e);
        assert(name[dot] == path[start + dot]);
        assert(name[dot - 1] == path[start + dot - 1]);
        assert forall|i: int| 0 <= i < e.len() implies e[i] != '.' && #[trigger] e[i] != '/' by {
            assert(e[i] == name[dot + 1 + i]);
        }
    }
}

/// The extension of the final component of `path`, without its `.`.
///
/// The final component is what follows the last `/`.
pub fn extension(path: &str) -> (e: Option<&str>)
    ensures
        e is Some <==> extension_of(path@) is Some,
        e matches Some(text) ==> extension_of(path@) == Some(text@),
{
    let chars = chars_of(path);
    let len = chars.len();
    let mut start: usize = len;
    while start > 0 && chars[start - 1] != '/'
        invariant
            start <= len,
            len == chars.len(),
            forall|i: int| start <= i < len ==> #[trigger] chars@[i] != '/',
        decreases start,
    {
        start = start - 1;
    }
    let mut dot: usize = len;
    while dot > start && chars[dot - 1] != '.'
        invariant
            start <= dot <= len,
            len == chars.len(),
            forall|i: int| dot <= i < len ==> #[trigger] chars@[i] != '.',
        decreases dot,
    {
        dot = dot - 1;
    }
    let ghost name = file_name(path@);
    proof {
        lemma_name_start(chars@, start as int);
        assert(name.len() == len - start);
        assert forall|i: int| dot - start <= i < name.len() implies #[trigger] name[i] != '.' by {
            assert(name[i] == chars@[start + i]);
        }
        if dot > start {
            assert(name[dot - start - 1] == chars@[dot - 1]);
        }
        lemma_last_dot(name, dot - start);
    }
    if dot == start {
        // no `.` in the name
        None
    } else if dot - 1 == start {
        // the only `.` leads the name
        None
    } else if len - start == 2 && chars[start] == '.' && chars[start + 1] == '.' {
        proof {
            assert(name =~= seq!['.', '.']);
        }
        None
    } else {
        proof {
            if name == seq!['.', '.'] {
                assert(name.len() == 2);
                assert(name[0] == chars@[start as int]);
                assert(name[1] == chars@[start + 1]);
            }
            assert(name.skip(dot - start) =~= path@.subrange(dot as int, len as int));
        }
        Some(path.substring_char(dot, len))
    }
}

/// Whether `extension` marks an audio file.
pub fn is_audio_extension(extension: &str) -> (audio: bool)
    ensures
        audio == audio_extension(extension@),
{
    let e = chars_of(extension);
    spells(&e, "flac") || spells(&e, "mp3") || spells(&e, "ogg") || spells(&e, "wav") || spells(
        &e,
        "m4a",
    ) || spells(&e, "vorbis") || spells(&e, "opus")
}

/// What walking a directory tree yields.
#[derive(Debug, Clone, PartialEq, Eq)]
pub enum WalkItem {
    /// An entry that could not be read: no permission, a broken link.
    Unreadable,
    /// An entry, with whether it is a regular file.
    Entry { is_file: bool, path: String },
}

/// Whether `item` is taken for an audio file: a regular file whose
/// extension is one of the seven.
pub open spec fn accepted(item: WalkItem) -> bool {
    match item {
        WalkItem::Unreadable => false,
        WalkItem::Entry { is_file, path } => is_file && match extension_of(path@) {
            Some(e) => audio_extension(e),
            None => false,
        },
    }
}

/// The paths of the accepted entries of `items`, in their order.
pub open spec fn accepted_paths(items: Seq<WalkItem>) -> Seq<Seq<char>>
    decreases items.len(),
{
    if items.len() == 0 {
        Seq::empty()
    } else if accepted(items.last()) {
        accepted_paths(items.drop_last()).push(items.last()->path@)
    } else {
        accepted_paths(items.drop_last())
    }
}

/// The views of a list of paths.
pub open spec fn paths_view(paths: Seq<String>) -> Seq<Seq<char>> {
    Seq::new(paths.len(), |i: int| paths[i]@)
}

/// Whether `item` is taken for an audio file.
pub fn accepts(item: &WalkItem) -> (yes: bool)
    ensures
        yes == accepted(*item),
{
    match item {
        WalkItem::Unreadable => false,
        WalkItem::Entry { is_file, path } => {
            if !*is_file {
                false
            } else {
                match extension(path.as_str()) {
                    Some(e) => is_audio_extension(e),
                    None => false,
                }
            }
        },
    }
}

/// The paths of the entries of `items` that are taken for audio files.
///
/// An entry that is not accepted leaves no trace: neither a success nor an
/// error of the scan can come from it.
pub fn candidates(items: &Vec<WalkItem>) -> (paths: Vec<String>)
    ensures
        paths_view(paths@) == accepted_paths(items@),
{
    let mut paths: Vec<String> = Vec::new();
    let mut i: usize = 0;
    while i < items.len()
        invariant
            i <= items.len(),
            paths_view(paths@) == accepted_paths(items@.take(i as int)),
        decreases items.len() - i,
    {
        proof {
            assert(items@.take(i + 1).drop_last() == items@.take(i as int));
        }
        if accepts(&items[i]) {
            match &items[i] {
                WalkItem::Entry { is_file, path } => {
                    let ghost before = paths@;
                    paths.push(path.clone());
                    proof {
                        assert(paths_view(paths@) =~= paths_view(before).push(path@));
                    }
                },
                WalkItem::Unreadable => {},
            }
        }
        i = i + 1;
    }
    proof {
        assert(items@.take(items.len() as int) == items@);
    }
    paths
}

} // verus!
