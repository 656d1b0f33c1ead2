//! The cover of an album, as a file embeds it.

use vstd::prelude::*;

use crate::error::{ScanError, ScanErrorView};

verus! {

/// The cover among what was read of a file: the first picture of its
/// primary tag.
///
/// `pictures` is the reading: the message of the failure if the file did
/// not parse, `None` if it has no primary tag, and else the pictures of that
/// tag in their order.
pub open spec fn cover_of(path: Seq<char>, pictures: Result<Option<Vec<Vec<u8>>>, String>) -> Result<
    Seq<u8>,
    ScanErrorView,
> {
    match pictures {
        Err(message) => Err(ScanErrorView::MetadataError { path, message: message@ }),
        Ok(None) => Err(ScanErrorView::NoCover),
        Ok(Some(list)) => if list@.len() == 0 {
            Err(ScanErrorView::NoCover)
        } else {
            Ok(list@[0]@)
        },
    }
}

/// The view of what `cover_data` returns.
pub open spec fn cover_view(cover: Result<Vec<u8>, ScanError>) -> Result<Seq<u8>, ScanErrorView> {
    match cover {
        Ok(data) => Ok(data@),
        Err(e) => Err(e@),
    }
}

/// The bytes of the cover of the file at `path`, of which `pictures` was
/// read.
///
/// A file that did not parse gives an error of metadata. A file without a
/// primary tag, or whose primary tag holds no picture, gives `NoCover`.
pub fn cover_data(path: &str, pictures: Result<Option<Vec<Vec<u8>>>, String>) -> (cover: Result<
    Vec<u8>,
    ScanError,
>)
    ensures
        cover_view(cover) == cover_of(path@, pictures),
{
    match pictures {
        Err(message) => Err(ScanError::metadata(path, message.as_str())),
        Ok(None) => Err(ScanError::NoCover),
        Ok(Some(mut list)) => {
            if list.len() == 0 {
                Err(ScanError::NoCover)
            } else {
                Ok(list.swap_remove(0))
            }
        },
    }
}

} // verus!
