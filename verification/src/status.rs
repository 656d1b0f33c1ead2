//! What a scan asked for across the process boundary answers.

use vstd::prelude::*;

verus! {

/// How a scan that was asked for from outside ended.
#[derive(Debug, Clone, PartialEq, Eq)]
pub enum Ending {
    /// An argument of the call was no text.
    BadArgument,
    /// The store could not be opened.
    NoStore,
    /// The scan ran, and that many of its files failed.
    Scanned { errors: usize },
}

/// The status of a scan: 0 where the scan ran and no file failed, 1 where a
/// file failed or the store could not be opened, -1 where the call itself
/// was wrong.
pub open spec fn status_of(ending: Ending) -> int {
    match ending {
        Ending::BadArgument => -1,
        Ending::NoStore => 1,
        Ending::Scanned { errors } => if errors == 0 {
            0
        } else {
            1
        },
    }
}

/// The status that a scan answers with.
pub fn status_code(ending: &Ending) -> (code: i32)
    ensures
        code == status_of(*ending),
{
    match ending {
        Ending::BadArgument => -1,
        Ending::NoStore => 1,
        Ending::Scanned { errors } => if *errors == 0 {
            0
        } else {
            1
        },
    }
}

} // verus!
