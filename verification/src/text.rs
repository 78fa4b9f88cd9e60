//! Comparing text.

use vstd::prelude::*;

verus! {

/// Whether two strings hold the same characters.
pub(crate) fn same_text(a: &str, b: &str) -> (same: bool)
    ensures
        same == (a@ == b@),
{
    let left: String = a.to_owned();
    let right: String = b.to_owned();
    left == right
}

} // verus!
