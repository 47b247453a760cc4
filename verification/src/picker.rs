//! The folder picker's pure outcome.

use vstd::prelude::*;

verus! {

/// What the folder picker returns once the dialog has closed:
/// cancellation is not an error and yields the empty string, and a
/// selection is returned unchanged.
pub fn folder_pick_result(selection: Option<String>) -> (r: String)
    ensures
        selection is None ==> r@ == Seq::<char>::empty(),
        selection matches Some(p) ==> r@ == p@,
{
    match selection {
        None => String::new(),
        Some(p) => p,
    }
}

} // verus!
