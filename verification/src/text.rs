//! Comparing texts.

use vstd::prelude::*;

verus! {

/// Whether two texts are the same, character by character.
pub fn text_eq(a: &str, b: &str) -> (res: bool)
    ensures
        res == (a@ == b@),
{
    let x = a.to_owned();
    let y = b.to_owned();
    x == y
}

} // verus!
