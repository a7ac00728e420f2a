//! Comparison of texts.

use vstd::prelude::*;
use vstd::string::StringExecFns;

verus! {

/// Whether two texts have the same characters.
pub fn same_text(a: &str, b: &str) -> (same: bool)
    ensures
        same == (a@ == b@),
{
    String::from_str(a) == String::from_str(b)
}

} // verus!
