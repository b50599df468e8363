//! Small helpers on strings.

use vstd::prelude::*;
use vstd::string::StringExecFns;

verus! {

/// The characters of an optional string.
pub open spec fn chars_of(text: Option<String>) -> Option<Seq<char>> {
    match text {
        Some(t) => Some(t@),
        None => None,
    }
}

/// Whether two strings hold the same characters.
pub(crate) fn same(a: &str, b: &str) -> (equal: bool)
    ensures
        equal == (a@ == b@),
{
    String::from_str(a) == String::from_str(b)
}

} // verus!
