use vstd::prelude::*;

use crate::util::text::concat;

verus! {

/// The `Content-Disposition` value that shows a file inline under its name.
pub fn content_disposition(filename: &str) -> (r: String)
    ensures
        r@ == "inline; filename=\""@ + filename@ + "\""@,
{
    let head = concat("inline; filename=\"", filename);
    concat(head.as_str(), "\"")
}

} // verus!
