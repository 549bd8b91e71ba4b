//! Profiles known to the external tool, read out of its `profile list`
//! output.

use vstd::prelude::*;

use crate::strutil::{spec_lines, split_lines};

verus! {

/// Reads the profile names out of the whole listing text: one per line.
pub fn parse_profile_list(text: &str) -> (r: Vec<String>)
    ensures
        r.deep_view() == spec_lines(text@),
{
    split_lines(text)
}

} // verus!
