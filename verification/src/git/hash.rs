//! Commit hashes.
use vstd::prelude::*;

use crate::text::{trim, trim_string};

verus! {

/// The short hash that `git rev-parse --short <tag>` printed, without surrounding whitespace.
pub fn parse_short_hash(stdout: &str) -> (h: String)
    ensures
        h@ == trim(stdout@),
{
    trim_string(stdout)
}

} // verus!
