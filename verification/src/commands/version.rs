//! The version line.

use crate::text;
use vstd::prelude::*;

verus! {

/// The line for a version.
pub fn run(version: &str) -> (r: String)
    ensures
        r@ == "sailor-hook "@ + version@,
{
    text::concat2("sailor-hook ", version)
}

} // verus!
