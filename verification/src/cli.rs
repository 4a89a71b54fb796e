//! What the command line means where the parser leaves it open.

use vstd::prelude::*;

verus! {

/// What to do with the servers that were found.
#[derive(Debug, Clone, Copy, PartialEq, Eq, Structural)]
pub enum ServersCommand {
    /// End one, after making sure that the process and the port still belong to
    /// one; `force` ends it for good where it does not end by itself.
    Kill { pid: u32, port: u16, force: bool },
}

/// What is said where neither flag is given.
pub const NEITHER_FLAG: &'static str = "pass --allow or --deny";

/// The answer that the two flags of `approve` give: `None` where neither is given.
pub fn approval_flag(allow: bool, deny: bool) -> (r: Option<bool>)
    ensures
        r == if allow || deny {
            Some(allow)
        } else {
            None
        },
{
    if !allow && !deny {
        None
    } else {
        Some(allow)
    }
}

} // verus!
