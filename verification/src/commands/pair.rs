//! Pairing with the app by a token.

use crate::secret::Backend;
use crate::text;
use crate::text::trimmed;
use vstd::prelude::*;

verus! {

/// Where a token is stored.
pub open spec fn destination(token: Seq<char>, store: Seq<char>) -> Result<Backend, Seq<char>> {
    if trimmed(token).len() == 0 {
        Err("pairing token is empty"@)
    } else {
        match Backend::named(store) {
            Some(b) => Ok(b),
            None => Err("unknown --store backend: "@ + store),
        }
    }
}

/// Where a token is stored, or what is said of a blank token or of a store that
/// there is not.
pub fn run(token: &str, store: &str) -> (r: Result<Backend, String>)
    ensures
        match r {
            Ok(b) => destination(token@, store@) == Ok::<Backend, Seq<char>>(b),
            Err(e) => destination(token@, store@) == Err::<Backend, Seq<char>>(e@),
        },
{
    if text::trim(token).as_str().is_empty() {
        return Err(text::owned("pairing token is empty"));
    }
    match Backend::parse(store) {
        Some(b) => Ok(b),
        None => Err(text::concat2("unknown --store backend: ", store)),
    }
}

} // verus!
