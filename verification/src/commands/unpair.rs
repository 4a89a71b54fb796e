//! Removing the pairing token.

use crate::secret;
use crate::text;
use vstd::prelude::*;

verus! {

/// What is printed, by whether a token was removed from the keychain and from the
/// file.
pub fn run(keychain_removed: bool, file_removed: bool) -> (r: String)
    ensures
        r@ == if keychain_removed || file_removed {
            "pairing removed — this host is unpaired. Re-pair with `sailor-hook pair --token <t>`."@
        } else {
            "nothing to unpair — no pairing token is stored."@
        },
{
    if secret::remove_pairing_token(keychain_removed, file_removed) {
        text::owned(
            "pairing removed — this host is unpaired. Re-pair with `sailor-hook pair --token <t>`.",
        )
    } else {
        text::owned("nothing to unpair — no pairing token is stored.")
    }
}

} // verus!
