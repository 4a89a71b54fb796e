//! The identifier of this machine, which every event carries: made once, and kept
//! in a file.

use crate::ids;
use crate::ids::{hyphenated, is_random, uuid_parsed};
use crate::paths::{dir_view, join_path, path_joined, DirError};
use crate::secret::{stored, stored_token, Token};
use crate::text;
use crate::text::opt_str;
use vstd::prelude::*;

verus! {

/// The file that holds the identifier, in the user's configuration directory.
pub fn path(base: Option<&str>) -> (r: Result<String, DirError>)
    ensures
        dir_view(r) == match base {
            Some(b) => Ok(path_joined(path_joined(b@, "sailor"@), "host-id"@)),
            None => Err(DirError::NoConfigDir),
        },
{
    match base {
        Some(b) => {
            let dir = join_path(b, "sailor");
            Ok(join_path(dir.as_str(), "host-id"))
        },
        None => Err(DirError::NoConfigDir),
    }
}

/// The identifier of this machine, from what its file holds: that, or with the
/// given number a new one.
pub fn load_or_create_with(contents: Option<&str>, id: u128) -> (r: Token)
    ensures
        match stored(opt_str(contents)) {
            Some(t) => r.text@ == t && !r.fresh,
            None => r.text@ == hyphenated(id) && r.fresh && uuid_parsed(r.text@) == Some(id),
        },
{
    match stored_token(contents) {
        Some(t) => Token { text: t, fresh: false },
        None => Token { text: ids::id_text(id), fresh: true },
    }
}

/// The identifier of this machine, from what its file holds: that, or a new random
/// one, which is to be written.
pub fn load_or_create(contents: Option<&str>) -> (r: Token)
    ensures
        match stored(opt_str(contents)) {
            Some(t) => r.text@ == t && !r.fresh,
            None => r.fresh && exists|id: u128|
                is_random(id) && r.text@ == #[trigger] hyphenated(id) && uuid_parsed(r.text@)
                    == Some(id),
        },
{
    let id = ids::new_id();
    let t = load_or_create_with(contents, id);
    assert(hyphenated(id) == hyphenated(id));
    t
}

/// An identifier that was made and written is the one that is read back.
pub proof fn law_host_id_is_reused(id: u128)
    ensures
        stored(Some(hyphenated(id))) == Some(hyphenated(id)),
{
    crate::secret::lemma_hex_has_no_white(id as nat, 32);
    let s = ids::simple(id);
    let h = hyphenated(id);
    reveal_strlit("-");
    assert("-"@.len() == 1 && "-"@[0] == '-');
    assert forall|i: int| 0 <= i < h.len() implies !text::is_white(#[trigger] h[i]) by {
        if i < 8 {
            assert(h[i] == s[i]);
        } else if i == 8 || i == 13 || i == 18 || i == 23 {
            assert(h[i] == '-');
        } else if i < 13 {
            assert(h[i] == s[i - 1]);
        } else if i < 18 {
            assert(h[i] == s[i - 2]);
        } else if i < 23 {
            assert(h[i] == s[i - 3]);
        } else {
            assert(h[i] == s[i - 4]);
        }
    }
    text::lemma_trimmed_same(h);
}

} // verus!
