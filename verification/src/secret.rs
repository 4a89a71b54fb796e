//! The pairing token and the gateway token: where they are kept, and when a new
//! one is made.

use crate::ids;
use crate::ids::{hex, hex_char, is_random, simple};
use crate::paths::{
    config_dir, config_path, dir_view, in_force, join_path, path_joined, DirError,
};
use crate::text;
use crate::text::{is_white, opt_str, trimmed};
use vstd::prelude::*;

verus! {

/// The name that the token goes by in the login keychain.
pub const SERVICE: &'static str = "sailor-hook";

pub const ACCOUNT: &'static str = "pairing-token";

/// Where the pairing token is kept.
#[derive(Debug, Clone, Copy, PartialEq, Eq, Structural)]
pub enum Backend {
    Keychain,
    File,
}

impl Backend {
    /// The place that a name stands for.
    pub open spec fn named(s: Seq<char>) -> Option<Backend> {
        if s == "keychain"@ {
            Some(Backend::Keychain)
        } else if s == "file"@ {
            Some(Backend::File)
        } else {
            None
        }
    }

    /// The place that a name stands for.
    pub fn parse(s: &str) -> (r: Option<Backend>)
        ensures
            r == Backend::named(s@),
    {
        if text::same(s, "keychain") {
            Some(Backend::Keychain)
        } else if text::same(s, "file") {
            Some(Backend::File)
        } else {
            None
        }
    }
}

/// A file in the secrets directory.
pub open spec fn secret_path(
    over: Option<Seq<char>>,
    base: Option<Seq<char>>,
    name: Seq<char>,
) -> Result<Seq<char>, DirError> {
    match config_path(over, base) {
        Ok(dir) => Ok(path_joined(dir, name)),
        Err(e) => Err(e),
    }
}

/// The file that holds the pairing token. `over` is what `SAILOR_CONFIG_DIR`
/// holds, `base` the user's configuration directory.
pub fn file_path(over: Option<&str>, base: Option<&str>) -> (r: Result<String, DirError>)
    ensures
        dir_view(r) == secret_path(opt_str(over), opt_str(base), "pairing-token"@),
{
    match config_dir(over, base) {
        Ok(dir) => Ok(join_path(dir.as_str(), "pairing-token")),
        Err(e) => Err(e),
    }
}

/// The file that holds the gateway token.
pub fn gateway_file_path(over: Option<&str>, base: Option<&str>) -> (r: Result<String, DirError>)
    ensures
        dir_view(r) == secret_path(opt_str(over), opt_str(base), "gateway-token"@),
{
    match config_dir(over, base) {
        Ok(dir) => Ok(join_path(dir.as_str(), "gateway-token")),
        Err(e) => Err(e),
    }
}

/// Whether the pairing token is looked for in the login keychain: not where the
/// secrets directory is overridden, so that a daemon on trial starts unpaired.
pub fn reads_keychain(over: Option<&str>) -> (r: bool)
    ensures
        r == !in_force(opt_str(over)),
{
    match over {
        Some(dir) => dir.is_empty(),
        None => true,
    }
}

/// The pairing token that is loaded: the keychain's where it is looked at and has
/// one, else the file's.
pub fn load_pairing_token(over: Option<&str>, keychain: Option<&str>, file: Option<&str>) -> (r:
    Option<String>)
    ensures
        text::opt_text(r) == if !in_force(opt_str(over)) && keychain is Some {
            opt_str(keychain)
        } else {
            opt_str(file)
        },
{
    if reads_keychain(over) {
        if let Some(t) = keychain {
            return Some(text::owned(t));
        }
    }
    match file {
        Some(t) => Some(text::owned(t)),
        None => None,
    }
}

/// Whether an unpairing took something away: from the keychain, or a file.
pub fn remove_pairing_token(keychain_removed: bool, file_removed: bool) -> (r: bool)
    ensures
        r == (keychain_removed || file_removed),
{
    keychain_removed || file_removed
}

/// What a token file holds, if it is one: a blank one is none.
pub open spec fn stored(contents: Option<Seq<char>>) -> Option<Seq<char>> {
    match contents {
        Some(s) => if trimmed(s).len() > 0 {
            Some(trimmed(s))
        } else {
            None
        },
        None => None,
    }
}

/// What a token file holds, if it is one.
pub fn stored_token(contents: Option<&str>) -> (r: Option<String>)
    ensures
        text::opt_text(r) == stored(opt_str(contents)),
{
    match contents {
        Some(s) => {
            let t = text::trim(s);
            if t.as_str().is_empty() {
                None
            } else {
                Some(t)
            }
        },
        None => None,
    }
}

/// A token and whether it is new, and so to be written.
#[derive(Debug)]
pub struct Token {
    pub text: String,
    pub fresh: bool,
}

/// The gateway's token, from what its file holds: that, or with the given
/// identifier a new one.
pub fn gateway_token_with(contents: Option<&str>, id: u128) -> (r: Token)
    ensures
        match stored(opt_str(contents)) {
            Some(t) => r.text@ == t && !r.fresh,
            None => r.text@ == simple(id) && r.fresh,
        },
{
    match stored_token(contents) {
        Some(t) => Token { text: t, fresh: false },
        None => Token { text: ids::simple_text(id), fresh: true },
    }
}

/// The gateway's token, from what its file holds: that, or a new random one.
pub fn ensure_gateway_token(contents: Option<&str>) -> (r: Token)
    ensures
        match stored(opt_str(contents)) {
            Some(t) => r.text@ == t && !r.fresh,
            None => r.fresh && exists|id: u128| is_random(id) && r.text@ == #[trigger] simple(id),
        },
{
    let id = ids::new_id();
    let t = gateway_token_with(contents, id);
    assert(simple(id) == simple(id));
    t
}

pub proof fn lemma_hex_has_no_white(n: nat, len: nat)
    ensures
        hex(n, len).len() == len,
        forall|i: int| 0 <= i < hex(n, len).len() ==> !is_white(#[trigger] hex(n, len)[i]),
    decreases len,
{
    if len > 0 {
        lemma_hex_has_no_white(n / 16, (len - 1) as nat);
        let rest = hex(n / 16, (len - 1) as nat);
        let s = hex(n, len);
        assert forall|i: int| 0 <= i < s.len() implies !is_white(#[trigger] s[i]) by {
            if i < rest.len() {
                assert(s[i] == rest[i]);
            } else {
                let d = n % 16;
                assert(s[i] == hex_char(d));
                assert(d < 10 ==> 48 <= (hex_char(d) as u32) && (hex_char(d) as u32) <= 57);
                assert(d >= 10 ==> 97 <= (hex_char(d) as u32) && (hex_char(d) as u32) <= 102);
            }
        }
    }
}

/// Everybody who asks for the gateway's token gets the same one: a token that was
/// made and written is the one that the next reader finds.
pub proof fn law_gateway_token_converges(id: u128)
    ensures
        stored(Some(simple(id))) == Some(simple(id)),
{
    lemma_hex_has_no_white(id as nat, 32);
    text::lemma_trimmed_same(simple(id));
}

} // verus!
