//! Where the daemon keeps its state and its secrets, honouring the two
//! environment overrides `SAILOR_STATE_DIR` and `SAILOR_CONFIG_DIR`.

use crate::text;
use vstd::prelude::*;

verus! {

/// Why a directory could not be resolved.
#[derive(Debug, Clone, Copy, PartialEq, Eq, Structural)]
pub enum DirError {
    NoHome,
    NoConfigDir,
}

impl DirError {
    /// The message as the contracts speak of it.
    pub open spec fn text(self) -> Seq<char> {
        match self {
            DirError::NoHome => "could not resolve $HOME"@,
            DirError::NoConfigDir => "no config dir"@,
        }
    }

    /// The message for the user.
    pub fn message(&self) -> (r: String)
        ensures
            r@ == self.text(),
    {
        match self {
            DirError::NoHome => text::owned("could not resolve $HOME"),
            DirError::NoConfigDir => text::owned("no config dir"),
        }
    }
}

/// A path with one more component: a slash between the two unless one is there,
/// and an absolute component by itself.
pub open spec fn path_joined(base: Seq<char>, part: Seq<char>) -> Seq<char> {
    if base.len() == 0 || (part.len() > 0 && part[0] == '/') {
        part
    } else if base.last() == '/' {
        base + part
    } else {
        base + "/"@ + part
    }
}

/// Appends a component to a path.
pub fn join_path(base: &str, part: &str) -> (r: String)
    ensures
        r@ == path_joined(base@, part@),
{
    let b = text::chars(base);
    let p = text::chars(part);
    if b.len() == 0 || (p.len() > 0 && p[0] == '/') {
        text::owned(part)
    } else if b[b.len() - 1] == '/' {
        text::concat2(base, part)
    } else {
        text::concat3(base, "/", part)
    }
}

/// The name of a hidden file or directory.
pub open spec fn hidden(name: Seq<char>) -> Seq<char> {
    "."@ + name
}

/// The name of a hidden file or directory.
pub fn dotted(name: &str) -> (r: String)
    ensures
        r@ == hidden(name@),
{
    text::concat2(".", name)
}

/// An override that is set and not empty.
pub open spec fn in_force(over: Option<Seq<char>>) -> bool {
    match over {
        Some(dir) => dir.len() > 0,
        None => false,
    }
}

/// The view of a directory or of why there is none.
pub open spec fn dir_view(r: Result<String, DirError>) -> Result<Seq<char>, DirError> {
    match r {
        Ok(s) => Ok(s@),
        Err(e) => Err(e),
    }
}

/// The state directory: the override where it is in force, else `.sailor` at home.
pub open spec fn state_path(over: Option<Seq<char>>, home: Option<Seq<char>>) -> Result<
    Seq<char>,
    DirError,
> {
    if in_force(over) {
        Ok(over->0)
    } else {
        match home {
            Some(h) => Ok(path_joined(h, ".sailor"@)),
            None => Err(DirError::NoHome),
        }
    }
}

/// The secrets directory: the override where it is in force, else `sailor` in the
/// user's configuration directory.
pub open spec fn config_path(over: Option<Seq<char>>, base: Option<Seq<char>>) -> Result<
    Seq<char>,
    DirError,
> {
    if in_force(over) {
        Ok(over->0)
    } else {
        match base {
            Some(b) => Ok(path_joined(b, "sailor"@)),
            None => Err(DirError::NoConfigDir),
        }
    }
}

/// Daemon runtime state: socket, lock file, gateway log. `over` is what
/// `SAILOR_STATE_DIR` holds.
pub fn state_dir(over: Option<&str>, home: Option<&str>) -> (r: Result<String, DirError>)
    ensures
        dir_view(r) == state_path(text::opt_str(over), text::opt_str(home)),
{
    if let Some(dir) = over {
        if !dir.is_empty() {
            return Ok(text::owned(dir));
        }
    }
    match home {
        Some(h) => Ok(join_path(h, ".sailor")),
        None => Err(DirError::NoHome),
    }
}

/// File-backed secrets and the gateway token. `over` is what `SAILOR_CONFIG_DIR`
/// holds.
pub fn config_dir(over: Option<&str>, base: Option<&str>) -> (r: Result<String, DirError>)
    ensures
        dir_view(r) == config_path(text::opt_str(over), text::opt_str(base)),
{
    if let Some(dir) = over {
        if !dir.is_empty() {
            return Ok(text::owned(dir));
        }
    }
    match base {
        Some(b) => Ok(join_path(b, "sailor")),
        None => Err(DirError::NoConfigDir),
    }
}

/// A set `SAILOR_CONFIG_DIR` is the secrets directory, whatever the machine has.
pub proof fn law_override_wins(dir: Seq<char>, base: Option<Seq<char>>, home: Option<Seq<char>>)
    requires
        dir.len() > 0,
    ensures
        config_path(Some(dir), base) == Ok::<Seq<char>, DirError>(dir),
        state_path(Some(dir), home) == Ok::<Seq<char>, DirError>(dir),
{
}

} // verus!
