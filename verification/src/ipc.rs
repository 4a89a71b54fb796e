//! What hooks, commands and the daemon say to one another, one JSON line each.

use crate::events::Event;
use crate::inbox::{Row, RowView};
use crate::paths::{dir_view, in_force, join_path, path_joined, state_dir, state_path, DirError};
use crate::text;
use crate::text::opt_text;
use vstd::prelude::*;

verus! {

/// What a client sends.
#[derive(Debug, PartialEq)]
pub enum ClientMessage {
    /// A hook reports an event; with `await_decision` it holds the connection
    /// open until the phone answers.
    Event { event: Event, await_decision: bool },
    /// An answer to a waiting approval.
    Decision { pending_action_id: u128, allow: bool },
    /// The rows as they are, then every update, or with `once` no updates.
    Subscribe { once: bool },
}

/// What the daemon sends back.
#[derive(Debug, PartialEq)]
pub enum ServerMessage {
    /// The answer to an approval.
    Decision { allow: bool },
    /// The approval was not answered: the agent asks in the terminal.
    NoDecision,
    /// A row.
    Row { row: Row },
    /// What came of a `Decision`.
    Ack { ok: bool, error: Option<String> },
}

/// A reply as the contracts speak of it.
pub enum ServerView {
    Decision { allow: bool },
    NoDecision,
    Row { row: RowView },
    Ack { ok: bool, error: Option<Seq<char>> },
}

impl View for ServerMessage {
    type V = ServerView;

    open spec fn view(&self) -> ServerView {
        match *self {
            ServerMessage::Decision { allow } => ServerView::Decision { allow },
            ServerMessage::NoDecision => ServerView::NoDecision,
            ServerMessage::Row { row } => ServerView::Row { row: row@ },
            ServerMessage::Ack { ok, error } => ServerView::Ack { ok, error: opt_text(error) },
        }
    }
}

/// The hook socket: the override where it is in force, else `hook.sock` in the
/// state directory.
pub open spec fn socket_at(
    over: Option<Seq<char>>,
    state: Option<Seq<char>>,
    home: Option<Seq<char>>,
) -> Result<Seq<char>, DirError> {
    if in_force(over) {
        Ok(over->0)
    } else {
        match state_path(state, home) {
            Ok(dir) => Ok(path_joined(dir, "hook.sock"@)),
            Err(e) => Err(e),
        }
    }
}

/// The hook socket. `over` is what `SAILOR_HOOK_SOCKET` holds, `state` what
/// `SAILOR_STATE_DIR` holds.
pub fn socket_path(over: Option<&str>, state: Option<&str>, home: Option<&str>) -> (r: Result<
    String,
    DirError,
>)
    ensures
        dir_view(r) == socket_at(text::opt_str(over), text::opt_str(state), text::opt_str(home)),
{
    if let Some(p) = over {
        if !p.is_empty() {
            return Ok(text::owned(p));
        }
    }
    match state_dir(state, home) {
        Ok(dir) => Ok(join_path(dir.as_str(), "hook.sock")),
        Err(e) => Err(e),
    }
}

/// How a connection attempt failed.
#[derive(Debug, Clone, Copy, PartialEq, Eq, Structural)]
pub enum ConnectFailure {
    NotFound,
    Refused,
    Other,
}

/// Whether a failed attempt means that no daemon listens, which is no failure
/// that an agent should hear of.
pub fn is_not_listening(e: ConnectFailure) -> (r: bool)
    ensures
        r == (e == ConnectFailure::NotFound || e == ConnectFailure::Refused),
{
    match e {
        ConnectFailure::NotFound => true,
        ConnectFailure::Refused => true,
        ConnectFailure::Other => false,
    }
}

/// Whether what stands at the socket's path is to be removed before it is bound:
/// something is there, and nothing listens on it.
pub fn is_stale(exists: bool, connects: bool) -> (r: bool)
    ensures
        r == (exists && !connects),
{
    exists && !connects
}

} // verus!
