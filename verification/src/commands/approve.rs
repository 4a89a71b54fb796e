//! Answering a waiting approval.

use crate::ids;
use crate::ids::uuid_parsed;
use crate::ipc::{ServerMessage, ServerView};
use crate::text;
use vstd::prelude::*;

verus! {

/// What is said where no daemon listens.
pub const NOT_RUNNING: &'static str = "sailor-hook daemon is not running";

/// The identifier that an approval is answered by, or what is said of a text that
/// is none.
pub fn pending_action(id: &str) -> (r: Result<u128, String>)
    ensures
        match r {
            Ok(n) => uuid_parsed(id@) == Some(n),
            Err(e) => uuid_parsed(id@) is None && e@ == "`"@ + id@
                + "` is not a pending-action id"@,
        },
{
    match ids::parse(id) {
        Some(n) => Ok(n),
        None => Err(text::concat3("`", id, "` is not a pending-action id")),
    }
}

/// What comes of an answer: the word that is printed, or what is said of a failure.
pub open spec fn outcome(reply: Option<ServerView>, allow: bool) -> Result<Seq<char>, Seq<char>> {
    match reply {
        Some(ServerView::Ack { ok, error }) => if ok {
            Ok(
                if allow {
                    "allowed"@
                } else {
                    "denied"@
                },
            )
        } else {
            Err(
                match error {
                    Some(e) => e,
                    None => "approval could not be answered"@,
                },
            )
        },
        _ => Err("unexpected reply from the daemon"@),
    }
}

/// The view of an optional reply.
pub open spec fn reply_view(reply: Option<ServerMessage>) -> Option<ServerView> {
    match reply {
        Some(m) => Some(m@),
        None => None,
    }
}

/// What comes of an answer, by what the daemon said to it; `None` where it closed
/// the connection.
pub fn conclude(reply: Option<ServerMessage>, allow: bool) -> (r: Result<String, String>)
    ensures
        match r {
            Ok(s) => outcome(reply_view(reply), allow) == Ok::<Seq<char>, Seq<char>>(s@),
            Err(e) => outcome(reply_view(reply), allow) == Err::<Seq<char>, Seq<char>>(e@),
        },
{
    match reply {
        Some(ServerMessage::Ack { ok, error }) => {
            if ok {
                Ok(
                    text::owned(
                        if allow {
                            "allowed"
                        } else {
                            "denied"
                        },
                    ),
                )
            } else {
                match error {
                    Some(e) => Err(e),
                    None => Err(text::owned("approval could not be answered")),
                }
            }
        },
        _ => Err(text::owned("unexpected reply from the daemon")),
    }
}

/// Success is reported only where the daemon took the answer, and in the sense in
/// which it was given.
pub proof fn law_success_means_answered(reply: Option<ServerView>, allow: bool)
    ensures
        outcome(reply, allow) is Ok <==> (reply matches Some(ServerView::Ack { ok, .. }) && ok),
{
}

} // verus!
