//! The inbox as lines on standard output, and answers as lines on standard input.

use crate::commands::approve;
use crate::ids::uuid_parsed;
use crate::ipc::ClientMessage;
use crate::json;
use crate::json::{json_parsed, Json, JsonTree, Scalar};
use crate::text;
use crate::text::trimmed;
use crate::tree::{field, text_field, Node, Tree};
use vstd::prelude::*;

verus! {

/// What is asked of the daemon: the rows as they are, or also every update, which
/// the answers need.
pub fn request(watch: bool, stdin_approvals: bool) -> (r: ClientMessage)
    ensures
        r == (ClientMessage::Subscribe { once: !watch && !stdin_approvals }),
{
    ClientMessage::Subscribe { once: !watch && !stdin_approvals }
}

/// An answer as a document gives it: the identifier as it stands there, and
/// whether it allows.
pub open spec fn answer_in(t: JsonTree) -> Result<(Seq<char>, bool), Seq<char>> {
    match text_field(t, "pendingActionId"@) {
        Some(id) => match field(t, "allow"@) {
            Some(Tree::Leaf(Scalar::Bool(allow))) => Ok((id, allow)),
            _ => Err("approval line has no allow boolean"@),
        },
        None => Err("approval line has no pendingActionId"@),
    }
}

/// An answer as a line gives it.
pub open spec fn line_answer(line: Seq<char>) -> Result<(Seq<char>, bool), Seq<char>> {
    match json_parsed(line) {
        Ok(t) => answer_in(t),
        Err(_) => Err("approval line is not JSON"@),
    }
}

/// What a line has the daemon do.
pub open spec fn line_decision(line: Seq<char>) -> Result<(u128, bool), Seq<char>> {
    match line_answer(line) {
        Ok((id, allow)) => match uuid_parsed(id) {
            Some(n) => Ok((n, allow)),
            None => Err("`"@ + id + "` is not a pending-action id"@),
        },
        Err(e) => Err(e),
    }
}

/// An answer as a parsed document gives it.
pub fn answer_of(value: &Json) -> (r: Result<(String, bool), String>)
    ensures
        match r {
            Ok((id, allow)) => answer_in(value@) == Ok::<(Seq<char>, bool), Seq<char>>((id@, allow)),
            Err(e) => answer_in(value@) == Err::<(Seq<char>, bool), Seq<char>>(e@),
        },
{
    match value.get_str("pendingActionId") {
        Some(id) => match value.get("allow") {
            Some(Node::Leaf(Scalar::Bool(allow))) => Ok((text::owned(id), *allow)),
            _ => Err(text::owned("approval line has no allow boolean")),
        },
        None => Err(text::owned("approval line has no pendingActionId")),
    }
}

/// What a line has the daemon do.
pub fn answer(line: &str) -> (r: Result<ClientMessage, String>)
    ensures
        match r {
            Ok(m) => m matches ClientMessage::Decision { pending_action_id, allow }
                && line_decision(line@) == Ok::<(u128, bool), Seq<char>>(
                (pending_action_id, allow),
            ),
            Err(e) => line_decision(line@) == Err::<(u128, bool), Seq<char>>(e@),
        },
{
    match json::parse(line) {
        Ok(value) => match answer_of(&value) {
            Ok((id, allow)) => match approve::pending_action(id.as_str()) {
                Ok(n) => Ok(ClientMessage::Decision { pending_action_id: n, allow }),
                Err(e) => Err(e),
            },
            Err(e) => Err(e),
        },
        Err(_) => Err(text::owned("approval line is not JSON")),
    }
}

/// What a line from standard input holds; a blank line holds nothing.
pub fn input_line(line: &str) -> (r: Option<String>)
    ensures
        text::opt_text(r) == if trimmed(line@).len() == 0 {
            None
        } else {
            Some(trimmed(line@))
        },
{
    let t = text::trim(line);
    if t.as_str().is_empty() {
        None
    } else {
        Some(t)
    }
}

} // verus!
