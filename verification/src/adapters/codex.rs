//! Codex. Its payloads and its permission hook are like those of
//! `claude_code`.

use crate::adapters::{
    asks_permission, decidable, decision_node, event_name, normalize_for, normalized, outcome,
    output_node, rendered, AdapterError,
};
use crate::config::Agent;
use crate::events::{Category, Event};
use crate::ids;
use crate::json::Json;
use crate::text;
use crate::tree::well_formed;
use vstd::prelude::*;

verus! {

/// The kind of event that a hook stands for.
pub open spec fn category(hook: Seq<char>) -> Option<Category> {
    if hook == "SessionStart"@ {
        Some(Category::SessionStarted)
    } else if hook == "PreToolUse"@ {
        Some(Category::ToolRunning)
    } else if hook == "PostToolUse"@ {
        Some(Category::ToolFinished)
    } else if hook == "PermissionRequest"@ {
        Some(Category::ApprovalRequired)
    } else if hook == "Stop"@ || hook == "SubagentStop"@ || hook == "SessionEnd"@ {
        Some(Category::TaskComplete)
    } else {
        None
    }
}

/// The kind of event that a hook stands for.
pub fn category_for(hook: &str) -> (r: Option<Category>)
    ensures
        r == category(hook@),
{
    if text::same(hook, "SessionStart") {
        Some(Category::SessionStarted)
    } else if text::same(hook, "PreToolUse") {
        Some(Category::ToolRunning)
    } else if text::same(hook, "PostToolUse") {
        Some(Category::ToolFinished)
    } else if text::same(hook, "PermissionRequest") {
        Some(Category::ApprovalRequired)
    } else if text::same(hook, "Stop") || text::same(hook, "SubagentStop") || text::same(
        hook,
        "SessionEnd",
    ) {
        Some(Category::TaskComplete)
    } else {
        None
    }
}

/// The event that a payload is, with fresh random identifiers.
pub fn normalize(payload: &Json, remaining: Option<u32>) -> (r: Result<Event, AdapterError>)
    ensures
        exists|event_id: u128, action_id: u128|
            ids::is_random(event_id) && ids::is_random(action_id) && outcome(r)
                == #[trigger] normalized(Agent::Codex, payload@, remaining, event_id, action_id),
{
    normalize_for(Agent::Codex, payload, remaining)
}

/// Whether the phone can answer a payload.
pub fn is_decidable(payload: &Json) -> (r: bool)
    ensures
        r == decidable(Agent::Codex, payload@),
{
    asks_permission(payload)
}

/// What Codex reads as the decision: the behaviour, and on a denial why. It takes
/// no input back.
pub fn render_decision(payload: &Json, allow: bool) -> (r: Json)
    requires
        well_formed(payload@),
    ensures
        r@ == rendered(Agent::Codex, payload@, allow),
        well_formed(r@),
{
    let name = match event_name(payload) {
        Some(n) => n,
        None => "PermissionRequest",
    };
    output_node(name, decision_node(payload, allow, false))
}

} // verus!
