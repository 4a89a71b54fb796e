//! OpenCode, through our plugin. A permission that is asked for shows as an
//! approval, but cannot be answered.

use crate::adapters::{
    normalize_for, normalized, outcome, AdapterError,
};
use crate::config::Agent;
use crate::events::{Category, Event};
use crate::ids;
use crate::json::Json;
use crate::text;
use vstd::prelude::*;

verus! {

/// The kind of event that a hook stands for.
pub open spec fn category(hook: Seq<char>) -> Option<Category> {
    if hook == "session.created"@ {
        Some(Category::SessionStarted)
    } else if hook == "session.idle"@ {
        Some(Category::TaskComplete)
    } else if hook == "tool.execute.before"@ {
        Some(Category::ToolRunning)
    } else if hook == "tool.execute.after"@ {
        Some(Category::ToolFinished)
    } else if hook == "permission.asked"@ || hook == "permission.v2.asked"@ {
        Some(Category::ApprovalRequired)
    } else {
        None
    }
}

/// The kind of event that a hook stands for.
pub fn category_for(hook: &str) -> (r: Option<Category>)
    ensures
        r == category(hook@),
{
    if text::same(hook, "session.created") {
        Some(Category::SessionStarted)
    } else if text::same(hook, "session.idle") {
        Some(Category::TaskComplete)
    } else if text::same(hook, "tool.execute.before") {
        Some(Category::ToolRunning)
    } else if text::same(hook, "tool.execute.after") {
        Some(Category::ToolFinished)
    } else if text::same(hook, "permission.asked") || text::same(hook, "permission.v2.asked") {
        Some(Category::ApprovalRequired)
    } else {
        None
    }
}

/// The event that a payload is, with fresh random identifiers.
pub fn normalize(payload: &Json, remaining: Option<u32>) -> (r: Result<Event, AdapterError>)
    ensures
        exists|event_id: u128, action_id: u128|
            ids::is_random(event_id) && ids::is_random(action_id) && outcome(r)
                == #[trigger] normalized(Agent::OpenCode, payload@, remaining, event_id, action_id),
{
    normalize_for(Agent::OpenCode, payload, remaining)
}

/// Nothing that this agent reports can be answered.
pub fn is_decidable(_payload: &Json) -> (r: bool)
    ensures
        !r,
{
    false
}

} // verus!
