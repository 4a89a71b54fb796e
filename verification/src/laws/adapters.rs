//! Laws of the adapters: what each agent's hooks stand for, what an event tells of
//! its payload, and what an agent is answered.

use crate::adapters::{
    adapter_named, category_of, decidable, decides, label_of, normalized, rendered, titled, ErrorView,
};
use crate::commands::install::{events_of, kimi_events};
use crate::config::{first_word, Agent};
use crate::events::{Category, EventView};
use crate::ids::{uuid_hashed, uuid_parsed};
use crate::json::{JsonTree, Scalar};
use crate::laws::text::law_lines;
use crate::text::{ends, lemma_pos_is};
use crate::tree::{field, lemma_with_key, lookup, text_field, with_key, Tree};
use vstd::prelude::*;

verus! {

/// What the hooks of `claude_code` stand for: which of them start a session, run a tool, finish
/// it, ask for an approval and end a turn, and that every other name is refused.
pub proof fn law_claude_code_hooks(
    payload: JsonTree,
    remaining: Option<u32>,
    event_id: u128,
    action_id: u128,
    hook: Seq<char>,
)
    requires
        text_field(payload, "hook_event_name"@) == Some(hook),
    ensures
        ({
            let r = normalized(Agent::ClaudeCode, payload, remaining, event_id, action_id);
            &&& hook == "SessionStart"@ ==> (r matches Ok(e) && e.category
                == Category::SessionStarted && e.title == "Session started"@)
            &&& hook == "PreToolUse"@ ==> (r matches Ok(e) && e.category
                == Category::ToolRunning)
            &&& hook == "PostToolUse"@ || hook == "PostToolUseFailure"@ ==> (r matches Ok(e) && e.category
                == Category::ToolFinished)
            &&& hook == "Notification"@ || hook == "PermissionRequest"@ ==> (r matches Ok(e) && e.category
                == Category::ApprovalRequired)
            &&& hook == "Stop"@ || hook == "SubagentStop"@ ==> (r matches Ok(e) && e.category
                == Category::TaskComplete && e.title == "Task complete"@)
            &&& hook != "SessionStart"@ && hook != "PreToolUse"@ && hook != "PostToolUse"@ && hook != "PostToolUseFailure"@ && hook != "Notification"@ && hook != "PermissionRequest"@ && hook != "Stop"@ && hook != "SubagentStop"@ ==> (r matches Err(ErrorView::Unhandled { label, hook: h }) && h
                == hook && ends(label, " hook event"@))
        }),
{
    lemma_hook_names();
    let label = titled("claude_code"@) + " hook event"@;
    let k = titled("claude_code"@).len() as int;
    assert(label.subrange(k, label.len() as int) =~= " hook event"@);
    assert(label.len() - " hook event"@.len() == k);
}

/// What the hooks of Codex stand for: which of them start a session, run a tool, finish
/// it, ask for an approval and end a turn, and that every other name is refused.
pub proof fn law_codex_hooks(
    payload: JsonTree,
    remaining: Option<u32>,
    event_id: u128,
    action_id: u128,
    hook: Seq<char>,
)
    requires
        text_field(payload, "hook_event_name"@) == Some(hook),
    ensures
        ({
            let r = normalized(Agent::Codex, payload, remaining, event_id, action_id);
            &&& hook == "SessionStart"@ ==> (r matches Ok(e) && e.category
                == Category::SessionStarted && e.title == "Session started"@)
            &&& hook == "PreToolUse"@ ==> (r matches Ok(e) && e.category
                == Category::ToolRunning)
            &&& hook == "PostToolUse"@ ==> (r matches Ok(e) && e.category
                == Category::ToolFinished)
            &&& hook == "PermissionRequest"@ ==> (r matches Ok(e) && e.category
                == Category::ApprovalRequired)
            &&& hook == "Stop"@ || hook == "SubagentStop"@ || hook == "SessionEnd"@ ==> (r matches Ok(e) && e.category
                == Category::TaskComplete && e.title == "Task complete"@)
            &&& hook != "SessionStart"@ && hook != "PreToolUse"@ && hook != "PostToolUse"@ && hook != "PermissionRequest"@ && hook != "Stop"@ && hook != "SubagentStop"@ && hook != "SessionEnd"@ ==> r == Err::<
                EventView,
                ErrorView,
            >(ErrorView::Unhandled { label: "Codex hook event"@, hook })
        }),
{
    lemma_hook_names();
    reveal_strlit("codex");
    reveal_strlit(" hook event");
    reveal_strlit("Codex hook event");
    assert(titled("codex"@) + " hook event"@ =~= "Codex hook event"@);
}

/// What the hooks of Gemini stand for: which of them start a session, run a tool, finish
/// it, ask for an approval and end a turn, and that every other name is refused.
pub proof fn law_gemini_hooks(
    payload: JsonTree,
    remaining: Option<u32>,
    event_id: u128,
    action_id: u128,
    hook: Seq<char>,
)
    requires
        text_field(payload, "hook_event_name"@) == Some(hook),
    ensures
        ({
            let r = normalized(Agent::Gemini, payload, remaining, event_id, action_id);
            &&& hook == "SessionStart"@ ==> (r matches Ok(e) && e.category
                == Category::SessionStarted && e.title == "Session started"@)
            &&& hook == "BeforeTool"@ ==> (r matches Ok(e) && e.category
                == Category::ToolRunning)
            &&& hook == "AfterTool"@ ==> (r matches Ok(e) && e.category
                == Category::ToolFinished)
            &&& hook == "Notification"@ ==> (r matches Ok(e) && e.category
                == Category::ApprovalRequired)
            &&& hook == "SessionEnd"@ ==> (r matches Ok(e) && e.category
                == Category::TaskComplete && e.title == "Task complete"@)
            &&& hook != "SessionStart"@ && hook != "BeforeTool"@ && hook != "AfterTool"@ && hook != "Notification"@ && hook != "SessionEnd"@ ==> r == Err::<
                EventView,
                ErrorView,
            >(ErrorView::Unhandled { label: "Gemini hook event"@, hook })
        }),
{
    lemma_hook_names();
    reveal_strlit("gemini");
    reveal_strlit(" hook event");
    reveal_strlit("Gemini hook event");
    assert(titled("gemini"@) + " hook event"@ =~= "Gemini hook event"@);
}

/// What the hooks of Cursor stand for: which of them start a session, run a tool, finish
/// it, ask for an approval and end a turn, and that every other name is refused.
pub proof fn law_cursor_hooks(
    payload: JsonTree,
    remaining: Option<u32>,
    event_id: u128,
    action_id: u128,
    hook: Seq<char>,
)
    requires
        text_field(payload, "hook_event_name"@) == Some(hook),
    ensures
        ({
            let r = normalized(Agent::Cursor, payload, remaining, event_id, action_id);
            &&& hook == "sessionStart"@ ==> (r matches Ok(e) && e.category
                == Category::SessionStarted && e.title == "Session started"@)
            &&& hook == "preToolUse"@ ==> (r matches Ok(e) && e.category
                == Category::ToolRunning)
            &&& hook == "postToolUse"@ || hook == "postToolUseFailure"@ ==> (r matches Ok(e) && e.category
                == Category::ToolFinished)
            &&& hook == "stop"@ || hook == "sessionEnd"@ ==> (r matches Ok(e) && e.category
                == Category::TaskComplete && e.title == "Task complete"@)
            &&& hook != "sessionStart"@ && hook != "preToolUse"@ && hook != "postToolUse"@ && hook != "postToolUseFailure"@ && hook != "stop"@ && hook != "sessionEnd"@ ==> r == Err::<
                EventView,
                ErrorView,
            >(ErrorView::Unhandled { label: "Cursor hook event"@, hook })
        }),
{
    lemma_hook_names();
    reveal_strlit("cursor");
    reveal_strlit(" hook event");
    reveal_strlit("Cursor hook event");
    assert(titled("cursor"@) + " hook event"@ =~= "Cursor hook event"@);
}

/// What the hooks of Kimi stand for: which of them start a session, run a tool, finish
/// it, ask for an approval and end a turn, and that every other name is refused.
pub proof fn law_kimi_hooks(
    payload: JsonTree,
    remaining: Option<u32>,
    event_id: u128,
    action_id: u128,
    hook: Seq<char>,
)
    requires
        text_field(payload, "hook_event_name"@) == Some(hook),
    ensures
        ({
            let r = normalized(Agent::Kimi, payload, remaining, event_id, action_id);
            &&& hook == "SessionStart"@ ==> (r matches Ok(e) && e.category
                == Category::SessionStarted && e.title == "Session started"@)
            &&& hook == "PreToolUse"@ ==> (r matches Ok(e) && e.category
                == Category::ToolRunning)
            &&& hook == "PostToolUse"@ || hook == "PostToolUseFailure"@ ==> (r matches Ok(e) && e.category
                == Category::ToolFinished)
            &&& hook == "Notification"@ || hook == "PermissionRequest"@ ==> (r matches Ok(e) && e.category
                == Category::ApprovalRequired)
            &&& hook == "Stop"@ || hook == "SessionEnd"@ ==> (r matches Ok(e) && e.category
                == Category::TaskComplete && e.title == "Task complete"@)
            &&& hook != "SessionStart"@ && hook != "PreToolUse"@ && hook != "PostToolUse"@ && hook != "PostToolUseFailure"@ && hook != "Notification"@ && hook != "PermissionRequest"@ && hook != "Stop"@ && hook != "SessionEnd"@ ==> r == Err::<
                EventView,
                ErrorView,
            >(ErrorView::Unhandled { label: "Kimi hook event"@, hook })
        }),
{
    lemma_hook_names();
    reveal_strlit("kimi");
    reveal_strlit(" hook event");
    reveal_strlit("Kimi hook event");
    assert(titled("kimi"@) + " hook event"@ =~= "Kimi hook event"@);
}

/// What the hooks of Qwen stand for: which of them start a session, run a tool, finish
/// it, ask for an approval and end a turn, and that every other name is refused.
pub proof fn law_qwen_hooks(
    payload: JsonTree,
    remaining: Option<u32>,
    event_id: u128,
    action_id: u128,
    hook: Seq<char>,
)
    requires
        text_field(payload, "hook_event_name"@) == Some(hook),
    ensures
        ({
            let r = normalized(Agent::Qwen, payload, remaining, event_id, action_id);
            &&& hook == "SessionStart"@ ==> (r matches Ok(e) && e.category
                == Category::SessionStarted && e.title == "Session started"@)
            &&& hook == "PreToolUse"@ ==> (r matches Ok(e) && e.category
                == Category::ToolRunning)
            &&& hook == "PostToolUse"@ || hook == "PostToolUseFailure"@ ==> (r matches Ok(e) && e.category
                == Category::ToolFinished)
            &&& hook == "Notification"@ || hook == "PermissionRequest"@ ==> (r matches Ok(e) && e.category
                == Category::ApprovalRequired)
            &&& hook == "Stop"@ || hook == "SessionEnd"@ ==> (r matches Ok(e) && e.category
                == Category::TaskComplete && e.title == "Task complete"@)
            &&& hook != "SessionStart"@ && hook != "PreToolUse"@ && hook != "PostToolUse"@ && hook != "PostToolUseFailure"@ && hook != "Notification"@ && hook != "PermissionRequest"@ && hook != "Stop"@ && hook != "SessionEnd"@ ==> r == Err::<
                EventView,
                ErrorView,
            >(ErrorView::Unhandled { label: "Qwen hook event"@, hook })
        }),
{
    lemma_hook_names();
    reveal_strlit("qwen");
    reveal_strlit(" hook event");
    reveal_strlit("Qwen hook event");
    assert(titled("qwen"@) + " hook event"@ =~= "Qwen hook event"@);
}

/// What the hooks of OpenCode stand for: which of them start a session, run a tool, finish
/// it, ask for an approval and end a turn, and that every other name is refused.
pub proof fn law_opencode_hooks(
    payload: JsonTree,
    remaining: Option<u32>,
    event_id: u128,
    action_id: u128,
    hook: Seq<char>,
)
    requires
        text_field(payload, "hook_event_name"@) == Some(hook),
    ensures
        ({
            let r = normalized(Agent::OpenCode, payload, remaining, event_id, action_id);
            &&& hook == "session.created"@ ==> (r matches Ok(e) && e.category
                == Category::SessionStarted && e.title == "Session started"@)
            &&& hook == "tool.execute.before"@ ==> (r matches Ok(e) && e.category
                == Category::ToolRunning)
            &&& hook == "tool.execute.after"@ ==> (r matches Ok(e) && e.category
                == Category::ToolFinished)
            &&& hook == "permission.asked"@ || hook == "permission.v2.asked"@ ==> (r matches Ok(e) && e.category
                == Category::ApprovalRequired)
            &&& hook == "session.idle"@ ==> (r matches Ok(e) && e.category
                == Category::TaskComplete && e.title == "Task complete"@)
            &&& hook != "session.created"@ && hook != "tool.execute.before"@ && hook != "tool.execute.after"@ && hook != "permission.asked"@ && hook != "permission.v2.asked"@ && hook != "session.idle"@ ==> r == Err::<
                EventView,
                ErrorView,
            >(ErrorView::Unhandled { label: "OpenCode event"@, hook })
        }),
{
    lemma_hook_names();
}

/// What the hooks of pi stand for: which of them start a session, run a tool, finish
/// it, ask for an approval and end a turn, and that every other name is refused.
pub proof fn law_pi_hooks(
    payload: JsonTree,
    remaining: Option<u32>,
    event_id: u128,
    action_id: u128,
    hook: Seq<char>,
)
    requires
        text_field(payload, "hook_event_name"@) == Some(hook),
    ensures
        ({
            let r = normalized(Agent::Pi, payload, remaining, event_id, action_id);
            &&& hook == "session_start"@ ==> (r matches Ok(e) && e.category
                == Category::SessionStarted && e.title == "Session started"@)
            &&& hook == "agent_start"@ || hook == "tool_execution_start"@ ==> (r matches Ok(e) && e.category
                == Category::ToolRunning)
            &&& hook == "tool_execution_end"@ ==> (r matches Ok(e) && e.category
                == Category::ToolFinished)
            &&& hook == "agent_end"@ || hook == "agent_settled"@ ==> (r matches Ok(e) && e.category
                == Category::TaskComplete && e.title == "Task complete"@)
            &&& hook != "session_start"@ && hook != "agent_start"@ && hook != "tool_execution_start"@ && hook != "tool_execution_end"@ && hook != "agent_end"@ && hook != "agent_settled"@ ==> r == Err::<
                EventView,
                ErrorView,
            >(ErrorView::Unhandled { label: "pi event"@, hook })
        }),
{
    lemma_hook_names();
}

/// The names of hooks that are told apart differ in length or in a character.
pub proof fn lemma_hook_names()
    ensures
        "AfterTool"@.len() == 9,
        "BeforeTool"@.len() == 10,
        "Notification"@.len() == 12,
        "PermissionRequest"@.len() == 17,
        "PostToolUse"@.len() == 11,
        "PostToolUseFailure"@.len() == 18,
        "PreToolUse"@.len() == 10,
        "SessionEnd"@.len() == 10,
        "SessionStart"@.len() == 12,
        "Stop"@.len() == 4,
        "SubagentStop"@.len() == 12,
        "agent_end"@.len() == 9,
        "agent_settled"@.len() == 13,
        "agent_start"@.len() == 11,
        "permission.asked"@.len() == 16,
        "permission.v2.asked"@.len() == 19,
        "postToolUse"@.len() == 11,
        "postToolUseFailure"@.len() == 18,
        "preToolUse"@.len() == 10,
        "session.created"@.len() == 15,
        "session.idle"@.len() == 12,
        "sessionEnd"@.len() == 10,
        "sessionStart"@.len() == 12,
        "session_start"@.len() == 13,
        "stop"@.len() == 4,
        "tool.execute.after"@.len() == 18,
        "tool.execute.before"@.len() == 19,
        "tool_execution_end"@.len() == 18,
        "tool_execution_start"@.len() == 20,
        "AfterTool"@ != "agent_end"@,
        "BeforeTool"@ != "PreToolUse"@,
        "BeforeTool"@ != "SessionEnd"@,
        "BeforeTool"@ != "preToolUse"@,
        "BeforeTool"@ != "sessionEnd"@,
        "PreToolUse"@ != "SessionEnd"@,
        "PreToolUse"@ != "preToolUse"@,
        "PreToolUse"@ != "sessionEnd"@,
        "SessionEnd"@ != "preToolUse"@,
        "SessionEnd"@ != "sessionEnd"@,
        "preToolUse"@ != "sessionEnd"@,
        "Notification"@ != "SessionStart"@,
        "Notification"@ != "SubagentStop"@,
        "Notification"@ != "session.idle"@,
        "Notification"@ != "sessionStart"@,
        "SessionStart"@ != "SubagentStop"@,
        "SessionStart"@ != "session.idle"@,
        "SessionStart"@ != "sessionStart"@,
        "SubagentStop"@ != "session.idle"@,
        "SubagentStop"@ != "sessionStart"@,
        "session.idle"@ != "sessionStart"@,
        "PostToolUse"@ != "agent_start"@,
        "PostToolUse"@ != "postToolUse"@,
        "agent_start"@ != "postToolUse"@,
        "PostToolUseFailure"@ != "postToolUseFailure"@,
        "PostToolUseFailure"@ != "tool.execute.after"@,
        "PostToolUseFailure"@ != "tool_execution_end"@,
        "postToolUseFailure"@ != "tool.execute.after"@,
        "postToolUseFailure"@ != "tool_execution_end"@,
        "tool.execute.after"@ != "tool_execution_end"@,
        "Stop"@ != "stop"@,
        "agent_settled"@ != "session_start"@,
        "permission.v2.asked"@ != "tool.execute.before"@,
{
    reveal_strlit("AfterTool");
    reveal_strlit("BeforeTool");
    reveal_strlit("Notification");
    reveal_strlit("PermissionRequest");
    reveal_strlit("PostToolUse");
    reveal_strlit("PostToolUseFailure");
    reveal_strlit("PreToolUse");
    reveal_strlit("SessionEnd");
    reveal_strlit("SessionStart");
    reveal_strlit("Stop");
    reveal_strlit("SubagentStop");
    reveal_strlit("agent_end");
    reveal_strlit("agent_settled");
    reveal_strlit("agent_start");
    reveal_strlit("permission.asked");
    reveal_strlit("permission.v2.asked");
    reveal_strlit("postToolUse");
    reveal_strlit("postToolUseFailure");
    reveal_strlit("preToolUse");
    reveal_strlit("session.created");
    reveal_strlit("session.idle");
    reveal_strlit("sessionEnd");
    reveal_strlit("sessionStart");
    reveal_strlit("session_start");
    reveal_strlit("stop");
    reveal_strlit("tool.execute.after");
    reveal_strlit("tool.execute.before");
    reveal_strlit("tool_execution_end");
    reveal_strlit("tool_execution_start");
    assert("AfterTool"@[0] == 'A' && "agent_end"@[0] == 'a');
    assert("BeforeTool"@[0] == 'B' && "PreToolUse"@[0] == 'P');
    assert("BeforeTool"@[0] == 'B' && "SessionEnd"@[0] == 'S');
    assert("BeforeTool"@[0] == 'B' && "preToolUse"@[0] == 'p');
    assert("BeforeTool"@[0] == 'B' && "sessionEnd"@[0] == 's');
    assert("PreToolUse"@[0] == 'P' && "SessionEnd"@[0] == 'S');
    assert("PreToolUse"@[0] == 'P' && "preToolUse"@[0] == 'p');
    assert("PreToolUse"@[0] == 'P' && "sessionEnd"@[0] == 's');
    assert("SessionEnd"@[0] == 'S' && "preToolUse"@[0] == 'p');
    assert("SessionEnd"@[0] == 'S' && "sessionEnd"@[0] == 's');
    assert("preToolUse"@[0] == 'p' && "sessionEnd"@[0] == 's');
    assert("Notification"@[0] == 'N' && "SessionStart"@[0] == 'S');
    assert("Notification"@[0] == 'N' && "SubagentStop"@[0] == 'S');
    assert("Notification"@[0] == 'N' && "session.idle"@[0] == 's');
    assert("Notification"@[0] == 'N' && "sessionStart"@[0] == 's');
    assert("SessionStart"@[1] == 'e' && "SubagentStop"@[1] == 'u');
    assert("SessionStart"@[0] == 'S' && "session.idle"@[0] == 's');
    assert("SessionStart"@[0] == 'S' && "sessionStart"@[0] == 's');
    assert("SubagentStop"@[0] == 'S' && "session.idle"@[0] == 's');
    assert("SubagentStop"@[0] == 'S' && "sessionStart"@[0] == 's');
    assert("session.idle"@[7] == '.' && "sessionStart"@[7] == 'S');
    assert("PostToolUse"@[0] == 'P' && "agent_start"@[0] == 'a');
    assert("PostToolUse"@[0] == 'P' && "postToolUse"@[0] == 'p');
    assert("agent_start"@[0] == 'a' && "postToolUse"@[0] == 'p');
    assert("PostToolUseFailure"@[0] == 'P' && "postToolUseFailure"@[0] == 'p');
    assert("PostToolUseFailure"@[0] == 'P' && "tool.execute.after"@[0] == 't');
    assert("PostToolUseFailure"@[0] == 'P' && "tool_execution_end"@[0] == 't');
    assert("postToolUseFailure"@[0] == 'p' && "tool.execute.after"@[0] == 't');
    assert("postToolUseFailure"@[0] == 'p' && "tool_execution_end"@[0] == 't');
    assert("tool.execute.after"@[4] == '.' && "tool_execution_end"@[4] == '_');
    assert("Stop"@[0] == 'S' && "stop"@[0] == 's');
    assert("agent_settled"@[0] == 'a' && "session_start"@[0] == 's');
    assert("permission.v2.asked"@[0] == 'p' && "tool.execute.before"@[0] == 't');
}

/// Every event that an install subscribes to is one that is understood when it
/// comes, for each agent with settings of its own: whatever else a payload of it
/// holds, it is an event.
pub proof fn law_subscribed_events_are_understood(
    agent: Agent,
    i: int,
    payload: JsonTree,
    remaining: Option<u32>,
    event_id: u128,
    action_id: u128,
)
    ensures
        0 <= i < events_of(agent).len() ==> category_of(agent, events_of(agent)[i].0) is Some,
        0 <= i < kimi_events().len() ==> category_of(Agent::Kimi, kimi_events()[i].0) is Some,
        0 <= i < events_of(agent).len() && text_field(payload, "hook_event_name"@) == Some(
            events_of(agent)[i].0,
        ) ==> normalized(agent, payload, remaining, event_id, action_id) is Ok,
        0 <= i < kimi_events().len() && text_field(payload, "hook_event_name"@) == Some(
            kimi_events()[i].0,
        ) ==> normalized(Agent::Kimi, payload, remaining, event_id, action_id) is Ok,
{
    lemma_hook_names();
}

/// An install asks each agent to tell when a session starts, when a tool runs, when
/// it has finished and when a turn ends; and an agent that reads decisions, when it
/// wants permission.
pub proof fn law_install_hears_of_every_turn(agent: Agent)
    requires
        events_of(agent).len() > 0,
    ensures
        exists|i: int|
            0 <= i < events_of(agent).len() && category_of(agent, #[trigger] events_of(agent)[i].0)
                == Some(Category::SessionStarted),
        exists|i: int|
            0 <= i < events_of(agent).len() && category_of(agent, #[trigger] events_of(agent)[i].0)
                == Some(Category::ToolRunning),
        exists|i: int|
            0 <= i < events_of(agent).len() && category_of(agent, #[trigger] events_of(agent)[i].0)
                == Some(Category::ToolFinished),
        exists|i: int|
            0 <= i < events_of(agent).len() && category_of(agent, #[trigger] events_of(agent)[i].0)
                == Some(Category::TaskComplete),
        agent == Agent::ClaudeCode || agent == Agent::Codex || agent == Agent::Qwen ==> exists|
            i: int,
        |
            0 <= i < events_of(agent).len() && #[trigger] events_of(agent)[i].0
                == "PermissionRequest"@,
{
    lemma_hook_names();
    let t = events_of(agent);
    assert(category_of(agent, t[0].0) == Some(Category::SessionStarted));
    assert(category_of(agent, t[1].0) == Some(Category::ToolRunning));
    assert(category_of(agent, t[2].0) == Some(Category::ToolFinished));
    assert(category_of(agent, t[t.len() - 1].0) == Some(Category::TaskComplete));
    if agent == Agent::ClaudeCode || agent == Agent::Qwen {
        assert(t[4].0 == "PermissionRequest"@);
    } else if agent == Agent::Codex {
        assert(t[3].0 == "PermissionRequest"@);
    }
}

/// The title of an event names what goes on: the tool that runs, has finished or
/// waits for approval, where the payload names one, and else the first line of what
/// the approval says.
pub proof fn law_titles(
    agent: Agent,
    payload: JsonTree,
    remaining: Option<u32>,
    event_id: u128,
    action_id: u128,
    tool: Seq<char>,
    first: Seq<char>,
    more: Seq<char>,
)
    requires
        agent != Agent::Pi || text_field(payload, "hook_event_name"@) != Some("agent_start"@),
        !first.contains('\n'),
        first.len() == 0 || first.last() != '\r',
    ensures
        normalized(agent, payload, remaining, event_id, action_id) matches Ok(e) ==> {
            let named = text_field(payload, "tool_name"@);
            let message = text_field(payload, "message"@);
            &&& e.category == Category::SessionStarted ==> e.title == "Session started"@
            &&& e.category == Category::TaskComplete ==> e.title == "Task complete"@
            &&& e.category == Category::ToolRunning && named == Some(tool) ==> e.title
                == "Running "@ + tool
            &&& e.category == Category::ToolRunning && named is None ==> e.title
                == "Running tool"@
            &&& e.category == Category::ToolFinished && named == Some(tool) ==> e.title
                == "Finished "@ + tool
            &&& e.category == Category::ToolFinished && named is None ==> e.title
                == "Finished tool"@
            &&& e.category == Category::ApprovalRequired && named == Some(tool) ==> e.title
                == "Approve: "@ + tool
            &&& e.category == Category::ApprovalRequired && named is None && message is None
                ==> e.title == "Approval required"@
            &&& e.category == Category::ApprovalRequired && named is None && agent != Agent::Pi
                && message is Some && message->0.len() > 0 && !message->0.contains('\n')
                ==> e.title == message->0
            &&& e.category == Category::ApprovalRequired && named is None && agent != Agent::Pi
                && message == Some(first + seq!['\n'] + more) ==> e.title == first
        },
{
    reveal_strlit("");
    law_lines(first, more);
    let message = text_field(payload, "message"@);
    if message is Some && message->0.len() > 0 && !message->0.contains('\n') {
        law_lines(message->0, Seq::empty());
    }
}

/// Pi's start of work has a title of its own.
pub proof fn law_pi_works(
    payload: JsonTree,
    remaining: Option<u32>,
    event_id: u128,
    action_id: u128,
)
    requires
        text_field(payload, "hook_event_name"@) == Some("agent_start"@),
    ensures
        normalized(Agent::Pi, payload, remaining, event_id, action_id) matches Ok(e) && e.title
            == "Working"@ && e.category == Category::ToolRunning,
{
    lemma_hook_names();
}

/// An event tells of its payload: who sent it, where, and what it says. It has an
/// identifier to be answered by just where it is an approval of an agent that reads
/// the answer.
pub proof fn law_event_tells_of_its_payload(
    agent: Agent,
    payload: JsonTree,
    remaining: Option<u32>,
    event_id: u128,
    action_id: u128,
)
    ensures
        normalized(agent, payload, remaining, event_id, action_id) matches Ok(e) ==> {
            &&& e.source == agent.name()
            &&& e.project == text_field(payload, "cwd"@)
            &&& e.event_id == event_id
            &&& e.host_id.len() == 0
            &&& e.expires_at is None
            &&& e.terminal is None
            &&& e.usage.len() == 0
            &&& agent != Agent::Pi && text_field(payload, "message"@) is Some ==> Some(e.message)
                == text_field(payload, "message"@)
            &&& agent == Agent::Pi || text_field(payload, "message"@) is None ==> e.message.len()
                == 0
            &&& e.pending_action_id == if e.category == Category::ApprovalRequired && (agent
                == Agent::ClaudeCode || agent == Agent::Codex || agent == Agent::Qwen) {
                Some(action_id)
            } else {
                None
            }
        },
        text_field(payload, "hook_event_name"@) is None ==> normalized(
            agent,
            payload,
            remaining,
            event_id,
            action_id,
        ) == Err::<EventView, ErrorView>(ErrorView::NoEventName),
{
    reveal_strlit("");
}

/// A session that is named by a UUID has that for its identifier, for whatever
/// agent; any other is told apart by the agent and the name. Cursor's sessions are
/// its conversations. A payload that names none is of the session without a name.
pub proof fn law_sessions(
    agent: Agent,
    payload: JsonTree,
    remaining: Option<u32>,
    event_id: u128,
    action_id: u128,
    named: bool,
    session: Seq<char>,
)
    requires
        text_field(
            payload,
            if agent == Agent::Cursor {
                "conversation_id"@
            } else {
                "session_id"@
            },
        ) == if named {
            Some(session)
        } else {
            None
        },
        !named ==> session.len() == 0,
    ensures
        normalized(agent, payload, remaining, event_id, action_id) matches Ok(e) ==> {
            &&& uuid_parsed(session) is Some ==> e.session_id == uuid_parsed(session)->0
            &&& uuid_parsed(session) is None ==> e.session_id == uuid_hashed(
                agent.name() + ":"@ + session,
            )
        },
{
    reveal_strlit("");
    if !named {
        assert(session =~= ""@);
    }
}

/// How much context is left is told by the one hook of Qwen's and the one of pi's
/// that carry it, and by no other.
pub proof fn law_context_left(
    agent: Agent,
    payload: JsonTree,
    remaining: Option<u32>,
    event_id: u128,
    action_id: u128,
    hook: Seq<char>,
)
    requires
        text_field(payload, "hook_event_name"@) == Some(hook),
    ensures
        normalized(agent, payload, remaining, event_id, action_id) matches Ok(e) ==> {
            let tells = (agent == Agent::Qwen && hook == "Stop"@) || (agent == Agent::Pi && hook
                == "agent_settled"@);
            let number = field(payload, "context_usage"@) matches Some(
                Tree::Leaf(Scalar::Number(_)),
            );
            &&& tells && number ==> e.context_remaining == remaining
            &&& !(tells && number) ==> e.context_remaining is None
        },
{
}

/// The identifiers of the agents are those that their hooks are installed under, and
/// an adapter is found under that name alone.
pub proof fn law_adapters_are_found_by_name(name: Seq<char>)
    ensures
        adapter_named("codex"@) == Some(Agent::Codex),
        adapter_named("opencode"@) == Some(Agent::OpenCode),
        adapter_named("gemini"@) == Some(Agent::Gemini),
        adapter_named("cursor"@) == Some(Agent::Cursor),
        adapter_named("kimi"@) == Some(Agent::Kimi),
        adapter_named("qwen"@) == Some(Agent::Qwen),
        adapter_named("pi"@) == Some(Agent::Pi),
        adapter_named("claude_code"@) == Some(Agent::ClaudeCode),
        adapter_named(name) matches Some(a) ==> name == "claude_code"@ || name == "codex"@ || name
            == "opencode"@ || name == "gemini"@ || name == "cursor"@ || name == "kimi"@ || name
            == "qwen"@ || name == "pi"@,
{
    reveal_strlit("claude_code");
    reveal_strlit("codex");
    reveal_strlit("opencode");
    reveal_strlit("gemini");
    reveal_strlit("cursor");
    reveal_strlit("kimi");
    reveal_strlit("qwen");
    reveal_strlit("pi");
    assert("claude_code"@.len() == 11 && "codex"@.len() == 5 && "opencode"@.len() == 8);
    assert("gemini"@.len() == 6 && "cursor"@.len() == 6 && "kimi"@.len() == 4);
    assert("qwen"@.len() == 4 && "pi"@.len() == 2);
    assert("gemini"@[0] == 'g' && "cursor"@[0] == 'c');
    assert("kimi"@[0] == 'k' && "qwen"@[0] == 'q');
    assert("claude_code"@[6] == '_' && "claude_code"@[0] == 'c' && "claude_code"@[1] == 'l');
    lemma_pos_is("claude_code"@, '_', 6);
    let short = first_word("claude_code"@);
    assert(short.len() == 6 && short[0] == 'c' && short[1] == 'l');
    assert("cursor"@[1] == 'u');
}

/// The phone can answer the permission hook of the three agents that read a
/// decision, and nothing else.
pub proof fn law_what_can_be_answered(agent: Agent, payload: JsonTree)
    ensures
        decidable(agent, payload) <==> (agent == Agent::ClaudeCode || agent == Agent::Codex
            || agent == Agent::Qwen) && text_field(payload, "hook_event_name"@) == Some(
            "PermissionRequest"@,
        ),
        decides(agent) <==> agent == Agent::ClaudeCode || agent == Agent::Codex || agent
            == Agent::Qwen,
{
}

/// The decision inside an output.
pub open spec fn decision_of(output: JsonTree) -> JsonTree {
    field(field(output, "hookSpecificOutput"@)->0, "decision"@)->0
}

/// What an agent is answered: it says which hook it answers and what was decided. A
/// denial says where it comes from; an allowance hands the tool's input back as it
/// came, but for Codex, which takes none.
pub proof fn law_answer(agent: Agent, payload: JsonTree, allow: bool)
    ensures
        ({
            let output = rendered(agent, payload, allow);
            let d = decision_of(output);
            &&& field(output, "hookSpecificOutput"@) is Some
            &&& field(field(output, "hookSpecificOutput"@)->0, "decision"@) is Some
            &&& agent != Agent::Codex ==> text_field(
                field(output, "hookSpecificOutput"@)->0,
                "hookEventName"@,
            ) == Some("PermissionRequest"@)
            &&& agent == Agent::Codex && text_field(payload, "hook_event_name"@) is Some
                ==> text_field(field(output, "hookSpecificOutput"@)->0, "hookEventName"@)
                == text_field(payload, "hook_event_name"@)
            &&& allow ==> text_field(d, "behavior"@) == Some("allow"@)
            &&& !allow ==> text_field(d, "behavior"@) == Some("deny"@)
            &&& !allow ==> text_field(d, "message"@) == Some("Denied from the sailor app."@)
            &&& !allow ==> field(d, "updatedInput"@) is None
            &&& allow ==> field(d, "message"@) is None
            &&& allow && agent != Agent::Codex && field(payload, "tool_input"@) is Some ==> field(
                d,
                "updatedInput"@,
            ) == field(payload, "tool_input"@)
            &&& allow && agent != Agent::Codex && field(payload, "tool_input"@) is None ==> field(
                d,
                "updatedInput"@,
            ) == Some(JsonTree::Table(Seq::empty()))
            &&& allow && agent == Agent::Codex ==> field(d, "updatedInput"@) is None
        }),
{
    reveal_strlit("behavior");
    reveal_strlit("message");
    reveal_strlit("updatedInput");
    reveal_strlit("hookEventName");
    reveal_strlit("decision");
    assert("behavior"@.len() == 8 && "message"@.len() == 7 && "updatedInput"@.len() == 12);
    assert("hookEventName"@.len() == 13 && "decision"@.len() == 8);
    let empty = Seq::<(Seq<char>, JsonTree)>::empty();
    let word = JsonTree::Text(
        if allow {
            "allow"@
        } else {
            "deny"@
        },
    );
    lemma_with_key(empty, "behavior"@, word);
    let base = with_key(empty, "behavior"@, word);
    assert(lookup(empty, "message"@) is None && lookup(empty, "updatedInput"@) is None);
    lemma_with_key(base, "message"@, JsonTree::Text("Denied from the sailor app."@));
    let input = match field(payload, "tool_input"@) {
        Some(input) => input,
        None => JsonTree::Table(Seq::empty()),
    };
    lemma_with_key(base, "updatedInput"@, input);
    let name = if agent == Agent::Codex {
        match text_field(payload, "hook_event_name"@) {
            Some(name) => name,
            None => "PermissionRequest"@,
        }
    } else {
        "PermissionRequest"@
    };
    let d = if !allow {
        Tree::Table(with_key(base, "message"@, JsonTree::Text("Denied from the sailor app."@)))
    } else if agent != Agent::Codex {
        Tree::Table(with_key(base, "updatedInput"@, input))
    } else {
        Tree::Table(base)
    };
    lemma_with_key(empty, "hookEventName"@, JsonTree::Text(name));
    let named = with_key(empty, "hookEventName"@, JsonTree::Text(name));
    lemma_with_key(named, "decision"@, d);
    lemma_with_key(
        empty,
        "hookSpecificOutput"@,
        JsonTree::Table(with_key(named, "decision"@, d)),
    );
}

/// A title is an identifier with its words apart, each with a capital.
pub proof fn law_titled(id: Seq<char>, i: int)
    requires
        0 <= i < id.len(),
    ensures
        titled(id).len() == id.len(),
        id[i] == '_' ==> titled(id)[i] == ' ',
        'a' <= id[i] <= 'z' && (i == 0 || id[i - 1] == '_') ==> titled(id)[i] as int == id[i] as int
            - 'a' as int + 'A' as int,
        id[i] != '_' && i > 0 && id[i - 1] != '_' ==> titled(id)[i] == id[i],
{
}

/// What a message calls the reports of an agent with hooks: the agent's name as a
/// title. OpenCode and pi have events.
pub proof fn law_labels()
    ensures
        label_of(Agent::ClaudeCode) == titled("claude_code"@) + " hook event"@,
        label_of(Agent::OpenCode) == "OpenCode event"@,
        label_of(Agent::Pi) == "pi event"@,
{
}

} // verus!
