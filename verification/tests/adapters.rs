use sailor_hook::adapters::{
    self, claude_code, codex, cursor, gemini, kimi, opencode, pi, qwen, session_uuid, title_for,
};
use sailor_hook::events::Category;
use sailor_hook::ids;
use sailor_hook::json::{self, Json, Scalar};
use sailor_hook::tree::Node;

fn j(text: &str) -> Json {
    json::parse(text).unwrap()
}

fn at<'a>(value: &'a Json, path: &[&str]) -> Option<&'a Json> {
    let mut here = value;
    for key in path {
        here = here.get(key)?;
    }
    Some(here)
}

fn text_at<'a>(value: &'a Json, path: &[&str]) -> Option<&'a str> {
    at(value, path).and_then(|v| v.as_str())
}

/// What is left of the context, from the share of it that a payload says is used.
fn remaining(payload: &Json) -> Option<u32> {
    match payload.get("context_usage") {
        Some(Node::Leaf(Scalar::Number(n))) => n
            .as_f64()
            .map(|used| ((1.0 - used).clamp(0.0, 1.0) as f32).to_bits()),
        _ => None,
    }
}

// ---------------------------------------------------------------------------
// claude_code
// ---------------------------------------------------------------------------

#[test]
fn maps_pre_tool_use() {
    let e = claude_code::normalize(
        &j(r#"{
            "session_id": "3f2504e0-4f89-11d3-9a0c-0305e82c3301",
            "cwd": "/Users/x/projects/foo",
            "hook_event_name": "PreToolUse",
            "tool_name": "Bash"
        }"#),
        None,
    )
    .unwrap();
    assert_eq!(e.category, Category::ToolRunning);
    assert_eq!(e.title, "Running Bash");
    assert_eq!(e.project.as_deref(), Some("/Users/x/projects/foo"));
    assert_eq!(ids::format(e.session_id), "3f2504e0-4f89-11d3-9a0c-0305e82c3301");
    assert!(e.pending_action_id.is_none());
}

#[test]
fn permission_request_is_an_approval_with_an_action_id() {
    let e = claude_code::normalize(
        &j(r#"{"session_id": "s1", "hook_event_name": "PermissionRequest", "tool_name": "Bash"}"#),
        None,
    )
    .unwrap();
    assert_eq!(e.category, Category::ApprovalRequired);
    assert_eq!(e.title, "Approve: Bash");
    assert!(e.pending_action_id.is_some());
}

#[test]
fn notification_without_a_tool_titles_from_its_message() {
    let e = claude_code::normalize(
        &j(r#"{
            "session_id": "s1",
            "hook_event_name": "Notification",
            "message": "The agent needs your permission\nto continue"
        }"#),
        None,
    )
    .unwrap();
    assert_eq!(e.title, "The agent needs your permission");
    assert_eq!(e.message, "The agent needs your permission\nto continue");
}

#[test]
fn claude_code_same_session_id_across_events() {
    let mk = |hook: &str| {
        claude_code::normalize(
            &j(&format!(r#"{{"session_id": "abc", "hook_event_name": "{hook}"}}"#)),
            None,
        )
        .unwrap()
    };
    assert_eq!(mk("SessionStart").session_id, mk("Stop").session_id);
}

#[test]
fn only_permission_request_is_decidable() {
    assert!(claude_code::is_decidable(&j(r#"{"hook_event_name": "PermissionRequest"}"#)));
    // Looks like an approval in the inbox, but has no answer channel.
    assert!(!claude_code::is_decidable(&j(r#"{"hook_event_name": "Notification"}"#)));
    assert!(!claude_code::is_decidable(&j(r#"{"hook_event_name": "PreToolUse"}"#)));
}

#[test]
fn allow_echoes_the_tool_input_unchanged() {
    let payload = j(r#"{
        "hook_event_name": "PermissionRequest",
        "tool_name": "Bash",
        "tool_input": { "command": "npm test" }
    }"#);
    let out = claude_code::render_decision(&payload, true);
    assert_eq!(
        text_at(&out, &["hookSpecificOutput", "hookEventName"]),
        Some("PermissionRequest")
    );
    assert_eq!(
        text_at(&out, &["hookSpecificOutput", "decision", "behavior"]),
        Some("allow")
    );
    assert_eq!(
        text_at(&out, &["hookSpecificOutput", "decision", "updatedInput", "command"]),
        Some("npm test")
    );
}

#[test]
fn deny_carries_a_message_and_no_input() {
    let out = claude_code::render_decision(&j(r#"{"hook_event_name": "PermissionRequest"}"#), false);
    let decision = at(&out, &["hookSpecificOutput", "decision"]).unwrap();
    assert_eq!(decision.get_str("behavior"), Some("deny"));
    assert!(decision.get("updatedInput").is_none());
    assert!(decision.get_str("message").is_some());
}

#[test]
fn rejects_payloads_it_cannot_map() {
    assert!(claude_code::normalize(&j(r#"{"session_id": "s"}"#), None).is_err());
    assert!(claude_code::normalize(&j(r#"{"hook_event_name": "PreCompact"}"#), None).is_err());
}

// ---------------------------------------------------------------------------
// Codex
// ---------------------------------------------------------------------------

fn codex_payload(hook: &str) -> Json {
    j(&format!(
        r#"{{"session_id": "thr_123", "cwd": "/workspace/proj", "hook_event_name": "{hook}"}}"#
    ))
}

#[test]
fn maps_tool_and_lifecycle_events() {
    let e = codex::normalize(&codex_payload("PreToolUse"), None).unwrap();
    assert_eq!(e.category, Category::ToolRunning);
    assert_eq!(e.title, "Running tool");
    assert_eq!(e.project.as_deref(), Some("/workspace/proj"));

    let e = codex::normalize(&codex_payload("SessionEnd"), None).unwrap();
    assert_eq!(e.category, Category::TaskComplete);
}

#[test]
fn codex_same_session_id_across_events() {
    let a = codex::normalize(&codex_payload("SessionStart"), None).unwrap();
    let b = codex::normalize(&codex_payload("Stop"), None).unwrap();
    assert_eq!(a.session_id, b.session_id);
}

#[test]
fn permission_request_is_decidable_and_renders() {
    assert!(codex::is_decidable(&codex_payload("PermissionRequest")));
    assert!(!codex::is_decidable(&codex_payload("PreToolUse")));

    let e = codex::normalize(&codex_payload("PermissionRequest"), None).unwrap();
    assert_eq!(e.category, Category::ApprovalRequired);
    assert!(e.pending_action_id.is_some());

    let allow = codex::render_decision(&codex_payload("PermissionRequest"), true);
    let decision = at(&allow, &["hookSpecificOutput", "decision"]).unwrap();
    assert_eq!(decision.get_str("behavior"), Some("allow"));
    assert!(decision.get("updatedInput").is_none());

    let deny = codex::render_decision(&codex_payload("PermissionRequest"), false);
    let decision = at(&deny, &["hookSpecificOutput", "decision"]).unwrap();
    assert_eq!(decision.get_str("behavior"), Some("deny"));
    assert!(decision.get_str("message").is_some());
}

// ---------------------------------------------------------------------------
// Cursor
// ---------------------------------------------------------------------------

fn cursor_payload(hook: &str, conversation: &str) -> Json {
    j(&format!(
        r#"{{
            "conversation_id": "{conversation}",
            "cwd": "/proj",
            "hook_event_name": "{hook}",
            "tool_name": "Shell",
            "tool_input": {{ "command": "npm test" }}
        }}"#
    ))
}

fn cursor_category(hook: &str) -> Category {
    cursor::normalize(&cursor_payload(hook, "conv-456"), None).unwrap().category
}

#[test]
fn maps_cursor_event_names() {
    assert_eq!(cursor_category("preToolUse"), Category::ToolRunning);
    assert_eq!(cursor_category("postToolUseFailure"), Category::ToolFinished);
    assert_eq!(cursor_category("sessionStart"), Category::SessionStarted);
    assert_eq!(cursor_category("stop"), Category::TaskComplete);
}

#[test]
fn conversation_id_binds_the_session() {
    let a = cursor::normalize(&cursor_payload("sessionStart", "conv-456"), None).unwrap();
    let b = cursor::normalize(&cursor_payload("stop", "conv-456"), None).unwrap();
    assert_eq!(a.session_id, b.session_id);
    // A different conversation is a different row.
    let other = cursor_payload("sessionStart", "conv-999");
    assert_ne!(a.session_id, cursor::normalize(&other, None).unwrap().session_id);
}

#[test]
fn shell_tools_title_from_the_cursor_tool_name() {
    let e = cursor::normalize(&cursor_payload("preToolUse", "conv-456"), None).unwrap();
    assert_eq!(e.title, "Running Shell");
}

#[test]
fn never_decidable() {
    assert!(!cursor::is_decidable(&cursor_payload("preToolUse", "conv-456")));
}

// ---------------------------------------------------------------------------
// Gemini
// ---------------------------------------------------------------------------

fn gemini_payload(hook: &str) -> Json {
    j(&format!(r#"{{"session_id": "gs-1", "cwd": "/proj", "hook_event_name": "{hook}"}}"#))
}

fn gemini_category(hook: &str) -> Category {
    gemini::normalize(&gemini_payload(hook), None).unwrap().category
}

#[test]
fn maps_gemini_event_names() {
    assert_eq!(gemini_category("BeforeTool"), Category::ToolRunning);
    assert_eq!(gemini_category("AfterTool"), Category::ToolFinished);
    assert_eq!(gemini_category("SessionStart"), Category::SessionStarted);
    assert_eq!(gemini_category("SessionEnd"), Category::TaskComplete);
}

#[test]
fn notification_is_an_observation_approval() {
    let p = j(r#"{
        "session_id": "gs-1",
        "cwd": "/proj",
        "hook_event_name": "Notification",
        "notification_type": "ToolPermission",
        "message": "Gemini wants to run: make test"
    }"#);
    let e = gemini::normalize(&p, None).unwrap();
    assert_eq!(e.category, Category::ApprovalRequired);
    // No answer channel: no pending id, and never decidable.
    assert!(e.pending_action_id.is_none());
    assert!(!gemini::is_decidable(&p));
}

#[test]
fn unknown_events_are_rejected() {
    assert!(gemini::normalize(&gemini_payload("BeforeModel"), None).is_err());
    assert!(gemini::normalize(&gemini_payload("PreCompress"), None).is_err());
}

// ---------------------------------------------------------------------------
// Kimi
// ---------------------------------------------------------------------------

fn kimi_payload(hook: &str) -> Json {
    j(&format!(r#"{{"session_id": "session_abc", "cwd": "/proj", "hook_event_name": "{hook}"}}"#))
}

fn kimi_category(hook: &str) -> Category {
    kimi::normalize(&kimi_payload(hook), None).unwrap().category
}

#[test]
fn maps_kimi_events() {
    assert_eq!(kimi_category("PreToolUse"), Category::ToolRunning);
    assert_eq!(kimi_category("PostToolUseFailure"), Category::ToolFinished);
    assert_eq!(kimi_category("SessionStart"), Category::SessionStarted);
    assert_eq!(kimi_category("Stop"), Category::TaskComplete);
}

#[test]
fn permission_request_is_observation_only() {
    // Kimi fires PermissionRequest just before the approval UI, but its
    // stdout is not read as a decision.
    let e = kimi::normalize(&kimi_payload("PermissionRequest"), None).unwrap();
    assert_eq!(e.category, Category::ApprovalRequired);
    assert!(e.pending_action_id.is_none());
    assert!(!kimi::is_decidable(&kimi_payload("PermissionRequest")));
}

// ---------------------------------------------------------------------------
// All adapters
// ---------------------------------------------------------------------------

#[test]
fn passes_through_real_uuids() {
    let id = "3f2504e0-4f89-11d3-9a0c-0305e82c3301";
    assert_eq!(ids::format(session_uuid("claude_code", id)), id);
}

#[test]
fn hashes_non_uuid_ids_stably() {
    let a = session_uuid("codex", "sess-42");
    let b = session_uuid("codex", "sess-42");
    assert_eq!(a, b);
    assert_ne!(a, session_uuid("gemini", "sess-42"));
}

#[test]
fn a_hashed_id_is_the_name_based_one() {
    let expected = uuid::Uuid::new_v5(&uuid::Uuid::NAMESPACE_URL, b"codex:sess-42");
    assert_eq!(session_uuid("codex", "sess-42"), expected.as_u128());
}

#[test]
fn every_registered_agent_normalizes_or_errors_cleanly() {
    // Unknown agents stay an error.
    assert!(adapters::normalize("nope", &j("{}"), None).is_err());
    // Registered agents reject payloads without an event name, rather
    // than panicking or accepting garbage.
    for agent in [
        "claude_code",
        "codex",
        "gemini",
        "cursor",
        "kimi",
        "qwen",
        "opencode",
        "pi",
    ] {
        let err = adapters::normalize(agent, &j(r#"{"session_id": "s"}"#), None);
        assert!(err.is_err(), "{agent} should reject an eventless payload");
    }
}

#[test]
fn adapter_errors_say_what_is_wrong() {
    let unknown = adapters::normalize("nope", &j("{}"), None).unwrap_err();
    assert_eq!(unknown.message(), "no adapter for agent `nope` yet");
    let nameless = adapters::normalize("codex", &j("{}"), None).unwrap_err();
    assert_eq!(nameless.message(), "payload has no hook_event_name");
    let odd = codex::normalize(&j(r#"{"hook_event_name": "PreCompact"}"#), None).unwrap_err();
    assert_eq!(odd.message(), "unhandled Codex hook event `PreCompact`");
    let odd = pi::normalize(&j(r#"{"hook_event_name": "PreCompact"}"#), None).unwrap_err();
    assert_eq!(odd.message(), "unhandled pi event `PreCompact`");
}

#[test]
fn a_decision_is_rendered_only_by_agents_that_read_one() {
    let payload = j(r#"{"hook_event_name": "PermissionRequest", "tool_input": {"a": 1}}"#);
    for agent in ["claude_code", "codex", "qwen"] {
        assert!(adapters::is_decidable(agent, &payload));
        let out = adapters::render_decision(agent, &payload, true).unwrap();
        assert_eq!(
            text_at(&out, &["hookSpecificOutput", "decision", "behavior"]),
            Some("allow")
        );
        let out = adapters::render_decision(agent, &payload, false).unwrap();
        assert_eq!(
            text_at(&out, &["hookSpecificOutput", "decision", "behavior"]),
            Some("deny")
        );
    }
    for agent in ["gemini", "cursor", "kimi", "opencode", "pi", "nope"] {
        assert!(!adapters::is_decidable(agent, &payload));
        assert!(adapters::render_decision(agent, &payload, true).is_none());
    }
}

#[test]
fn titles_follow_the_category() {
    assert_eq!(title_for(Category::ApprovalRequired, None, ""), "Approval required");
    assert_eq!(title_for(Category::ApprovalRequired, None, "a\nb"), "a");
    assert_eq!(title_for(Category::ApprovalRequired, Some("Bash"), "a\nb"), "Approve: Bash");
    assert_eq!(title_for(Category::ToolRunning, None, ""), "Running tool");
}

// ---------------------------------------------------------------------------
// OpenCode
// ---------------------------------------------------------------------------

fn opencode_payload(hook: &str) -> Json {
    j(&format!(
        r#"{{
            "hook_event_name": "{hook}",
            "session_id": "ses_abc",
            "cwd": "/proj",
            "tool_name": "bash"
        }}"#
    ))
}

fn opencode_category(hook: &str) -> Category {
    opencode::normalize(&opencode_payload(hook), None).unwrap().category
}

#[test]
fn maps_the_plugin_contract() {
    assert_eq!(opencode_category("session.created"), Category::SessionStarted);
    assert_eq!(opencode_category("session.idle"), Category::TaskComplete);
    assert_eq!(opencode_category("tool.execute.before"), Category::ToolRunning);
    assert_eq!(opencode_category("tool.execute.after"), Category::ToolFinished);
}

#[test]
fn permission_asked_is_an_observation_approval() {
    let p = j(r#"{
        "hook_event_name": "permission.v2.asked",
        "session_id": "ses_abc",
        "cwd": "/proj",
        "tool_name": "bash",
        "message": "Bash: npm publish"
    }"#);
    let e = opencode::normalize(&p, None).unwrap();
    assert_eq!(e.category, Category::ApprovalRequired);
    assert!(e.pending_action_id.is_none());
    assert!(!opencode::is_decidable(&p));
    assert_eq!(e.title, "Approve: bash");
}

#[test]
fn same_session_across_events() {
    let a = opencode::normalize(&opencode_payload("session.created"), None).unwrap();
    let b = opencode::normalize(&opencode_payload("session.idle"), None).unwrap();
    assert_eq!(a.session_id, b.session_id);
}

// ---------------------------------------------------------------------------
// pi
// ---------------------------------------------------------------------------

fn pi_payload(hook: &str) -> Json {
    j(&format!(r#"{{"hook_event_name": "{hook}", "session_id": "pi-sess-1", "cwd": "/proj"}}"#))
}

fn pi_category(hook: &str) -> Category {
    pi::normalize(&pi_payload(hook), None).unwrap().category
}

#[test]
fn maps_the_extension_contract() {
    assert_eq!(pi_category("session_start"), Category::SessionStarted);
    assert_eq!(pi_category("tool_execution_start"), Category::ToolRunning);
    assert_eq!(pi_category("tool_execution_end"), Category::ToolFinished);
    assert_eq!(pi_category("agent_end"), Category::TaskComplete);
}

#[test]
fn agent_start_titles_as_working() {
    let e = pi::normalize(&pi_payload("agent_start"), None).unwrap();
    assert_eq!(e.title, "Working");
    // Tool events title from the tool name.
    let p = j(r#"{
        "hook_event_name": "tool_execution_start",
        "session_id": "pi-sess-1",
        "cwd": "/proj",
        "tool_name": "bash"
    }"#);
    assert_eq!(pi::normalize(&p, None).unwrap().title, "Running bash");
}

#[test]
fn settled_carries_context_usage_into_remaining() {
    let p = j(r#"{
        "hook_event_name": "agent_settled",
        "session_id": "pi-sess-1",
        "cwd": "/proj",
        "context_usage": 0.7
    }"#);
    let e = pi::normalize(&p, remaining(&p)).unwrap();
    assert_eq!(e.context_remaining.map(f32::from_bits), Some(0.3));
    // Absent usage leaves it None.
    let p = pi_payload("agent_settled");
    assert_eq!(pi::normalize(&p, remaining(&p)).unwrap().context_remaining, None);
}

#[test]
fn same_session_across_events_and_never_decidable() {
    let a = pi::normalize(&pi_payload("session_start"), None).unwrap();
    let b = pi::normalize(&pi_payload("agent_settled"), None).unwrap();
    assert_eq!(a.session_id, b.session_id);
    assert!(!pi::is_decidable(&pi_payload("agent_end")));
}

// ---------------------------------------------------------------------------
// Qwen
// ---------------------------------------------------------------------------

fn qwen_payload(hook: &str) -> Json {
    j(&format!(r#"{{"session_id": "s1", "cwd": "/proj", "hook_event_name": "{hook}"}}"#))
}

#[test]
fn maps_events_and_parks_permission_requests() {
    assert_eq!(
        qwen::normalize(&qwen_payload("PreToolUse"), None).unwrap().category,
        Category::ToolRunning
    );
    assert_eq!(
        qwen::normalize(&qwen_payload("PostToolUseFailure"), None).unwrap().category,
        Category::ToolFinished
    );
    let approval = qwen::normalize(&qwen_payload("PermissionRequest"), None).unwrap();
    assert_eq!(approval.category, Category::ApprovalRequired);
    assert!(approval.pending_action_id.is_some());
    // Notification looks the same but is observation-only.
    assert!(qwen::is_decidable(&qwen_payload("PermissionRequest")));
    assert!(!qwen::is_decidable(&qwen_payload("Notification")));
}

#[test]
fn stop_fills_context_remaining_from_context_usage() {
    let p = j(r#"{"session_id": "s1", "hook_event_name": "Stop", "context_usage": 0.82}"#);
    let e = qwen::normalize(&p, remaining(&p)).unwrap();
    assert_eq!(e.category, Category::TaskComplete);
    assert_eq!(e.context_remaining.map(f32::from_bits), Some(0.18));

    // Absent or nonsense usage leaves the field None.
    let p = qwen_payload("Stop");
    assert_eq!(qwen::normalize(&p, remaining(&p)).unwrap().context_remaining, None);
    let p = j(r#"{"session_id": "s1", "hook_event_name": "Stop", "context_usage": "nope"}"#);
    assert_eq!(qwen::normalize(&p, remaining(&p)).unwrap().context_remaining, None);
}

#[test]
fn allow_echoes_tool_input() {
    let p = j(r#"{
        "hook_event_name": "PermissionRequest",
        "tool_input": { "command": "make test" }
    }"#);
    let out = qwen::render_decision(&p, true);
    assert_eq!(
        text_at(&out, &["hookSpecificOutput", "decision", "behavior"]),
        Some("allow")
    );
    assert_eq!(
        text_at(&out, &["hookSpecificOutput", "decision", "updatedInput", "command"]),
        Some("make test")
    );
}
