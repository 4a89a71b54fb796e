use sailor_hook::commands::install::{
    self, claude_hooks, codex_hooks, command_for, cursor_hooks, gemini_hooks, has_sailor_hook,
    install_claude_hooks, install_cursor_hooks, install_nested_hooks, installed_for_agent, kimi,
    kimi_hooks, ms_timeout, opencode, pi, qwen_hooks, read_settings, seconds_timeout,
    strip_cursor_hooks, strip_sailor_hooks, waits_for_a_decision, write_settings, FileStep,
    APPROVAL_TIMEOUT_SECS, APPROVAL_WAIT_SECS, GEMINI_REPORT_TIMEOUT_MS, QWEN_APPROVAL_TIMEOUT_MS,
    QWEN_REPORT_TIMEOUT_MS, REPORT_TIMEOUT_SECS,
};
use sailor_hook::commands::uninstall;
use sailor_hook::config::{Agent, Target};
use sailor_hook::hooks::MARKER;
use sailor_hook::json::{self, Json, Scalar};
use sailor_hook::toml_tree;
use sailor_hook::tree::Node;

const EXE: &str = "/usr/local/bin/sailor-hook";

fn j(text: &str) -> Json {
    json::parse(text).unwrap()
}

/// Steps into a document: by key, or by position where the key is a number.
fn at<'a>(value: &'a Json, path: &[&str]) -> Option<&'a Json> {
    let mut here = value;
    for key in path {
        here = match here {
            Node::Array(list) => list.get(key.parse::<usize>().ok()?)?,
            _ => here.get(key)?,
        };
    }
    Some(here)
}

fn number_at(value: &Json, path: &[&str]) -> Option<u64> {
    match at(value, path) {
        Some(Node::Leaf(Scalar::Number(n))) => n.as_u64(),
        _ => None,
    }
}

fn len_at(value: &Json, path: &[&str]) -> Option<usize> {
    match at(value, path) {
        Some(Node::Array(list)) => Some(list.len()),
        _ => None,
    }
}

fn text_at<'a>(value: &'a Json, path: &[&str]) -> Option<&'a str> {
    at(value, path).and_then(|v| v.as_str())
}

fn push_at(value: &mut Json, event: &str, item: Json) {
    let Node::Table(top) = value else { panic!("no table") };
    let hooks = top.iter_mut().find(|e| e.0 == "hooks").unwrap();
    let Node::Table(events) = &mut hooks.1 else { panic!("no table") };
    let list = events.iter_mut().find(|e| e.0 == event).unwrap();
    let Node::Array(items) = &mut list.1 else { panic!("no array") };
    items.push(item);
}

fn foreign_settings() -> Json {
    j(r#"{
        "editorMode": "vim",
        "hooks": {
            "PostToolUse": [{
                "matcher": "*",
                "hooks": [{ "type": "command", "command": "/other/tool.sh", "timeout": 10 }]
            }]
        }
    }"#)
}

#[test]
fn installs_every_subscribed_event() {
    let mut settings = j("{}");
    assert_eq!(install_claude_hooks(&mut settings, EXE), claude_hooks().len());
    for (event, _) in claude_hooks() {
        assert!(at(&settings, &["hooks", event]).is_some(), "missing {event}");
    }
    assert!(has_sailor_hook(&settings));
}

#[test]
fn is_idempotent() {
    let mut settings = j("{}");
    install_claude_hooks(&mut settings, EXE);
    let once = json::copy(&settings);
    install_claude_hooks(&mut settings, EXE);
    assert_eq!(settings, once);
}

#[test]
fn leaves_other_tools_hooks_and_settings_alone() {
    let mut settings = foreign_settings();
    install_claude_hooks(&mut settings, EXE);
    // The foreign PostToolUse hook is still there alongside ours.
    assert_eq!(len_at(&settings, &["hooks", "PostToolUse"]), Some(2));
    strip_sailor_hooks(&mut settings);
    assert_eq!(settings, foreign_settings());
}

#[test]
fn uninstall_reports_what_it_removed_and_prunes_empties() {
    let mut settings = j("{}");
    install_claude_hooks(&mut settings, EXE);
    assert_eq!(strip_sailor_hooks(&mut settings), claude_hooks().len());
    // Nothing else lived there, so the whole `hooks` key goes.
    assert!(settings.get("hooks").is_none());
    assert!(!has_sailor_hook(&settings));
}

#[test]
fn stripping_a_file_we_never_touched_is_a_no_op() {
    let mut settings = foreign_settings();
    assert_eq!(strip_sailor_hooks(&mut settings), 0);
    assert_eq!(settings, foreign_settings());
}

#[test]
fn command_falls_back_to_draining_stdin() {
    let cmd = command_for(EXE, "claude_code", false);
    assert!(cmd.contains(MARKER));
    assert!(cmd.contains("cat >/dev/null"));
}

#[test]
fn only_permission_request_waits_and_its_hook_outlives_the_wait() {
    let mut settings = j("{}");
    install_claude_hooks(&mut settings, EXE);

    let permission = at(&settings, &["hooks", "PermissionRequest", "0", "hooks", "0"]).unwrap();
    assert!(permission
        .get_str("command")
        .unwrap()
        .contains(&format!("--wait-secs {APPROVAL_WAIT_SECS}")));
    // The agent must not kill the shim before it can print its fallback.
    assert_eq!(number_at(permission, &["timeout"]), Some(APPROVAL_TIMEOUT_SECS));

    for event in [
        "SessionStart",
        "PreToolUse",
        "PostToolUse",
        "Notification",
        "Stop",
    ] {
        let hook = at(&settings, &["hooks", event, "0", "hooks", "0"]).unwrap();
        assert!(
            !hook.get_str("command").unwrap().contains("--wait-secs"),
            "{event} should not park the agent"
        );
        assert_eq!(number_at(hook, &["timeout"]), Some(REPORT_TIMEOUT_SECS), "{event}");
    }
}

#[test]
fn codex_parks_permission_request_like_claude() {
    let mut settings = j("{}");
    install_nested_hooks(&mut settings, EXE, "codex", &codex_hooks(), seconds_timeout(), None);
    for event in [
        "SessionStart",
        "PreToolUse",
        "PostToolUse",
        "SubagentStop",
        "Stop",
    ] {
        assert!(at(&settings, &["hooks", event]).is_some(), "missing {event}");
    }
    let permission = at(&settings, &["hooks", "PermissionRequest", "0", "hooks", "0"]).unwrap();
    assert!(permission.get_str("command").unwrap().contains("--wait-secs"));
    assert_eq!(number_at(permission, &["timeout"]), Some(APPROVAL_TIMEOUT_SECS));
    assert_eq!(
        number_at(&settings, &["hooks", "PreToolUse", "0", "hooks", "0", "timeout"]),
        Some(REPORT_TIMEOUT_SECS)
    );
}

#[test]
fn qwen_parks_with_millisecond_timeouts() {
    let mut settings = j("{}");
    install_nested_hooks(
        &mut settings,
        EXE,
        "qwen",
        &qwen_hooks(),
        ms_timeout(QWEN_REPORT_TIMEOUT_MS),
        None,
    );
    assert_eq!(
        number_at(&settings, &["hooks", "PermissionRequest", "0", "hooks", "0", "timeout"]),
        Some(QWEN_APPROVAL_TIMEOUT_MS)
    );
    assert_eq!(
        number_at(&settings, &["hooks", "PreToolUse", "0", "hooks", "0", "timeout"]),
        Some(QWEN_REPORT_TIMEOUT_MS)
    );
}

#[test]
fn gemini_hooks_carry_names_and_ms_timeouts() {
    let mut settings = j("{}");
    install_nested_hooks(
        &mut settings,
        EXE,
        "gemini",
        &gemini_hooks(),
        ms_timeout(GEMINI_REPORT_TIMEOUT_MS),
        Some("sailor-hook"),
    );
    for event in [
        "SessionStart",
        "BeforeTool",
        "AfterTool",
        "Notification",
        "SessionEnd",
    ] {
        assert!(at(&settings, &["hooks", event]).is_some(), "missing {event}");
    }
    let hook = at(&settings, &["hooks", "BeforeTool", "0", "hooks", "0"]).unwrap();
    assert_eq!(hook.get_str("name"), Some("sailor-hook"));
    assert_eq!(number_at(hook, &["timeout"]), Some(GEMINI_REPORT_TIMEOUT_MS));
    // Nothing decidable: no hook may wait.
    assert!(!json::render(&settings).contains("--wait-secs"));
}

#[test]
fn cursor_uses_the_flat_shape() {
    let mut settings = j(r#"{"version": 1}"#);
    assert_eq!(install_cursor_hooks(&mut settings, EXE), cursor_hooks().len());
    for event in ["sessionStart", "preToolUse", "postToolUse", "stop"] {
        assert!(at(&settings, &["hooks", event]).is_some(), "missing {event}");
    }
    // Flat: the array holds the definition directly, no nested `hooks`.
    let entry = at(&settings, &["hooks", "preToolUse", "0"]).unwrap();
    assert!(entry.get_str("command").is_some());
    assert!(entry.get("hooks").is_none());
    assert_eq!(number_at(entry, &["timeout"]), Some(REPORT_TIMEOUT_SECS));

    // Strip is flat-aware too and leaves foreign entries alone.
    push_at(&mut settings, "preToolUse", j(r#"{"command": "/other/tool.sh"}"#));
    assert_eq!(strip_cursor_hooks(&mut settings), cursor_hooks().len());
    assert_eq!(len_at(&settings, &["hooks", "preToolUse"]), Some(1));
}

#[test]
fn cursor_install_is_idempotent() {
    let mut settings = j("{}");
    install_cursor_hooks(&mut settings, EXE);
    let once = json::copy(&settings);
    install_cursor_hooks(&mut settings, EXE);
    assert_eq!(settings, once);
}

#[test]
fn cursor_settings_come_back_as_they_were() {
    for before in ["{}", r#"{"version":1}"#, r#"{"version":2}"#, r#"{"editor":"vim"}"#, r#"{"hooks":5}"#] {
        let mut settings = j(before);
        let added = install_cursor_hooks(&mut settings, EXE);
        assert_eq!(added, if before.contains("hooks") { 0 } else { cursor_hooks().len() });
        assert_eq!(at(&settings, &["version"]).is_some(), added > 0);
        assert_eq!(strip_cursor_hooks(&mut settings), added);
        assert_eq!(json::render(&settings), before);
    }
    // A version that the user has changed since is theirs.
    let mut settings = j("{}");
    install_cursor_hooks(&mut settings, EXE);
    let Some(Node::Array(first)) = at(&settings, &["hooks", "sessionStart"]) else {
        panic!("no hooks")
    };
    assert!(text_at(&first[0], &["command"]).unwrap().ends_with(MARKER));
    assert_eq!(number_at(&settings, &["version"]), Some(1));
    let Node::Table(root) = &mut settings else { panic!("no table") };
    for (key, value) in root.iter_mut() {
        if key == "version" {
            *value = json::number(2);
        }
    }
    strip_cursor_hooks(&mut settings);
    assert_eq!(json::render(&settings), r#"{"version":2}"#);
}

#[test]
fn missing_and_empty_files_read_as_empty_objects() {
    let path = "/tmp/settings.json";
    assert_eq!(read_settings(None, path).unwrap(), j("{}"));
    assert_eq!(read_settings(Some("  \n"), path).unwrap(), j("{}"));
    let err = read_settings(Some("{ not json"), path).unwrap_err();
    assert!(err.contains(path));
}

#[test]
fn write_backs_up_the_previous_file() {
    assert!(write_settings(&j(r#"{"editorMode": "emacs"}"#)).unwrap().contains("emacs"));
    // The file that was there is kept beside the new one.
    let target = Target { agent: Agent::ClaudeCode, path: "/home/u/settings.json".into() };
    let plan = install::run(&target, Some(r#"{"editorMode":"vim"}"#), EXE).unwrap();
    match plan.step {
        FileStep::Write { text, backup } => {
            assert!(text.contains("vim"));
            assert!(text.contains(MARKER));
            assert_eq!(backup, Some("json.bak"));
        }
        other => panic!("{other:?}"),
    }
}

#[test]
fn settings_are_written_indented_with_a_final_newline() {
    assert_eq!(
        write_settings(&j(r#"{"b": [1], "a": "x"}"#)).unwrap(),
        "{\n  \"a\": \"x\",\n  \"b\": [\n    1\n  ]\n}\n"
    );
}

#[test]
fn nested_strip_handles_foreign_entries_inside_our_event_groups() {
    let mut settings = j("{}");
    install_claude_hooks(&mut settings, EXE);
    // A foreign hook shares an event group with ours.
    push_at(
        &mut settings,
        "PreToolUse",
        j(r#"{"matcher": "*", "hooks": [{"type": "command", "command": "/other/tool.sh"}]}"#),
    );
    strip_sailor_hooks(&mut settings);
    // Our entry is gone, the foreign one survives.
    assert_eq!(len_at(&settings, &["hooks", "PreToolUse"]), Some(1));
    assert!(text_at(&settings, &["hooks", "PreToolUse", "0", "hooks", "0", "command"])
        .unwrap()
        .contains("/other/tool.sh"));
}

#[test]
fn installed_agents_detects_every_format() {
    let mut settings = j("{}");
    install_nested_hooks(&mut settings, EXE, "codex", &codex_hooks(), seconds_timeout(), None);
    assert!(installed_for_agent(Agent::Codex, Some(&json::render(&settings))));

    let mut cursor = j("{}");
    install_cursor_hooks(&mut cursor, EXE);
    assert!(installed_for_agent(Agent::Cursor, Some(&json::render(&cursor))));

    let mut value = kimi::read_toml(None, "/tmp/config.toml").unwrap();
    kimi::install_hooks(&mut value, EXE);
    let written = kimi::write_toml(&value).unwrap();
    assert!(installed_for_agent(Agent::Kimi, Some(&written)));

    let plugin = opencode::install_plugin(None).unwrap();
    assert!(installed_for_agent(Agent::OpenCode, Some(&plugin)));
    let target = Target { agent: Agent::OpenCode, path: "/tmp/sailor-hooks.ts".into() };
    let plan = uninstall::run(&target, Some(&plugin)).unwrap();
    assert_eq!(plan.step, FileStep::Remove);
    assert!(!installed_for_agent(Agent::OpenCode, None));

    assert_eq!(
        install::installed_agents(&vec![
            (Agent::ClaudeCode, None),
            (Agent::Codex, Some(json::render(&settings))),
            (Agent::Cursor, Some("{}".into())),
            (Agent::Kimi, Some(written)),
            (Agent::OpenCode, Some(plugin)),
            (Agent::Pi, Some(pi::extension())),
        ]),
        vec!["codex", "kimi", "opencode", "pi"]
    );
}

// ---------------------------------------------------------------------------
// Kimi
// ---------------------------------------------------------------------------

#[test]
fn installs_and_strips_idempotently() {
    let mut value = kimi::read_toml(None, "/nonexistent").unwrap();
    assert_eq!(kimi::install_hooks(&mut value, EXE), kimi_hooks().len());
    let once = kimi::write_toml(&value).unwrap();
    kimi::install_hooks(&mut value, EXE);
    assert_eq!(kimi::write_toml(&value).unwrap(), once);
    assert!(kimi::is_installed_in(&value));

    assert_eq!(kimi::strip_hooks(&mut value), kimi_hooks().len());
    assert!(!kimi::is_installed_in(&value));
    assert!(value.get("hooks").is_none());
}

#[test]
fn leaves_other_toml_keys_alone() {
    let mut value = toml_tree::parse(
        r#"
model = "kimi-k2"
[ui]
theme = "dark"
"#,
    )
    .unwrap();
    kimi::install_hooks(&mut value, EXE);
    assert_eq!(value.get_str("model"), Some("kimi-k2"));
    assert_eq!(value.get("ui").unwrap().get_str("theme"), Some("dark"));
    assert!(matches!(value.get("hooks"), Some(Node::Array(_))));

    kimi::strip_hooks(&mut value);
    assert!(value.get("hooks").is_none());
    assert_eq!(value.get_str("model"), Some("kimi-k2"));
}

#[test]
fn kimi_files_are_read_back_as_they_were_written() {
    let mut value = toml_tree::parse("a = 1\nb = [true, 1.5, 1979-05-27]\n").unwrap();
    kimi::install_hooks(&mut value, EXE);
    let written = kimi::write_toml(&value).unwrap();
    let read = kimi::read_toml(Some(&written), "/tmp/config.toml").unwrap();
    assert_eq!(kimi::write_toml(&read).unwrap(), written);
    assert!(kimi::is_installed(Some(&written)));
    assert!(!kimi::is_installed(Some("= broken")));
    assert!(!kimi::is_installed(None));
    let err = kimi::read_toml(Some("= broken"), "/tmp/config.toml").unwrap_err();
    assert!(err.contains("/tmp/config.toml"));
}

// ---------------------------------------------------------------------------
// The laws on concrete values, and the edges
// ---------------------------------------------------------------------------

#[test]
fn the_command_is_spelled_out() {
    assert_eq!(
        command_for("/bin/sailor-hook", "codex", true),
        "if [ -x '/bin/sailor-hook' ]; then '/bin/sailor-hook' event --agent codex --wait-secs 240; else cat >/dev/null 2>&1 || :; fi # sailor-hook"
    );
}

#[test]
fn only_agents_that_read_an_answer_are_parked() {
    for agent in ["claude_code", "codex", "qwen"] {
        assert!(waits_for_a_decision(agent, "PermissionRequest"));
        assert!(!waits_for_a_decision(agent, "Notification"));
    }
    for agent in ["gemini", "cursor", "kimi", "opencode", "pi"] {
        assert!(!waits_for_a_decision(agent, "PermissionRequest"));
    }
}

#[test]
fn installing_over_settings_that_cannot_hold_hooks_writes_none() {
    let mut settings = j("[1, 2]");
    assert_eq!(install_claude_hooks(&mut settings, EXE), 0);
    assert_eq!(settings, j("[1, 2]"));
    let mut settings = j(r#"{"hooks": 3}"#);
    assert_eq!(install_claude_hooks(&mut settings, EXE), 0);
    assert_eq!(settings, j(r#"{"hooks": 3}"#));
}

#[test]
fn installing_for_another_path_replaces_our_hooks() {
    let mut settings = j("{}");
    install_claude_hooks(&mut settings, "/old/sailor-hook");
    install_claude_hooks(&mut settings, EXE);
    let text = json::render(&settings);
    assert!(!text.contains("/old/"));
    assert_eq!(strip_sailor_hooks(&mut settings), claude_hooks().len());
}

#[test]
fn a_plugin_that_is_current_is_left_alone() {
    let plugin = opencode::install_plugin(None).unwrap();
    assert!(plugin.starts_with(opencode::PLUGIN_MARKER));
    assert!(opencode::install_plugin(Some(&plugin)).is_none());
    // One that carries our marker but makes another call is replaced.
    assert!(opencode::install_plugin(Some(opencode::PLUGIN_MARKER)).is_some());
    assert!(opencode::is_installed(Some(opencode::PLUGIN_MARKER)));
    assert!(!opencode::is_installed(Some("export default {}")));

    let extension = pi::install_extension(None).unwrap();
    assert!(pi::install_extension(Some(&extension)).is_none());
    assert!(pi::install_extension(Some("export default {}")).is_some());
    // One of ours from another day is brought up to date.
    let stale = format!("// {}", pi::EXTENSION_MARKER);
    assert!(pi::is_installed(Some(&stale)));
    assert_eq!(pi::install_extension(Some(&stale)), Some(extension.clone()));
    let target = Target { agent: Agent::Pi, path: "/tmp/sailor.ts".into() };
    let plan = install::run(&target, Some(&stale), EXE).unwrap();
    assert_eq!(plan.step, FileStep::Write { text: extension, backup: None });
}

#[test]
fn uninstall_leaves_a_foreign_file_alone() {
    for (agent, raw) in [
        (Agent::ClaudeCode, r#"{"hooks": {"Stop": []}}"#),
        (Agent::Cursor, r#"{"version": 1}"#),
        (Agent::Kimi, "model = \"kimi-k2\"\n"),
        (Agent::OpenCode, "export default {}"),
        (Agent::Pi, "export default {}"),
    ] {
        let target = Target { agent, path: "/tmp/f".into() };
        let plan = uninstall::run(&target, Some(raw)).unwrap();
        assert_eq!(plan.step, FileStep::Leave, "{agent:?}");
        let plan = uninstall::run(&target, None).unwrap();
        assert_eq!(plan.step, FileStep::Leave, "{agent:?}");
    }
}

#[test]
fn uninstall_undoes_install() {
    let before = "{\n  \"editorMode\": \"vim\"\n}\n";
    let target = Target { agent: Agent::Qwen, path: "/tmp/settings.json".into() };
    let installed = match install::run(&target, Some(before), EXE).unwrap().step {
        FileStep::Write { text, .. } => text,
        other => panic!("{other:?}"),
    };
    match uninstall::run(&target, Some(&installed)).unwrap().step {
        FileStep::Write { text, .. } => assert_eq!(text, before),
        other => panic!("{other:?}"),
    }
}

#[test]
fn settings_are_read_back_up_to_the_depth_that_is_read() {
    let nested = |depth: usize| format!("{}{}", "[".repeat(depth), "]".repeat(depth));
    let deepest = json::parse(&nested(127)).unwrap();
    let written = format!("{}\n", json::render_pretty(&deepest).unwrap());
    assert_eq!(json::render(&json::parse(&written).unwrap()), nested(127));
    assert!(json::parse(&nested(128)).is_err());
}
