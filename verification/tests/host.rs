use sailor_hook::config::{targets_for, Agent};
use sailor_hook::context::{detect, parse_tmux_session, Env, Kind};
use sailor_hook::gateway::{
    authorized, bind_refusal, constant_time_eq, diff_scopes, repo_or_cwd, unauthorized,
};
use sailor_hook::herdr::{extra_path, parse_agent_list, AgentState};
use sailor_hook::hostid;
use sailor_hook::ids;
use sailor_hook::ipc::{is_not_listening, is_stale, socket_path, ConnectFailure};
use sailor_hook::json;
use sailor_hook::paths::{config_dir, join_path, state_dir, DirError};
use sailor_hook::secret::{
    ensure_gateway_token, file_path, gateway_file_path, gateway_token_with, load_pairing_token,
    reads_keychain, stored_token, Backend,
};
use sailor_hook::toml_tree;

#[test]
fn config_parse_roundtrip() {
    for a in Agent::all() {
        assert_eq!(Agent::parse(a.id()), Some(a));
    }
    assert_eq!(Agent::parse("bogus"), None);
}

#[test]
fn an_agent_goes_by_its_first_word_too() {
    let short = "claude_code".split('_').next().unwrap();
    assert_eq!(Agent::parse(short), Some(Agent::ClaudeCode));
    assert_eq!(Agent::parse("claude_"), None);
}

#[test]
fn targets_lie_below_home() {
    let all = targets_for(None, Some("/h")).unwrap();
    assert_eq!(all.len(), 8);
    assert!(all.iter().all(|t| t.path.starts_with("/h/.")));
    let one = targets_for(Some("kimi"), Some("/h")).unwrap();
    assert_eq!(one.len(), 1);
    assert_eq!(one[0].path, "/h/.kimi-code/config.toml");
    assert_eq!(
        targets_for(Some("bogus"), Some("/h")).unwrap_err().message(),
        "unknown agent: bogus"
    );
    assert_eq!(targets_for(None, None).unwrap_err().message(), "could not resolve $HOME");
}

// ---------------------------------------------------------------------------
// Contexts
// ---------------------------------------------------------------------------

#[test]
fn tmux_env_parsing() {
    assert_eq!(parse_tmux_session("/tmp/tmux-501/default,1234,0"), Some("0".into()));
    assert_eq!(parse_tmux_session("only,one"), None);
}

#[test]
fn kind_str() {
    assert_eq!(Kind::Herdr.as_str(), "herdr");
    assert_eq!(Kind::Bare.as_str(), "none");
}

fn bare() -> Env {
    Env {
        herdr_env: None,
        herdr_session: None,
        herdr_workspace: None,
        zellij: None,
        zellij_session_name: None,
        zellij_pane_id: None,
        tmux: None,
        tmux_pane: None,
        cwd: Some("/p".into()),
    }
}

#[test]
fn an_inner_multiplexer_is_told_by_its_variables() {
    let c = detect(&bare());
    assert_eq!(c.kind, Kind::Bare);
    assert_eq!(c.cwd.as_deref(), Some("/p"));
    let c = detect(&Env { tmux: Some("".into()), ..bare() });
    assert_eq!(c.kind, Kind::Bare);
    let c = detect(&Env {
        zellij: Some("0".into()),
        zellij_session_name: Some("z".into()),
        zellij_pane_id: Some("3".into()),
        ..bare()
    });
    assert_eq!((c.kind, c.session.as_deref(), c.pane.as_deref()), (Kind::Zellij, Some("z"), Some("3")));
    let c = detect(&Env {
        herdr_env: Some("1".into()),
        herdr_session: Some("gami".into()),
        tmux: Some("/t,1,0".into()),
        ..bare()
    });
    assert_eq!((c.kind, c.session.as_deref()), (Kind::Herdr, Some("gami")));
}

// ---------------------------------------------------------------------------
// Herdr
// ---------------------------------------------------------------------------

#[test]
fn parses_real_agent_list_shape() {
    let output = r#"{"id":"cli:agent:list","result":{"agents":[
        {"agent":"codex","pane_id":"w1:p1","agent_status":"blocked"},
        {"agent":"pi","pane_id":"w7:pJ","agent_status":"working"},
        {"agent":"pi","pane_id":"w7:pF","agent_status":"idle"},
        {"agent":"pi","pane_id":"w5:p4","agent_status":"done"}
    ]}}"#;
    let states = parse_agent_list(output);
    assert_eq!(states.get("w1:p1"), Some(AgentState::Blocked));
    assert_eq!(states.get("w7:pJ"), Some(AgentState::Working));
    assert_eq!(states.get("w7:pF"), Some(AgentState::Idle));
    assert_eq!(states.get("w5:p4"), Some(AgentState::Done));
    assert_eq!(states.len(), 4);
}

#[test]
fn tolerates_a_bare_array_and_unknown_states() {
    let output = r#"[
        {"pane_id":"w1:p1","agent_status":"working"},
        {"pane_id":"w1:p2","agent_status":"something-else"},
        {"pane_id":"w1:p3","agent_status":"done"},
        {"pane_id":"w1:p4"}
    ]"#;
    let states = parse_agent_list(output);
    assert_eq!(states.get("w1:p1"), Some(AgentState::Working));
    // Unknown state and missing state are both skipped.
    assert_eq!(states.len(), 2);
}

#[test]
fn garbage_and_missing_fields_degrade_to_empty() {
    assert!(parse_agent_list("not json").is_empty());
    assert!(parse_agent_list("[]").is_empty());
    assert!(parse_agent_list(r#"{"result":{}}"#).is_empty());
    assert!(parse_agent_list(r#"{"result":{"agents":[{}]}}"#).is_empty());
}

#[test]
fn herdr_parse_roundtrip() {
    for s in ["blocked", "working", "done", "idle"] {
        let st = AgentState::parse(s).unwrap();
        assert_eq!(st.as_str(), s);
    }
    assert!(AgentState::parse("hung").is_none());
}

#[test]
fn the_search_path_is_widened_in_front() {
    assert!(extra_path(Some("/x")).ends_with(":/x"));
    assert!(!extra_path(None).ends_with(':'));
}

// ---------------------------------------------------------------------------
// The gateway
// ---------------------------------------------------------------------------

#[test]
fn constant_time_eq_matches_only_identical_values() {
    assert!(constant_time_eq(b"abc123", b"abc123"));
    assert!(!constant_time_eq(b"abc123", b"abc124"));
    // A correct prefix must not compare equal — that is the whole point.
    assert!(!constant_time_eq(b"abc", b"abc123"));
    assert!(!constant_time_eq(b"", b"abc"));
}

#[test]
fn a_token_lets_in_only_who_presents_it() {
    assert!(authorized(None, None));
    assert!(authorized(Some("t"), Some("Bearer t")));
    assert!(!authorized(Some("t"), Some("bearer t")));
    assert!(!authorized(Some("t"), Some("t")));
    assert!(!authorized(Some("t"), Some("Bearer tt")));
    assert!(!authorized(Some("t"), None));
    let r = unauthorized();
    assert_eq!((r.status, r.body), (401, "unauthorized"));
    assert_eq!(
        bind_refusal("10.0.0.2", false, false),
        Some("refusing to bind 10.0.0.2 without a gateway token".into())
    );
    assert_eq!(bind_refusal("10.0.0.2", false, true), None);
    assert_eq!(bind_refusal("127.0.0.1", true, false), None);
}

#[test]
fn naming_a_scope_selects_it_exclusively() {
    assert_eq!(diff_scopes(None, None, None), (true, true, true));
    assert_eq!(diff_scopes(Some(true), None, None), (true, false, false));
    assert_eq!(diff_scopes(None, Some(false), None), (false, false, false));
    assert_eq!(repo_or_cwd(Some("/r"), Some("/c")), "/r");
    assert_eq!(repo_or_cwd(None, Some("/c")), "/c");
    assert_eq!(repo_or_cwd(None, None), ".");
}

// ---------------------------------------------------------------------------
// Places, secrets and identifiers
// ---------------------------------------------------------------------------

#[test]
fn overrides_win_where_they_are_set() {
    assert_eq!(state_dir(Some("/s"), Some("/h")).unwrap(), "/s");
    assert_eq!(state_dir(Some(""), Some("/h")).unwrap(), "/h/.sailor");
    assert_eq!(state_dir(None, None).unwrap_err(), DirError::NoHome);
    assert_eq!(config_dir(Some("/c"), None).unwrap(), "/c");
    assert_eq!(config_dir(None, Some("/h/.config")).unwrap(), "/h/.config/sailor");
    assert_eq!(config_dir(None, None).unwrap_err(), DirError::NoConfigDir);
    assert_eq!(join_path("/a/", "b"), "/a/b");
    assert_eq!(join_path("/a", "/b"), "/b");
    assert_eq!(join_path("", "b"), "b");
    assert_eq!(socket_path(Some("/x.sock"), Some("/s"), None).unwrap(), "/x.sock");
    assert_eq!(socket_path(None, Some("/s"), None).unwrap(), "/s/hook.sock");
}

#[test]
fn a_missing_daemon_is_no_failure() {
    assert!(is_not_listening(ConnectFailure::NotFound));
    assert!(is_not_listening(ConnectFailure::Refused));
    assert!(!is_not_listening(ConnectFailure::Other));
    assert!(is_stale(true, false));
    assert!(!is_stale(true, true) && !is_stale(false, false));
}

#[test]
fn creates_then_reuses() {
    let first = hostid::load_or_create(None);
    assert!(first.fresh);
    assert!(uuid::Uuid::parse_str(&first.text).is_ok());
    let again = hostid::load_or_create(Some(&first.text));
    assert_eq!(again.text, first.text);
    assert!(!again.fresh);
}

#[test]
fn regenerates_when_blank() {
    let id = hostid::load_or_create(Some("  \n"));
    assert!(id.fresh);
    assert!(uuid::Uuid::parse_str(&id.text).is_ok());
}

#[test]
fn secrets_have_their_places() {
    assert_eq!(Backend::parse("keychain"), Some(Backend::Keychain));
    assert_eq!(Backend::parse("file"), Some(Backend::File));
    assert_eq!(Backend::parse("cloud"), None);
    assert!(file_path(Some("/c"), None).unwrap().starts_with("/c/"));
    assert!(gateway_file_path(None, Some("/h/.config")).unwrap().starts_with("/h/.config/sailor/"));
    assert!(!reads_keychain(Some("/c")));
    assert!(reads_keychain(None));
    assert_eq!(stored_token(Some(" t \n")), Some("t".into()));
    assert_eq!(stored_token(Some(" \n")), None);
}

#[test]
fn a_scratch_daemon_starts_unpaired() {
    assert!(load_pairing_token(Some("/c"), Some("k"), None).is_none());
    assert_eq!(load_pairing_token(None, Some("k"), None), Some("k".into()));
}

#[test]
fn the_gateway_token_is_made_once() {
    let first = ensure_gateway_token(None);
    assert!(first.fresh);
    assert_eq!(first.text.len(), 32);
    let again = ensure_gateway_token(Some(&first.text));
    assert!(!again.fresh);
    assert_eq!(again.text, first.text);
    assert_eq!(
        gateway_token_with(None, 0xff).text,
        "000000000000000000000000000000ff"
    );
}

#[test]
fn identifiers_are_written_and_read() {
    let text = "3f2504e0-4f89-11d3-9a0c-0305e82c3301";
    let id = ids::parse(text).unwrap();
    assert_eq!(id, uuid::Uuid::parse_str(text).unwrap().as_u128());
    assert_eq!(ids::format(id), text);
    assert_eq!(ids::parse("not-a-uuid"), None);
    assert_eq!(ids::parse("3F2504E04F8911D39A0C0305E82C3301"), Some(id));
}

#[test]
fn documents_are_read_and_written() {
    let text = r#"{"b":[1,-2,1.5,true,null],"a":{"x":"é\n"}}"#;
    let doc = json::parse(text).unwrap();
    assert_eq!(json::render(&doc), r#"{"a":{"x":"é\n"},"b":[1,-2,1.5,true,null]}"#);
    assert_eq!(
        json::render_pretty(&json::parse("[1]").unwrap()).unwrap(),
        "[\n  1\n]"
    );
    assert_eq!(json::parse("{").unwrap_err(), "EOF while parsing an object at line 1 column 1");
    assert_eq!(json::copy(&doc), doc);
    let doc = toml_tree::parse("a = 1\n[b]\nc = [true, \"x\"]\n").unwrap();
    let text = toml_tree::render_pretty(&doc).unwrap();
    assert_eq!(toml_tree::render_pretty(&toml_tree::parse(&text).unwrap()).unwrap(), text);
    assert!(text.contains("a = 1"));
    assert!(toml_tree::parse("= 1").is_err());
}
