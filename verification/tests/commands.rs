use sailor_hook::cli::approval_flag;
use sailor_hook::commands::cwd_list::{
    claude_project_dir, claude_settings, codex_sessions, encode_claude_project_dir, extract_cwd,
    merge_recent, parse_claude_projects, session_cwd, RecentCwd,
};
use sailor_hook::commands::easy_pair::{
    advance, gateway_args, gateway_log_path, hostname, inbox_args, no_connect_message,
    host_plan, pairing_code, pairing_uri, parse_connect_line, percent_encode, picked, report,
    shell_args, Choice, HostPlan, Pairing, Seen, Stage, TRIES,
};
use sailor_hook::commands::inbox::{answer, input_line, request};
use sailor_hook::commands::mux_list::{agent_args, collect, herdr_session_names, Mux};
use sailor_hook::commands::serve::{
    already_running, herdr_sessions, lock_path, parse_listen, resolve_listen, Host, ListenError,
};
use sailor_hook::commands::service::{run as service, unit_contents, unit_path, Step, Verb};
use sailor_hook::commands::status::{status_json, status_lines, Status};
use sailor_hook::commands::{approve, context, pair, unpair, usage, version};
use sailor_hook::context::{Context, Env, Kind};
use sailor_hook::events::{Category, Event, UsageWindow};
use sailor_hook::inbox::Row;
use sailor_hook::ipc::{ClientMessage, ServerMessage};
use sailor_hook::json;
use sailor_hook::secret::Backend;

// ---------------------------------------------------------------------------
// cwd-list
// ---------------------------------------------------------------------------

#[test]
fn parses_claude_project_keys() {
    let text = r#"{
        "projects": {
            "/Users/ed/work/sailor": {"lastSessionId": "x"},
            "/Users/ed/oss/happy": {}
        },
        "other": true
    }"#;
    let mut paths = parse_claude_projects(text);
    paths.sort();
    assert_eq!(paths, vec!["/Users/ed/oss/happy", "/Users/ed/work/sailor"]);
}

#[test]
fn parse_claude_projects_tolerates_bad_input() {
    assert!(parse_claude_projects("not json").is_empty());
    assert!(parse_claude_projects("{}").is_empty());
    assert!(parse_claude_projects(r#"{"projects": [1]}"#).is_empty());
}

#[test]
fn encodes_claude_project_dir_names() {
    assert_eq!(
        encode_claude_project_dir("/Users/ed/work/sailor.app"),
        "-Users-ed-work-sailor-app"
    );
}

#[test]
fn extracts_cwd_from_flat_and_nested_lines() {
    assert_eq!(
        extract_cwd(r#"{"cwd":"/repo/a","id":"1"}"#),
        Some("/repo/a".to_string())
    );
    assert_eq!(
        extract_cwd(r#"{"type":"session_meta","payload":{"meta":{"cwd":"/repo/b"}}}"#),
        Some("/repo/b".to_string())
    );
    assert_eq!(extract_cwd(r#"{"type":"message"}"#), None);
    assert_eq!(extract_cwd("garbage"), None);
}

#[test]
fn a_cwd_is_taken_from_the_nearest_table() {
    assert_eq!(
        extract_cwd(r#"{"a": [1, {"x": {"cwd": "/deep"}}], "cwd": "/near"}"#),
        Some("/near".to_string())
    );
    assert_eq!(
        extract_cwd(r#"{"b": {"cwd": "/second"}, "a": [{"cwd": 3}, {"cwd": "/first"}]}"#),
        Some("/first".to_string())
    );
    assert_eq!(session_cwd(" {\"cwd\":\"/c\"} \n"), Some("/c".to_string()));
    assert_eq!(session_cwd("  \n"), None);
}

fn used(path: &str, source: &'static str, last_used: Option<u64>) -> RecentCwd {
    RecentCwd { path: path.into(), source, last_used }
}

#[test]
fn merges_dedups_and_sorts_newest_first() {
    let merged = merge_recent(vec![
        used("/a", "codex", Some(100)),
        used("/a", "claude_code", Some(200)),
        used("/b", "claude_code", Some(150)),
        used("/c", "codex", None),
    ]);
    let paths: Vec<&str> = merged.iter().map(|e| e.path.as_str()).collect();
    assert_eq!(paths, vec!["/a", "/b", "/c"]);
    assert_eq!(merged[0].source, "claude_code");
    assert_eq!(merged[0].last_used, Some(200));
}

#[test]
fn of_two_uses_at_one_time_the_first_is_kept() {
    let merged = merge_recent(vec![
        used("/b", "codex", Some(1)),
        used("/a", "codex", Some(1)),
        used("/b", "claude_code", Some(1)),
        used("/b", "claude_code", None),
    ]);
    assert_eq!(merged, vec![used("/a", "codex", Some(1)), used("/b", "codex", Some(1))]);
    assert!(merge_recent(vec![]).is_empty());
}

#[test]
fn transcripts_have_their_places() {
    let dir = claude_project_dir("/h", "/a.b");
    assert!(dir.starts_with("/h/.") && dir.ends_with("/projects/-a-b"));
    let settings = claude_settings("/h");
    assert!(settings.starts_with("/h/.") && settings.ends_with(".json"));
    assert_eq!(codex_sessions("/h"), "/h/.codex/sessions");
}

// ---------------------------------------------------------------------------
// easy-pair
// ---------------------------------------------------------------------------

#[test]
fn parses_connect_line() {
    let out = "\nMOSH CONNECT 60001 zr0v9zLwXqFsdxls3Wq2iA\n";
    assert_eq!(
        parse_connect_line(out),
        Some((60001, "zr0v9zLwXqFsdxls3Wq2iA".to_string()))
    );
    assert_eq!(parse_connect_line("no connect here"), None);
    assert_eq!(parse_connect_line("MOSH CONNECT notaport key"), None);
}

#[test]
fn a_broken_connect_line_ends_the_search() {
    assert_eq!(parse_connect_line("MOSH CONNECT\nMOSH CONNECT 1 k"), None);
    assert_eq!(parse_connect_line("MOSH OTHER\nMOSH CONNECT 1 k rest"), Some((1, "k".into())));
    assert_eq!(parse_connect_line("MOSH CONNECT 65536 k"), None);
    assert_eq!(
        no_connect_message("a", "b"),
        "mosh-server did not print a MOSH CONNECT line.\nstdout: a\nstderr: b"
    );
}

#[test]
fn percent_encodes_query_values() {
    assert_eq!(percent_encode("plain-value_1.2~"), "plain-value_1.2~");
    assert_eq!(percent_encode("My Mac"), "My%20Mac");
    assert_eq!(percent_encode("a/b+c"), "a%2Fb%2Bc");
}

#[test]
fn other_scripts_are_encoded_byte_by_byte() {
    assert_eq!(percent_encode("é€"), "%C3%A9%E2%82%AC");
    assert_eq!(percent_encode(""), "");
    assert_eq!(percent_encode("%"), "%25");
}

fn pairing() -> Pairing {
    Pairing {
        host: "10.0.0.2".into(),
        port: 60001,
        key: "a+b".into(),
        user: Some("ed".into()),
        name: Some("My Mac".into()),
        inbox: Some((60002, "k2".into())),
        gateway: Some((24543, "t&".into())),
    }
}

#[test]
fn the_address_carries_everything() {
    assert_eq!(
        pairing_uri(&pairing()),
        "sailor://mosh?host=10.0.0.2&port=60001&key=a%2Bb&user=ed&name=My%20Mac\
         &inboxPort=60002&inboxKey=k2&gw=24543&gwkey=t%26"
    );
    let bare = Pairing { user: None, name: None, inbox: None, gateway: None, ..pairing() };
    assert_eq!(pairing_uri(&bare), "sailor://mosh?host=10.0.0.2&port=60001&key=a%2Bb");
}

#[test]
fn the_code_is_drawn_in_half_blocks() {
    let art = pairing_code(&pairing()).unwrap();
    let uri = pairing_uri(&pairing());
    let expected = qrcode::QrCode::new(uri.as_bytes())
        .unwrap()
        .render::<qrcode::render::unicode::Dense1x2>()
        .quiet_zone(true)
        .build();
    assert_eq!(art, expected);
    assert_ne!(art, uri);
    let long = Pairing { key: "k".repeat(8000), ..pairing() };
    assert_eq!(pairing_code(&long).unwrap_err(), "data too long");
}

#[test]
fn the_host_is_given_or_picked_or_the_local_address() {
    let use_ = |h: &str| HostPlan::Use(h.into());
    assert_eq!(host_plan(Some("h"), true, Some("t"), None, Some("l")), use_("h"));
    assert_eq!(host_plan(None, false, Some("t"), None, Some("l")), use_("l"));
    assert_eq!(host_plan(None, true, None, None, None), HostPlan::Unknown);
    assert_eq!(
        host_plan(None, true, Some("t"), None, Some("l")),
        HostPlan::Ask(vec![
            Choice { label: "Tailscale", address: "t".into() },
            Choice { label: "LAN", address: "l".into() }
        ])
    );
    assert_eq!(picked(" 2\n", 2), Some(1));
    assert_eq!(picked("\n", 2), Some(0));
    assert_eq!(picked("3", 2), None);
    assert_eq!(picked("0", 2), None);
    assert_eq!(picked("x", 2), None);
}

#[test]
fn a_gateway_is_searched_then_started_then_awaited() {
    assert_eq!(
        advance(Stage::Probing, Seen::Yes, true),
        Stage::Settled { found: true, started: false }
    );
    assert_eq!(
        advance(Stage::Probing, Seen::No, false),
        Stage::Settled { found: false, started: false }
    );
    let mut stage = advance(Stage::Probing, Seen::No, true);
    assert_eq!(stage, Stage::Locating);
    assert_eq!(
        advance(stage, Seen::No, true),
        Stage::Settled { found: false, started: false }
    );
    stage = advance(stage, Seen::Yes, true);
    assert_eq!(stage, Stage::Spawning);
    stage = advance(stage, Seen::Yes, true);
    assert_eq!(stage, Stage::Awaiting { left: TRIES });
    assert_eq!(
        advance(stage, Seen::Yes, true),
        Stage::Settled { found: true, started: true }
    );
    let mut asked = 0;
    while let Stage::Awaiting { .. } = stage {
        stage = advance(stage, Seen::No, true);
        asked += 1;
    }
    assert_eq!(asked, TRIES);
    assert_eq!(stage, Stage::Settled { found: false, started: false });
}

#[test]
fn the_programs_get_their_arguments() {
    assert_eq!(shell_args(256), vec!["new", "-c", "256"]);
    assert_eq!(
        inbox_args(256, None),
        vec!["new", "-c", "256", "--", "sailor-hook", "inbox", "--watch", "--stdin-approvals"]
    );
    assert_eq!(inbox_args(8, Some("/b"))[4], "/b");
    assert_eq!(
        gateway_args("10.0.0.2", 24543),
        vec!["serve", "--bind", "10.0.0.2", "--port", "24543", "--no-advertise"]
    );
    assert_eq!(gateway_log_path(Some("/s"), None).unwrap(), "/s/gateway.log");
    assert_eq!(hostname("mac\n"), Some("mac".into()));
    assert_eq!(hostname(" \n"), None);
}

#[test]
fn the_report_tells_of_the_gateway() {
    let started = report("u", "h", 60001, true, 24543, true, true, "/s/gateway.log");
    assert_eq!(started.len(), 7);
    assert_eq!(started[1], "  u");
    assert_eq!(started[3], "mosh-server is waiting on udp h:60001; the code is single-use.");
    assert_eq!(started[5], "started the sailor-hook daemon on h:24543 (logs: /s/gateway.log).");
    let found = report("u", "h", 60001, false, 24543, true, false, "");
    assert_eq!(found[4], "No inbox channel: this binary can't locate itself.");
    assert_eq!(found[5], "session listing will use the daemon at h:24543.");
    let none = report("u", "h", 60001, true, 24543, false, false, "");
    assert!(none[5].starts_with("no daemon reachable at h:24543"));
    assert!(none[5].ends_with("`sailor-hook serve --bind h`."));
}

// ---------------------------------------------------------------------------
// mux-list
// ---------------------------------------------------------------------------

#[test]
fn reads_herdr_session_names_from_both_shapes() {
    let wrapped = r#"{"sessions":[{"name":"default"},{"name":"gami"}]}"#;
    assert_eq!(herdr_session_names(wrapped), vec!["default", "gami"]);
    let bare = r#"[{"name":"gami"}]"#;
    assert_eq!(herdr_session_names(bare), vec!["gami"]);
}

#[test]
fn tolerates_output_that_is_not_json() {
    assert!(herdr_session_names("herdr: command not found").is_empty());
    assert!(herdr_session_names("").is_empty());
}

#[test]
fn the_listing_passes_outputs_on() {
    let doc = collect(
        Some("0\t1\n"),
        None,
        Some("[]"),
        &vec![("b".into(), Some("x".into())), ("a".into(), None), ("b".into(), Some("y".into()))],
    );
    assert_eq!(
        json::render(&doc),
        r#"{"agents":{"b":"y"},"detect":"tmux=1\nzellij=0\nherdr=1","lists":{"herdr":"[]","tmux":"0\t1\n"}}"#
    );
    assert_eq!(Mux::Zellij.program(), "zellij");
    assert_eq!(Mux::Zellij.list_args(), vec!["list-sessions", "--no-formatting"]);
    assert_eq!(Mux::Herdr.list_args(), vec!["session", "list", "--json"]);
    assert_eq!(agent_args("gami"), vec!["--session", "gami", "agent", "list"]);
}

// ---------------------------------------------------------------------------
// serve
// ---------------------------------------------------------------------------

#[test]
fn parses_ip_and_named_listen_targets() {
    assert_eq!(parse_listen("0.0.0.0:3000").unwrap(), ("0.0.0.0".to_string(), 3000));
    assert_eq!(parse_listen("127.0.0.1:24543").unwrap(), ("127.0.0.1".to_string(), 24543));
    assert_eq!(
        parse_listen("nonsense").unwrap_err(),
        ListenError::NotHostPort("nonsense".into())
    );
    assert_eq!(
        parse_listen("host:notaport").unwrap_err(),
        ListenError::BadPort("notaport".into())
    );
}

#[test]
fn flags_win_over_the_environment() {
    assert_eq!(resolve_listen(true, None, Some("x:1")).unwrap(), (Host::Asked, 24543));
    assert_eq!(resolve_listen(true, Some(9), Some("x:1")).unwrap(), (Host::Asked, 9));
    assert_eq!(resolve_listen(false, None, Some("x:1")).unwrap(), (Host::Named("x".into()), 1));
    assert_eq!(resolve_listen(false, Some(9), Some("x:1")).unwrap(), (Host::Named("x".into()), 9));
    assert_eq!(resolve_listen(false, None, Some("")).unwrap(), (Host::Loopback, 24543));
    assert_eq!(resolve_listen(false, Some(9), None).unwrap(), (Host::Loopback, 9));
    assert!(resolve_listen(false, None, Some("x")).is_err());
}

#[test]
fn a_second_daemon_is_told_of_the_first() {
    assert_eq!(lock_path(Some("/s"), None).unwrap(), "/s/serve.lock");
    assert_eq!(
        already_running("/s/serve.lock"),
        "another sailor-hook serve is already running (lock /s/serve.lock). \
         Check `sailor-hook status` or stop it first."
    );
}

fn row_in(kind: Kind, session: Option<&str>) -> Row {
    let mut event = Event::new(Category::ToolRunning, "pi", "t");
    event.terminal = Some(Context {
        kind,
        session: session.map(String::from),
        ..Default::default()
    });
    Row::from_event(&event, 0)
}

#[test]
fn herdr_is_asked_once_for_each_session() {
    let mut rows = vec![
        row_in(Kind::Herdr, Some("b")),
        row_in(Kind::Tmux, Some("t")),
        row_in(Kind::Herdr, None),
        row_in(Kind::Herdr, Some("a")),
        row_in(Kind::Herdr, Some("b")),
    ];
    rows.push(Row::from_event(&Event::new(Category::ToolRunning, "pi", "t"), 0));
    assert_eq!(herdr_sessions(&rows), vec!["b", "a"]);
}

// ---------------------------------------------------------------------------
// service
// ---------------------------------------------------------------------------

#[test]
fn unit_escapes_percent_and_quotes_path() {
    let rendered = unit_contents("/opt/sailor/bin/sailor-hook");
    assert!(rendered.contains("ExecStart=/opt/sailor/bin/sailor-hook serve"));
    let rendered = unit_contents("/home/u/sailor 100%/sailor-hook");
    assert!(rendered.contains("ExecStart=/home/u/sailor 100%%/sailor-hook serve"));
}

#[test]
fn service_verbs_become_steps() {
    assert_eq!(
        Verb::parse("restart").unwrap_err(),
        "unknown service verb: restart (install | uninstall | status)"
    );
    assert_eq!(
        unit_path(Some("/h")).unwrap(),
        "/h/.config/systemd/user/sailor-hook.service"
    );
    assert!(unit_path(None).is_err());
    let install = service(Verb::parse("install").unwrap(), "/b", "/p");
    assert_eq!(install[0], Step::WriteUnit { text: unit_contents("/b") });
    assert_eq!(install[1], Step::Say { line: "wrote /p".into() });
    assert_eq!(install.len(), 5);
    let uninstall = service(Verb::Uninstall, "/b", "/p");
    assert_eq!(
        uninstall[0],
        Step::Systemctl {
            args: vec!["--user".into(), "disable".into(), "--now".into(), "sailor-hook.service".into()],
            needed: false
        }
    );
    assert_eq!(uninstall[1], Step::RemoveUnit);
    let status = service(Verb::Status, "/b", "/p");
    assert_eq!(status.len(), 1);
}

// ---------------------------------------------------------------------------
// approve and inbox
// ---------------------------------------------------------------------------

#[test]
fn answers_wellformed_lines_and_rejects_garbage() {
    let id = "ace6d302-839d-4f81-8e80-269f5be9be63";
    let message = answer(&format!(r#"{{"pendingActionId":"{id}","allow":true}}"#)).unwrap();
    assert_eq!(
        message,
        ClientMessage::Decision {
            pending_action_id: uuid::Uuid::parse_str(id).unwrap().as_u128(),
            allow: true
        }
    );
    assert!(answer("not json").unwrap_err().contains("not JSON"));
    assert!(answer(r#"{"allow":true}"#).unwrap_err().contains("pendingActionId"));
    assert!(answer(&format!(r#"{{"pendingActionId":"{id}"}}"#)).unwrap_err().contains("allow"));
    assert_eq!(
        answer(r#"{"pendingActionId":"x","allow":true}"#).unwrap_err(),
        "`x` is not a pending-action id"
    );
    assert_eq!(input_line(" \n"), None);
    assert_eq!(input_line(" {} \n"), Some("{}".into()));
}

#[test]
fn answers_need_the_stream_to_stay_open() {
    assert_eq!(request(false, false), ClientMessage::Subscribe { once: true });
    assert_eq!(request(true, false), ClientMessage::Subscribe { once: false });
    assert_eq!(request(false, true), ClientMessage::Subscribe { once: false });
}

#[test]
fn an_answer_is_reported_by_what_the_daemon_said() {
    let ack = |ok, error: Option<&str>| {
        Some(ServerMessage::Ack { ok, error: error.map(String::from) })
    };
    assert_eq!(approve::conclude(ack(true, None), true).unwrap(), "allowed");
    assert_eq!(approve::conclude(ack(true, None), false).unwrap(), "denied");
    assert_eq!(approve::conclude(ack(false, Some("late")), true).unwrap_err(), "late");
    assert_eq!(
        approve::conclude(ack(false, None), true).unwrap_err(),
        "approval could not be answered"
    );
    assert_eq!(
        approve::conclude(None, true).unwrap_err(),
        "unexpected reply from the daemon"
    );
    assert_eq!(
        approve::conclude(Some(ServerMessage::NoDecision), true).unwrap_err(),
        "unexpected reply from the daemon"
    );
    assert_eq!(approval_flag(false, false), None);
    assert_eq!(approval_flag(true, false), Some(true));
    assert_eq!(approval_flag(false, true), Some(false));
}

// ---------------------------------------------------------------------------
// The small commands
// ---------------------------------------------------------------------------

#[test]
fn pairing_needs_a_token_and_a_store() {
    assert_eq!(pair::run("t", "keychain").unwrap(), Backend::Keychain);
    assert_eq!(pair::run("t", "file").unwrap(), Backend::File);
    assert_eq!(pair::run(" \n", "file").unwrap_err(), "pairing token is empty");
    assert_eq!(pair::run("t", "cloud").unwrap_err(), "unknown --store backend: cloud");
    assert!(unpair::run(false, true).starts_with("pairing removed"));
    assert!(unpair::run(true, false).starts_with("pairing removed"));
    assert!(unpair::run(false, false).starts_with("nothing to unpair"));
}

fn status() -> Status {
    Status {
        version: "1.2.3".into(),
        paired: true,
        running: false,
        agents: vec!["codex".into(), "pi".into()],
        state: "/s".into(),
        config: "/c".into(),
        socket: "/s/hook.sock".into(),
    }
}

#[test]
fn the_status_is_told_in_lines_and_in_json() {
    assert_eq!(
        status_lines(&status()),
        vec![
            "sailor-hook v1.2.3",
            "  paired:     yes",
            "  gateway:    127.0.0.1:24543 (not running)",
            "  agents:     codex, pi",
            "  state:      /s",
            "  config:     /c",
            "  socket:     /s/hook.sock"
        ]
    );
    let none = Status { agents: vec![], paired: false, running: true, ..status() };
    assert_eq!(status_lines(&none)[3], "  agents:     (none installed)");
    assert_eq!(
        json::render(&status_json(&status())),
        [
            r#"{"agents_installed":["codex","pi"],"#,
            r#""gateway":{"host":"127.0.0.1","port":24543,"running":false},"paired":true,"#,
            r#""paths":{"config":"/c","gateway_log":"/s/gateway.log","lock":"/s/serve.lock","#,
            r#""socket":"/s/hook.sock","state":"/s"},"version":"1.2.3"}"#,
        ]
        .concat()
    );
    assert_eq!(version::run("1.2.3"), "sailor-hook 1.2.3");
}

#[test]
fn usage_is_told_of_rows_that_have_it() {
    let mut event = Event::new(Category::TaskComplete, "qwen", "t");
    assert!(!usage::has_usage(&Row::from_event(&event, 0)));
    event.context_remaining = Some(0.5f32.to_bits());
    let row = Row::from_event(&event, 0);
    assert!(usage::has_usage(&row));
    assert_eq!(usage::heading(&row), "qwen · -");
    event.context_remaining = None;
    event.project = Some("/p".into());
    event.usage = vec![UsageWindow { label: "5h".into(), used: 0, resets_at: None }];
    let row = Row::from_event(&event, 0);
    assert!(usage::has_usage(&row));
    assert_eq!(usage::heading(&row), "qwen · /p");
    assert_eq!(usage::context_line("50"), "  context: 50% remaining");
    assert_eq!(usage::window_line("5h", "40", None), "  window 5h: 40% used");
    assert_eq!(
        usage::window_line("5h", "40", Some("12:30")),
        "  window 5h: 40% used, resets 12:30"
    );
}

fn env() -> Env {
    Env {
        herdr_env: None,
        herdr_session: None,
        herdr_workspace: None,
        zellij: None,
        zellij_session_name: None,
        zellij_pane_id: None,
        tmux: Some("/tmp/tmux-501/default,1234,0".into()),
        tmux_pane: Some("%1".into()),
        cwd: Some("/p".into()),
    }
}

#[test]
fn the_context_is_printed_as_json() {
    assert_eq!(
        context::run(&env()).unwrap(),
        "{\n  \"cwd\": \"/p\",\n  \"kind\": \"tmux\",\n  \"pane\": \"%1\",\n  \"session\": \"0\",\n  \"workspace\": null\n}"
    );
}
