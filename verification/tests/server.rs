use sailor_hook::commands::approve;
use sailor_hook::commands::event::{
    conclude, deadline, prepare, Prepared, Reply, LONGEST_WAIT,
};
use sailor_hook::clock::{self, FIRST_TIME, LAST_TIME, SECOND};
use sailor_hook::context::{Context, Kind};
use sailor_hook::events::Event;
use sailor_hook::gateway;
use sailor_hook::inbox::{Inbox, Resolution, Row};
use sailor_hook::ipc::{ClientMessage, ServerMessage};
use sailor_hook::json;
use sailor_hook::pending::Pending;
use sailor_hook::server::{step, Action, Input, Phase, NO_APPROVAL};

const NOW: i128 = 1_700_000_000_000_000_000;

const APPROVAL: &str = r#"{"session_id":"3f2504e0-4f89-11d3-9a0c-0305e82c3301","cwd":"/p/foo",
    "hook_event_name":"PermissionRequest","tool_name":"Bash",
    "tool_input":{"command":"npm test"}}"#;

struct Daemon {
    inbox: Inbox,
    pending: Pending,
}

impl Daemon {
    fn new() -> Daemon {
        Daemon { inbox: Inbox::new(), pending: Pending::new() }
    }

    fn step(&mut self, phase: Phase, input: Input) -> (Phase, Vec<Action>) {
        step(phase, input, &mut self.inbox, &mut self.pending, NOW)
    }

    fn report(&mut self, payload: &str, await_decision: bool) -> (Phase, Vec<Action>) {
        let (event, waits) = report_of(payload);
        let message = ClientMessage::Event { event, await_decision: waits && await_decision };
        self.step(Phase::Reading, Input::Message(message))
    }

    fn answer(&mut self, id: u128, allow: bool) -> ServerMessage {
        let message = ClientMessage::Decision { pending_action_id: id, allow };
        let (_, actions) = self.step(Phase::Reading, Input::Message(message));
        actions
            .into_iter()
            .find_map(|a| match a {
                Action::Send(m) => Some(m),
                _ => None,
            })
            .unwrap()
    }

    fn rows(&self) -> Vec<Row> {
        self.inbox.rows_at(NOW)
    }
}

fn report_of(payload: &str) -> (Event, bool) {
    match prepare("claude_code", payload, None, "host-1", &Context::default(), Some(NOW)) {
        Prepared::Report { event, await_decision, .. } => (event, await_decision),
        Prepared::Skip { note } => panic!("{note}"),
    }
}

fn sent(actions: &[Action]) -> Vec<&ServerMessage> {
    actions
        .iter()
        .filter_map(|a| match a {
            Action::Send(m) => Some(m),
            _ => None,
        })
        .collect()
}

// ---------------------------------------------------------------------------
// Reading the inbox
// ---------------------------------------------------------------------------

#[test]
fn inbox_watch_streams_ndjson_rows() {
    let mut daemon = Daemon::new();
    daemon.report(r#"{"session_id":"a","hook_event_name":"SessionStart"}"#, false);

    // The snapshot arrives first...
    let subscribe = Input::Message(ClientMessage::Subscribe { once: false });
    let (phase, actions) = daemon.step(Phase::Reading, subscribe);
    assert_eq!(phase, Phase::Following);
    assert_eq!(actions[0], Action::Subscribe);
    match sent(&actions)[0] {
        ServerMessage::Row { row } => assert_eq!(row.title, "Session started"),
        other => panic!("{other:?}"),
    }

    // ...then live updates on the same stream.
    let (_, told) = daemon.report(r#"{"session_id":"b","cwd":"/p/bar","hook_event_name":"Stop"}"#, false);
    let published = told
        .into_iter()
        .find_map(|a| match a {
            Action::Publish(row) => Some(row),
            _ => None,
        })
        .unwrap();
    let (phase, actions) = daemon.step(phase, Input::Published(published));
    assert_eq!(phase, Phase::Following);
    match sent(&actions)[0] {
        ServerMessage::Row { row } => assert_eq!(row.title, "Task complete"),
        other => panic!("{other:?}"),
    }
}

#[test]
fn inbox_without_watch_prints_a_snapshot_and_exits() {
    let mut daemon = Daemon::new();
    daemon.report(r#"{"session_id":"a","hook_event_name":"SessionStart"}"#, false);
    let subscribe = Input::Message(ClientMessage::Subscribe { once: true });
    let (phase, actions) = daemon.step(Phase::Reading, subscribe);
    assert_eq!(phase, Phase::Done);
    let rows = sent(&actions);
    assert_eq!(rows.len(), 1);
    match rows[0] {
        ServerMessage::Row { row } => assert_eq!(row.title, "Session started"),
        other => panic!("{other:?}"),
    }
}

#[test]
fn get_events_returns_rows_with_approvals_pinned() {
    let mut daemon = Daemon::new();
    daemon.report(
        r#"{"session_id":"a","hook_event_name":"Notification","message":"needs you"}"#,
        false,
    );
    daemon.report(
        r#"{"session_id":"b","hook_event_name":"PreToolUse","tool_name":"Read"}"#,
        false,
    );
    let rows = daemon.rows();
    assert_eq!(rows[0].title, "needs you");
    assert_eq!(rows[1].title, "Running Read");
    assert!(!rows[0].host_id.is_empty());
}

// ---------------------------------------------------------------------------
// Answering
// ---------------------------------------------------------------------------

#[test]
fn approving_unblocks_the_agent_with_an_allow_decision() {
    let mut daemon = Daemon::new();
    let (parked, actions) = daemon.report(APPROVAL, true);
    assert!(matches!(parked, Phase::Parked { .. }));
    assert!(sent(&actions).is_empty());
    assert_eq!(daemon.step(parked, Input::Wake).1, vec![]);

    let id = daemon.rows()[0].pending_action_id.unwrap();
    let ack = daemon.answer(id, true);
    assert_eq!(approve::conclude(Some(ack), true).unwrap(), "allowed");

    let (phase, actions) = daemon.step(parked, Input::Wake);
    assert_eq!(phase, Phase::Reading);
    assert_eq!(sent(&actions), vec![&ServerMessage::Decision { allow: true }]);

    // The hook prints the decision, with the tool's input unchanged.
    let payload = json::parse(APPROVAL).unwrap();
    let reply = Reply::Message(ServerMessage::Decision { allow: true });
    let printed = conclude("claude_code", &payload, reply, 30).output.unwrap();
    let out = json::parse(&printed).unwrap();
    let inner = out.get("hookSpecificOutput").unwrap();
    assert_eq!(inner.get_str("hookEventName"), Some("PermissionRequest"));
    let decision = inner.get("decision").unwrap();
    assert_eq!(decision.get_str("behavior"), Some("allow"));
    assert_eq!(decision.get("updatedInput").unwrap().get_str("command"), Some("npm test"));

    // And the row stops offering a decision nobody can make twice.
    assert_eq!(daemon.rows()[0].resolution, Some(Resolution::Allowed));
}

#[test]
fn denying_produces_a_deny_decision() {
    let mut daemon = Daemon::new();
    let (parked, _) = daemon.report(APPROVAL, true);
    let id = daemon.rows()[0].pending_action_id.unwrap();
    let ack = daemon.answer(id, false);
    assert_eq!(approve::conclude(Some(ack), false).unwrap(), "denied");
    let (_, actions) = daemon.step(parked, Input::Wake);
    assert_eq!(sent(&actions), vec![&ServerMessage::Decision { allow: false }]);

    let payload = json::parse(APPROVAL).unwrap();
    let reply = Reply::Message(ServerMessage::Decision { allow: false });
    let printed = conclude("claude_code", &payload, reply, 30).output.unwrap();
    let out = json::parse(&printed).unwrap();
    let decision = out.get("hookSpecificOutput").unwrap().get("decision").unwrap();
    assert_eq!(decision.get_str("behavior"), Some("deny"));
    assert_eq!(daemon.rows()[0].resolution, Some(Resolution::Denied));
}

/// An approval nobody answers must fall through to the agent's own prompt, never
/// to "allow".
#[test]
fn an_unanswered_approval_prints_nothing_and_exits_clean() {
    let payload = json::parse(APPROVAL).unwrap();
    for reply in [
        Reply::TimedOut,
        Reply::Lost,
        Reply::Message(ServerMessage::NoDecision),
        Reply::Message(ServerMessage::Ack { ok: true, error: None }),
    ] {
        assert!(conclude("claude_code", &payload, reply, 1).output.is_none());
    }
    // Nothing is printed for a payload that cannot be answered, whatever came back.
    let other = json::parse(r#"{"hook_event_name":"Notification"}"#).unwrap();
    let reply = Reply::Message(ServerMessage::Decision { allow: true });
    assert!(conclude("claude_code", &other, reply, 1).output.is_none());
    // The hook is gone: a late answer finds nobody.
    let mut daemon = Daemon::new();
    let (parked, _) = daemon.report(APPROVAL, true);
    let id = daemon.rows()[0].pending_action_id.unwrap();
    let (phase, _) = daemon.step(parked, Input::Closed);
    assert_eq!(phase, Phase::Done);
    assert!(matches!(daemon.answer(id, true), ServerMessage::Ack { ok: false, .. }));
    assert_eq!(daemon.rows()[0].resolution, None);
}

/// A `Notification` looks like an approval but cannot be answered, so it must
/// not park the agent.
#[test]
fn a_notification_does_not_park_the_agent() {
    let payload = r#"{"session_id":"a","hook_event_name":"Notification","message":"needs you"}"#;
    let (event, waits) = report_of(payload);
    assert!(!waits);
    let mut daemon = Daemon::new();
    let message = ClientMessage::Event { event, await_decision: waits };
    let (phase, actions) = daemon.step(Phase::Reading, Input::Message(message));
    assert_eq!(phase, Phase::Reading);
    assert!(sent(&actions).is_empty());
}

#[test]
fn an_event_without_an_action_is_never_parked_on() {
    let mut daemon = Daemon::new();
    let (event, _) = report_of(r#"{"session_id":"a","hook_event_name":"PreToolUse"}"#);
    let message = ClientMessage::Event { event, await_decision: true };
    let (phase, actions) = daemon.step(Phase::Reading, Input::Message(message));
    assert_eq!(phase, Phase::Reading);
    assert_eq!(sent(&actions), vec![&ServerMessage::NoDecision]);
}

#[test]
fn answering_an_unknown_or_stale_approval_fails_loudly() {
    let mut daemon = Daemon::new();
    // Never existed.
    let ack = daemon.answer(0, true);
    let err = approve::conclude(Some(ack), true).unwrap_err();
    assert!(err.contains("no approval is waiting"));
    assert_eq!(err, NO_APPROVAL);

    // Not even a uuid.
    let err = approve::pending_action("not-a-uuid").unwrap_err();
    assert_eq!(err, "`not-a-uuid` is not a pending-action id");

    // Already answered.
    daemon.report(APPROVAL, true);
    let id = daemon.rows()[0].pending_action_id.unwrap();
    assert!(matches!(daemon.answer(id, true), ServerMessage::Ack { ok: true, .. }));
    assert!(matches!(daemon.answer(id, true), ServerMessage::Ack { ok: false, .. }));
}

#[test]
fn the_gateway_answers_as_the_socket_does() {
    let mut daemon = Daemon::new();
    let (parked, _) = daemon.report(APPROVAL, true);
    let id = daemon.rows()[0].pending_action_id.unwrap();
    let (response, row) = gateway::approve(&mut daemon.pending, &mut daemon.inbox, id, true);
    assert_eq!((response.status, response.body), (200, "ok"));
    assert_eq!(row.unwrap().resolution, Some(Resolution::Allowed));
    let (_, actions) = daemon.step(parked, Input::Wake);
    assert_eq!(sent(&actions), vec![&ServerMessage::Decision { allow: true }]);
    let (response, row) = gateway::approve(&mut daemon.pending, &mut daemon.inbox, id, true);
    assert_eq!((response.status, response.body), (404, NO_APPROVAL));
    assert!(row.is_none());
}

#[test]
fn noise_on_the_socket_changes_nothing() {
    let mut daemon = Daemon::new();
    let (phase, actions) = daemon.step(Phase::Reading, Input::Noise);
    assert_eq!(phase, Phase::Reading);
    assert!(actions.is_empty());
    let (phase, actions) = daemon.step(Phase::Reading, Input::Closed);
    assert_eq!(phase, Phase::Done);
    assert!(actions.is_empty());
}

// ---------------------------------------------------------------------------
// The hook
// ---------------------------------------------------------------------------

#[test]
fn the_hook_stamps_what_it_reports() {
    let terminal = Context {
        kind: Kind::Tmux,
        session: Some("0".into()),
        pane: Some("%1".into()),
        ..Default::default()
    };
    match prepare("claude_code", APPROVAL, None, "host-1", &terminal, Some(NOW)) {
        Prepared::Report { event, await_decision, .. } => {
            assert!(await_decision);
            assert_eq!(event.host_id, "host-1");
            assert_eq!(event.expires_at, Some(NOW));
            assert_eq!(event.terminal.unwrap().pane.as_deref(), Some("%1"));
        }
        Prepared::Skip { note } => panic!("{note}"),
    }
    // Outside a multiplexer there is no terminal to tell of.
    match prepare("claude_code", APPROVAL, None, "host-1", &Context::default(), None) {
        Prepared::Report { event, await_decision, .. } => {
            assert!(await_decision);
            assert_eq!(event.expires_at, None);
            assert!(event.terminal.is_none());
        }
        Prepared::Skip { note } => panic!("{note}"),
    }
}

#[test]
fn the_hook_skips_what_it_cannot_read() {
    for raw in ["not json", "{}", r#"{"hook_event_name":"PreCompact"}"#] {
        let p = prepare("claude_code", raw, None, "h", &Context::default(), Some(NOW));
        assert!(matches!(p, Prepared::Skip { .. }), "{raw}");
    }
}

#[test]
fn a_deadline_stays_within_the_calendar() {
    assert_eq!(deadline(0, 240), Some(240 * SECOND));
    assert_eq!(clock::since_epoch(2, 5), 2_000_000_005);
    assert_eq!(clock::since_epoch(-1, 1), -999_999_999);
    assert_eq!(deadline(LAST_TIME, 1), None);
    assert_eq!(deadline(0, (LONGEST_WAIT as u64) + 1), None);
    assert_eq!(LAST_TIME, nanos(chrono::DateTime::<chrono::Utc>::MAX_UTC));
    assert_eq!(FIRST_TIME, nanos(chrono::DateTime::<chrono::Utc>::MIN_UTC));
}

fn nanos(t: chrono::DateTime<chrono::Utc>) -> i128 {
    i128::from(t.timestamp()) * SECOND + i128::from(t.timestamp_subsec_nanos())
}

#[test]
fn the_clock_tells_the_time() {
    let before = nanos(chrono::Utc::now());
    let now = clock::now();
    let after = nanos(chrono::Utc::now());
    assert!(before <= now && now <= after);
}
