use sailor_hook::clock::LAST_TIME;
use sailor_hook::context::{Context, Kind};
use sailor_hook::events::{Category, Event, UsageWindow};
use sailor_hook::herdr::{AgentState, AgentStates};
use sailor_hook::inbox::{Inbox, Resolution, ARCHIVE_AFTER};
use sailor_hook::pending::{Pending, Slot};

const MINUTE: i128 = 60_000_000_000;
const NOW: i128 = 1_700_000_000_000_000_000;

fn event(category: Category, session: u128, title: &str) -> Event {
    let mut e = Event::new(category, "claude_code", title);
    e.session_id = session;
    e
}

fn pane(kind: Kind, session: &str, pane: &str) -> Option<Context> {
    Some(Context {
        kind,
        session: Some(session.into()),
        pane: Some(pane.into()),
        ..Default::default()
    })
}

#[test]
fn later_events_update_the_row_in_place() {
    let mut inbox = Inbox::new();
    inbox.apply(&event(Category::SessionStarted, 7, "Session started"));
    inbox.apply(&event(Category::ToolRunning, 7, "Running Bash"));

    let rows = inbox.rows();
    assert_eq!(rows.len(), 1);
    assert_eq!(rows[0].title, "Running Bash");
    assert_eq!(rows[0].category, Category::ToolRunning);
}

#[test]
fn approvals_pin_above_newer_rows() {
    let mut inbox = Inbox::new();
    inbox.apply_at(&event(Category::ApprovalRequired, 1, "Approve: Bash"), NOW - 10 * MINUTE);
    inbox.apply_at(&event(Category::ToolRunning, 2, "Running Read"), NOW);

    let rows = inbox.rows_at(NOW);
    assert_eq!(rows[0].session_id, 1);
    assert_eq!(rows[1].title, "Running Read");
}

#[test]
fn non_approvals_order_newest_first() {
    let mut inbox = Inbox::new();
    inbox.apply_at(&event(Category::TaskComplete, 1, "older"), NOW - 5 * MINUTE);
    inbox.apply_at(&event(Category::TaskComplete, 2, "newer"), NOW);

    let titles: Vec<String> = inbox.rows_at(NOW).into_iter().map(|r| r.title).collect();
    assert_eq!(titles, vec!["newer", "older"]);
}

#[test]
fn rows_idle_past_the_window_are_archived_then_pruned() {
    let mut inbox = Inbox::new();
    inbox.apply_at(
        &event(Category::TaskComplete, 1, "stale"),
        NOW - ARCHIVE_AFTER - 60 * MINUTE,
    );
    inbox.apply_at(&event(Category::TaskComplete, 2, "fresh"), NOW);

    assert_eq!(inbox.rows_at(NOW).len(), 1);
    assert_eq!(inbox.prune_at(NOW), 1);
    assert_eq!(inbox.rows_at(NOW).len(), 1);
}

#[test]
fn the_archive_window_is_three_hours_and_open_at_its_end() {
    assert_eq!(ARCHIVE_AFTER, 180 * MINUTE);
    let mut inbox = Inbox::new();
    inbox.apply_at(&event(Category::TaskComplete, 1, "edge"), NOW - ARCHIVE_AFTER);
    inbox.apply_at(&event(Category::TaskComplete, 2, "inside"), NOW - ARCHIVE_AFTER + 1);
    let rows = inbox.rows_at(NOW);
    assert_eq!(rows.len(), 1);
    assert_eq!(rows[0].title, "inside");
}

#[test]
fn usage_and_context_survive_events_that_omit_them() {
    let mut inbox = Inbox::new();
    let mut first = event(Category::ToolRunning, 7, "Running Bash");
    first.usage = vec![UsageWindow { label: "5h".into(), used: 0.4f32.to_bits(), resets_at: None }];
    first.context_remaining = Some(0.82f32.to_bits());
    inbox.apply(&first);
    inbox.apply(&event(Category::TaskComplete, 7, "Task complete"));

    let rows = inbox.rows();
    assert_eq!(rows[0].usage.len(), 1);
    assert_eq!(rows[0].context_remaining.map(f32::from_bits), Some(0.82));
}

#[test]
fn the_pane_a_session_was_last_seen_in_sticks() {
    let mut inbox = Inbox::new();
    let mut tagged = event(Category::SessionStarted, 7, "Session started");
    tagged.terminal = pane(Kind::Tmux, "0", "%3");
    inbox.apply(&tagged);
    // A later hook that fired outside the pane must not erase it.
    inbox.apply(&event(Category::TaskComplete, 7, "Task complete"));

    let rows = inbox.rows();
    let terminal = rows[0].terminal.as_ref().unwrap();
    assert_eq!(terminal.kind, Kind::Tmux);
    assert_eq!(terminal.pane.as_deref(), Some("%3"));
}

#[test]
fn resolving_an_approval_marks_the_row_answered() {
    let mut inbox = Inbox::new();
    let mut approval = event(Category::ApprovalRequired, 7, "Approve: Bash");
    approval.pending_action_id = Some(42);
    inbox.apply(&approval);

    assert_eq!(inbox.rows()[0].resolution, None);
    assert!(inbox.resolve(42, true).is_some());
    assert_eq!(inbox.rows()[0].resolution, Some(Resolution::Allowed));
}

#[test]
fn resolving_an_unknown_action_changes_nothing() {
    let mut inbox = Inbox::new();
    inbox.apply(&event(Category::ToolRunning, 7, "Running Read"));
    assert!(inbox.resolve(42, true).is_none());
    assert_eq!(inbox.rows()[0].resolution, None);
}

#[test]
fn a_new_event_clears_a_previous_resolution() {
    let mut inbox = Inbox::new();
    let mut approval = event(Category::ApprovalRequired, 7, "Approve: Bash");
    approval.pending_action_id = Some(42);
    inbox.apply(&approval);
    inbox.resolve(42, false);
    assert_eq!(inbox.rows()[0].resolution, Some(Resolution::Denied));

    inbox.apply(&event(Category::ToolRunning, 7, "Running Bash"));
    assert_eq!(inbox.rows()[0].resolution, None);
}

#[test]
fn herdr_native_state_overlays_herdr_rows_only() {
    let mut inbox = Inbox::new();
    let mut herdr_row = event(Category::ToolRunning, 1, "Running Bash");
    herdr_row.terminal = pane(Kind::Herdr, "gami", "w1:p1");
    inbox.apply(&herdr_row);
    // A tmux row in the same inbox must be untouched.
    let mut tmux_row = event(Category::ToolRunning, 2, "Running Read");
    tmux_row.terminal = pane(Kind::Tmux, "0", "%3");
    inbox.apply(&tmux_row);

    let mut states = AgentStates::new();
    states.insert("w1:p1", AgentState::Blocked);
    inbox.apply_agent_states("gami", &states);

    let rows = inbox.rows();
    let herdr = rows.iter().find(|r| r.session_id == 1).unwrap();
    assert_eq!(herdr.agent_state, Some(AgentState::Blocked));
    let tmux = rows.iter().find(|r| r.session_id != 1).unwrap();
    assert_eq!(tmux.agent_state, None);
}

#[test]
fn herdr_state_merge_only_publishes_changes() {
    let mut inbox = Inbox::new();
    let mut row = event(Category::ToolRunning, 1, "Running Bash");
    row.terminal = pane(Kind::Herdr, "gami", "w1:p1");
    inbox.apply(&row);

    let mut states = AgentStates::new();
    states.insert("w1:p1", AgentState::Working);
    let changed = inbox.apply_agent_states("gami", &states);
    assert_eq!(changed.len(), 1);
    assert_eq!(changed[0].agent_state, Some(AgentState::Working));

    // Same state again: nothing to publish.
    assert!(inbox.apply_agent_states("gami", &states).is_empty());
    // Another Herdr session has nothing to do with this row.
    states.insert("w1:p1", AgentState::Done);
    assert!(inbox.apply_agent_states("other", &states).is_empty());
}

#[test]
fn subscribers_receive_each_applied_row() {
    let mut inbox = Inbox::new();
    let row = inbox.apply(&event(Category::ApprovalRequired, 7, "Approve: Bash"));
    assert_eq!(row.title, "Approve: Bash");
}

#[test]
fn pruning_leaves_the_listing_as_it_was() {
    let mut inbox = Inbox::new();
    for k in 0..6u128 {
        let at = NOW - (k as i128) * 45 * MINUTE;
        inbox.apply_at(&event(Category::TaskComplete, k, "t"), at);
    }
    let before: Vec<u128> = inbox.rows_at(NOW).iter().map(|r| r.session_id).collect();
    assert_eq!(before, vec![0, 1, 2, 3]);
    assert_eq!(inbox.prune_at(NOW), 2);
    let after: Vec<u128> = inbox.rows_at(NOW).iter().map(|r| r.session_id).collect();
    assert_eq!(after, before);
}

// ---------------------------------------------------------------------------
// Waiting approvals
// ---------------------------------------------------------------------------

#[test]
fn resolve_delivers_the_answer_to_the_waiting_hook() {
    let mut pending = Pending::new();
    let ticket = pending.register(9);
    assert_eq!(pending.poll(ticket), Slot::Waiting);
    assert!(pending.resolve(9, true));
    assert_eq!(pending.poll(ticket), Slot::Answered(true));
    assert!(pending.is_empty());
}

#[test]
fn deny_travels_the_same_path() {
    let mut pending = Pending::new();
    let ticket = pending.register(9);
    pending.resolve(9, false);
    assert_eq!(pending.poll(ticket), Slot::Answered(false));
}

#[test]
fn resolving_an_unknown_id_reports_failure() {
    let mut pending = Pending::new();
    assert!(!pending.resolve(9, true));
}

#[test]
fn resolving_twice_only_works_once() {
    let mut pending = Pending::new();
    let ticket = pending.register(9);
    assert!(pending.resolve(9, true));
    assert!(!pending.resolve(9, false));
    assert_eq!(pending.poll(ticket), Slot::Answered(true));
}

#[test]
fn an_abandoned_hook_cannot_be_answered() {
    let mut pending = Pending::new();
    let ticket = pending.register(9);
    pending.abandon(ticket); // hook timed out and exited
    assert!(!pending.resolve(9, true));
    assert!(pending.is_empty());
}

#[test]
fn cancel_forgets_the_entry() {
    let mut pending = Pending::new();
    let ticket = pending.register(9);
    pending.cancel(9);
    assert!(pending.is_empty());
    assert_eq!(pending.poll(ticket), Slot::Closed);
}

#[test]
fn a_second_hook_on_one_id_takes_the_place_of_the_first() {
    let mut pending = Pending::new();
    let first = pending.register(9);
    let second = pending.register(9);
    assert_eq!(pending.len(), 1);
    assert!(pending.resolve(9, true));
    assert_eq!(pending.poll(first), Slot::Closed);
    assert_eq!(pending.poll(second), Slot::Answered(true));
}

#[test]
fn a_row_is_of_its_events_session_and_of_a_time_that_the_clock_has() {
    let mut inbox = Inbox::new();
    for session in [7, 8, 7] {
        let row = inbox.apply(&event(Category::ToolRunning, session, "Running Bash"));
        assert_eq!(row.session_id, session);
        assert!(0 < row.updated_at && row.updated_at <= LAST_TIME);
    }
    let mut sessions: Vec<u128> = inbox.rows().into_iter().map(|r| r.session_id).collect();
    sessions.sort();
    assert_eq!(sessions, vec![7, 8]);
}
