//! Laws of the inbox: what a session's row shows after an event, an answer or a
//! look at the terminals, and which rows are shown.

use crate::context::{ContextView, Kind};
use crate::events::{Category, EventView};
use crate::herdr::AgentState;
use crate::inbox::{
    above, all_overlaid, answered, are_changes, folded, is_listing, is_live, live_rows, overlaid,
    Resolution, RowView,
};
use crate::tree::lookup;
use vstd::prelude::*;

verus! {

/// After an event, whether its session is new or known, the session's row shows
/// exactly what the event says: its kind, title, message, source and host, and the
/// approval that it waits for, if any, with its deadline. No answer to an earlier
/// approval is left, and every other row is as it was.
pub proof fn law_row_shows_the_event(rows: Map<u128, RowView>, e: EventView, now: i128, other: u128)
    requires
        rows.contains_key(e.session_id) ==> rows[e.session_id].session_id == e.session_id,
    ensures
        ({
            let after = rows.insert(e.session_id, folded(rows, e, now));
            let row = after[e.session_id];
            &&& after.contains_key(e.session_id)
            &&& row.session_id == e.session_id
            &&& row.pending_action_id == e.pending_action_id
            &&& row.expires_at == e.expires_at
            &&& row.message == e.message
            &&& row.source == e.source
            &&& row.host_id == e.host_id
            &&& row.category == e.category
            &&& row.title == e.title
            &&& row.updated_at == now
            &&& row.resolution is None
            &&& other != e.session_id ==> after.contains_key(other) == rows.contains_key(other)
                && after[other] == rows[other]
        }),
{
}

/// An approval that was just asked for can be answered: some row waits on it.
pub proof fn law_asked_approval_can_be_answered(
    rows: Map<u128, RowView>,
    e: EventView,
    now: i128,
    id: u128,
)
    requires
        e.pending_action_id == Some(id),
    ensures
        ({
            let after = rows.insert(e.session_id, folded(rows, e, now));
            exists|k: u128| #[trigger]
                after.contains_key(k) && after[k].pending_action_id == Some(id)
        }),
{
    let after = rows.insert(e.session_id, folded(rows, e, now));
    assert(after.contains_key(e.session_id));
}

/// Where an event asks for nothing, the session's row waits on nothing any more.
pub proof fn law_later_event_withdraws_the_approval(
    rows: Map<u128, RowView>,
    e: EventView,
    now: i128,
)
    requires
        e.pending_action_id is None,
    ensures
        folded(rows, e, now).pending_action_id is None,
{
}

/// What an event leaves unsaid of the project, the usage, the context and the
/// terminal stays as the row had it; what it says of them is taken over. What Herdr
/// said of the agent is not touched.
pub proof fn law_unsaid_is_kept(rows: Map<u128, RowView>, e: EventView, now: i128)
    ensures
        ({
            let row = folded(rows, e, now);
            let known = rows.contains_key(e.session_id);
            let had = rows[e.session_id];
            &&& e.project is Some ==> row.project == e.project
            &&& e.project is None ==> row.project == if known {
                had.project
            } else {
                None
            }
            &&& e.usage.len() > 0 ==> row.usage == e.usage
            &&& e.usage.len() == 0 && known ==> row.usage == had.usage
            &&& e.usage.len() == 0 && !known ==> row.usage.len() == 0
            &&& e.context_remaining is Some ==> row.context_remaining == e.context_remaining
            &&& e.context_remaining is None ==> row.context_remaining == if known {
                had.context_remaining
            } else {
                None
            }
            &&& e.terminal is Some ==> row.terminal == e.terminal
            &&& e.terminal is None ==> row.terminal == if known {
                had.terminal
            } else {
                None
            }
            &&& row.agent_state == if known {
                had.agent_state
            } else {
                None
            }
        }),
{
}

/// An answer is all that answering changes, and it says what was answered.
pub proof fn law_answer_changes_nothing_else(row: RowView, allow: bool)
    ensures
        ({
            let after = answered(row, allow);
            &&& allow ==> after.resolution == Some(Resolution::Allowed)
            &&& !allow ==> after.resolution == Some(Resolution::Denied)
            &&& after.session_id == row.session_id
            &&& after.host_id == row.host_id
            &&& after.source == row.source
            &&& after.project == row.project
            &&& after.category == row.category
            &&& after.title == row.title
            &&& after.message == row.message
            &&& after.updated_at == row.updated_at
            &&& after.pending_action_id == row.pending_action_id
            &&& after.expires_at == row.expires_at
            &&& after.usage == row.usage
            &&& after.context_remaining == row.context_remaining
            &&& after.terminal == row.terminal
            &&& after.agent_state == row.agent_state
        }),
{
}

/// A row shows for three hours after its last event, and no longer.
pub proof fn law_rows_show_for_three_hours(row: RowView, now: i128)
    ensures
        is_live(row, now) <==> now - row.updated_at < 3 * 60 * 60 * 1_000_000_000,
{
}

/// A listing shows every row that was heard of in the last three hours, once, and
/// no other; approvals come first, and of two rows that both wait or both do not,
/// the newer one.
pub proof fn law_listing(
    list: Seq<RowView>,
    rows: Map<u128, RowView>,
    now: i128,
    k: u128,
    i: int,
    j: int,
)
    requires
        is_listing(list, rows, now),
        0 <= i < j < list.len(),
    ensures
        rows.contains_key(k) && now - rows[k].updated_at < 3 * 60 * 60 * 1_000_000_000
            ==> exists|n: int| 0 <= n < list.len() && (#[trigger] list[n]).session_id == k,
        rows.contains_key(list[i].session_id) && rows[list[i].session_id] == list[i],
        now - list[i].updated_at < 3 * 60 * 60 * 1_000_000_000,
        list[i].session_id != list[j].session_id,
        list[j].category == Category::ApprovalRequired ==> list[i].category
            == Category::ApprovalRequired,
        (list[i].category == Category::ApprovalRequired) == (list[j].category
            == Category::ApprovalRequired) ==> list[i].updated_at >= list[j].updated_at,
{
    assert(!above(list[j], list[i]));
    if rows.contains_key(k) && now - rows[k].updated_at < 3 * 60 * 60 * 1_000_000_000 {
        assert(rows.contains_key(k) && is_live(rows[k], now));
    }
}

/// Pruning drops just the rows that no longer show, and changes none of the others.
pub proof fn law_prune_drops_the_old(rows: Map<u128, RowView>, now: i128, k: u128)
    ensures
        live_rows(rows, now).contains_key(k) <==> rows.contains_key(k) && now
            - rows[k].updated_at < 3 * 60 * 60 * 1_000_000_000,
        live_rows(rows, now).contains_key(k) ==> live_rows(rows, now)[k] == rows[k],
{
}

/// What Herdr says of a pane goes to the rows of that pane in that session and to no
/// other, and changes nothing of a row but the state of its agent.
pub proof fn law_states_go_to_their_panes(
    row: RowView,
    terminal: ContextView,
    session: Seq<char>,
    pane: Seq<char>,
    states: Seq<(Seq<char>, AgentState)>,
)
    requires
        row.terminal == Some(terminal),
        terminal.kind == Kind::Herdr,
        terminal.pane == Some(pane),
    ensures
        terminal.session == Some(session) && lookup(states, pane) is Some ==> overlaid(
            row,
            session,
            states,
        ).agent_state == lookup(states, pane),
        terminal.session == Some(session) && lookup(states, pane) is None ==> overlaid(
            row,
            session,
            states,
        ) == row,
        terminal.session != Some(session) ==> overlaid(row, session, states) == row,
        ({
            let after = overlaid(row, session, states);
            (RowView { agent_state: row.agent_state, ..after }) == row
        }),
{
}

/// A row outside Herdr keeps its state, whatever Herdr says.
pub proof fn law_rows_outside_herdr_keep_their_state(
    row: RowView,
    session: Seq<char>,
    states: Seq<(Seq<char>, AgentState)>,
)
    requires
        row.terminal is None || row.terminal->0.kind != Kind::Herdr || row.terminal->0.pane is None,
    ensures
        overlaid(row, session, states) == row,
{
}

/// No row comes or goes by laying states over the rows.
pub proof fn law_overlay_keeps_the_rows(
    rows: Map<u128, RowView>,
    session: Seq<char>,
    states: Seq<(Seq<char>, AgentState)>,
    k: u128,
)
    ensures
        all_overlaid(rows, session, states).contains_key(k) <==> rows.contains_key(k),
        rows.contains_key(k) ==> (RowView {
            agent_state: rows[k].agent_state,
            ..all_overlaid(rows, session, states)[k]
        }) == rows[k],
{
}

/// The rows that are handed on after a look at the terminals are exactly those that
/// changed, each once, as they are now.
pub proof fn law_changed_rows_are_handed_on(
    list: Seq<RowView>,
    before: Map<u128, RowView>,
    after: Map<u128, RowView>,
    k: u128,
    i: int,
    j: int,
)
    requires
        are_changes(list, before, after),
        after.contains_key(k),
    ensures
        after[k] != before[k] ==> exists|n: int|
            0 <= n < list.len() && #[trigger] list[n] == after[k],
        0 <= i < list.len() ==> after[list[i].session_id] == list[i]
            && before[list[i].session_id] != list[i],
        0 <= i < j < list.len() ==> list[i].session_id != list[j].session_id,
{
    if after[k] != before[k] {
        let n = choose|n: int| 0 <= n < list.len() && (#[trigger] list[n]).session_id == k;
        assert(list[n] == after[k]);
    }
}

} // verus!
