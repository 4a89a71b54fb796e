//! The inbox: events folded into one row for each session.
//!
//! A later event updates its session's row in place, a row that waits for an
//! approval stands above the others, and a row without news for three hours is
//! archived. Rows live in memory only.

use crate::clock;
use crate::context::{opt_context, Context, ContextView, Kind};
use crate::events::{copy_usage, usage_views, Category, Event, EventView, UsageView, UsageWindow};
use crate::herdr::{AgentState, AgentStates};
use crate::text;
use crate::text::opt_text;
use crate::tree::lookup;
use vstd::prelude::*;

verus! {

/// How long a row stays after its last event, in nanoseconds.
pub const ARCHIVE_AFTER: i128 = 10_800_000_000_000;

/// How a waiting approval was answered.
#[derive(Debug, Clone, Copy, PartialEq, Eq, Structural)]
pub enum Resolution {
    Allowed,
    Denied,
}

/// A session's row. Times are in nanoseconds since the epoch.
#[derive(Debug, PartialEq)]
pub struct Row {
    pub session_id: u128,
    pub host_id: String,
    pub source: String,
    pub project: Option<String>,
    pub category: Category,
    pub title: String,
    pub message: String,
    pub updated_at: i128,
    pub pending_action_id: Option<u128>,
    pub expires_at: Option<i128>,
    pub usage: Vec<UsageWindow>,
    pub context_remaining: Option<u32>,
    pub terminal: Option<Context>,
    /// What Herdr says of the pane that the agent runs in.
    pub agent_state: Option<AgentState>,
    /// How the pending approval was answered, once it has been.
    pub resolution: Option<Resolution>,
}

/// A row as the contracts speak of it.
pub struct RowView {
    pub session_id: u128,
    pub host_id: Seq<char>,
    pub source: Seq<char>,
    pub project: Option<Seq<char>>,
    pub category: Category,
    pub title: Seq<char>,
    pub message: Seq<char>,
    pub updated_at: i128,
    pub pending_action_id: Option<u128>,
    pub expires_at: Option<i128>,
    pub usage: Seq<UsageView>,
    pub context_remaining: Option<u32>,
    pub terminal: Option<ContextView>,
    pub agent_state: Option<AgentState>,
    pub resolution: Option<Resolution>,
}

impl View for Row {
    type V = RowView;

    open spec fn view(&self) -> RowView {
        RowView {
            session_id: self.session_id,
            host_id: self.host_id@,
            source: self.source@,
            project: opt_text(self.project),
            category: self.category,
            title: self.title@,
            message: self.message@,
            updated_at: self.updated_at,
            pending_action_id: self.pending_action_id,
            expires_at: self.expires_at,
            usage: usage_views(self.usage@),
            context_remaining: self.context_remaining,
            terminal: opt_context(self.terminal),
            agent_state: self.agent_state,
            resolution: self.resolution,
        }
    }
}

/// The views of a list of rows.
pub open spec fn row_views(v: Seq<Row>) -> Seq<RowView> {
    Seq::new(v.len(), |i: int| v[i]@)
}

// ---------------------------------------------------------------------------
// One row
// ---------------------------------------------------------------------------

/// The row of a session that is new.
pub open spec fn first_row(e: EventView, now: i128) -> RowView {
    RowView {
        session_id: e.session_id,
        host_id: e.host_id,
        source: e.source,
        project: e.project,
        category: e.category,
        title: e.title,
        message: e.message,
        updated_at: now,
        pending_action_id: e.pending_action_id,
        expires_at: e.expires_at,
        usage: e.usage,
        context_remaining: e.context_remaining,
        terminal: e.terminal,
        agent_state: None,
        resolution: None,
    }
}

/// The first of two that is there.
pub open spec fn or_kept<T>(new: Option<T>, old: Option<T>) -> Option<T> {
    if new is Some {
        new
    } else {
        old
    }
}

/// A row after a later event: what the event says is taken over, what it leaves
/// unsaid of the project, the usage, the context and the terminal stays, and an
/// answer to an earlier approval is gone.
pub open spec fn later_row(row: RowView, e: EventView, now: i128) -> RowView {
    RowView {
        session_id: row.session_id,
        host_id: e.host_id,
        source: e.source,
        project: or_kept(e.project, row.project),
        category: e.category,
        title: e.title,
        message: e.message,
        updated_at: now,
        pending_action_id: e.pending_action_id,
        expires_at: e.expires_at,
        usage: if e.usage.len() == 0 {
            row.usage
        } else {
            e.usage
        },
        context_remaining: or_kept(e.context_remaining, row.context_remaining),
        terminal: or_kept(e.terminal, row.terminal),
        agent_state: row.agent_state,
        resolution: None,
    }
}

/// A row with its approval answered.
pub open spec fn answered(row: RowView, allow: bool) -> RowView {
    RowView {
        resolution: Some(
            if allow {
                Resolution::Allowed
            } else {
                Resolution::Denied
            },
        ),
        ..row
    }
}

/// What Herdr says of the pane that a row's agent runs in: only for a row in a
/// pane of that Herdr session, and only where that pane has a state.
pub open spec fn pane_state(
    row: RowView,
    session: Seq<char>,
    states: Seq<(Seq<char>, AgentState)>,
) -> Option<AgentState> {
    match row.terminal {
        Some(t) => if t.kind == Kind::Herdr && t.session == Some(session) {
            match t.pane {
                Some(pane) => lookup(states, pane),
                None => None,
            }
        } else {
            None
        },
        None => None,
    }
}

/// A row with Herdr's state laid over it; a row of which Herdr says nothing keeps
/// its own.
pub open spec fn overlaid(
    row: RowView,
    session: Seq<char>,
    states: Seq<(Seq<char>, AgentState)>,
) -> RowView {
    RowView { agent_state: or_kept(pane_state(row, session, states), row.agent_state), ..row }
}

/// A row that still shows.
pub open spec fn is_live(row: RowView, now: i128) -> bool {
    row.updated_at > now - ARCHIVE_AFTER
}

fn copy_terminal(t: &Option<Context>) -> (r: Option<Context>)
    ensures
        opt_context(r) == opt_context(*t),
{
    match t {
        Some(c) => Some(c.copy()),
        None => None,
    }
}

impl Row {
    /// The row of a session that is new.
    pub fn from_event(event: &Event, now: i128) -> (r: Row)
        ensures
            r@ == first_row(event@, now),
    {
        Row {
            session_id: event.session_id,
            host_id: event.host_id.clone(),
            source: event.source.clone(),
            project: text::owned_opt(&event.project),
            category: event.category,
            title: event.title.clone(),
            message: event.message.clone(),
            updated_at: now,
            pending_action_id: event.pending_action_id,
            expires_at: event.expires_at,
            usage: copy_usage(&event.usage),
            context_remaining: event.context_remaining,
            terminal: copy_terminal(&event.terminal),
            agent_state: None,
            resolution: None,
        }
    }

    /// Takes a later event over.
    pub fn update(&mut self, event: &Event, now: i128)
        ensures
            final(self)@ == later_row(old(self)@, event@, now),
    {
        self.host_id = event.host_id.clone();
        self.source = event.source.clone();
        if event.project.is_some() {
            self.project = text::owned_opt(&event.project);
        }
        self.category = event.category;
        self.title = event.title.clone();
        self.message = event.message.clone();
        self.updated_at = now;
        self.pending_action_id = event.pending_action_id;
        self.expires_at = event.expires_at;
        if event.usage.len() > 0 {
            self.usage = copy_usage(&event.usage);
        }
        if event.context_remaining.is_some() {
            self.context_remaining = event.context_remaining;
        }
        if event.terminal.is_some() {
            self.terminal = copy_terminal(&event.terminal);
        }
        self.resolution = None;
    }

    /// A copy.
    pub fn copy(&self) -> (r: Row)
        ensures
            r@ == self@,
    {
        Row {
            session_id: self.session_id,
            host_id: self.host_id.clone(),
            source: self.source.clone(),
            project: text::owned_opt(&self.project),
            category: self.category,
            title: self.title.clone(),
            message: self.message.clone(),
            updated_at: self.updated_at,
            pending_action_id: self.pending_action_id,
            expires_at: self.expires_at,
            usage: copy_usage(&self.usage),
            context_remaining: self.context_remaining,
            terminal: copy_terminal(&self.terminal),
            agent_state: self.agent_state,
            resolution: self.resolution,
        }
    }

    /// What Herdr says of the pane that this row's agent runs in.
    fn herdr_state(&self, session: &str, states: &AgentStates) -> (r: Option<AgentState>)
        ensures
            r == pane_state(self@, session@, states@),
    {
        match &self.terminal {
            Some(t) => {
                if t.kind != Kind::Herdr {
                    return None;
                }
                match &t.session {
                    Some(s) => {
                        if !text::same(s.as_str(), session) {
                            return None;
                        }
                    },
                    None => return None,
                }
                match &t.pane {
                    Some(pane) => states.get(pane.as_str()),
                    None => None,
                }
            },
            None => None,
        }
    }
}

// ---------------------------------------------------------------------------
// All rows
// ---------------------------------------------------------------------------

/// A list of rows, by session.
spec fn by_session(rows: Seq<RowView>) -> Map<u128, RowView>
    decreases rows.len(),
{
    if rows.len() == 0 {
        Map::empty()
    } else {
        by_session(rows.drop_last()).insert(rows.last().session_id, rows.last())
    }
}

/// No two rows are of one session.
spec fn distinct(rows: Seq<RowView>) -> bool {
    forall|i: int, j: int|
        0 <= i < j < rows.len() ==> (#[trigger] rows[i]).session_id != (
        #[trigger] rows[j]).session_id
}

proof fn lemma_by_session(rows: Seq<RowView>)
    requires
        distinct(rows),
    ensures
        forall|i: int|
            0 <= i < rows.len() ==> by_session(rows).contains_key((#[trigger] rows[i]).session_id)
                && by_session(rows)[rows[i].session_id] == rows[i],
        forall|k: u128| #[trigger]
            by_session(rows).contains_key(k) ==> exists|i: int|
                0 <= i < rows.len() && (#[trigger] rows[i]).session_id == k,
        by_session(rows).dom().finite(),
        by_session(rows).len() == rows.len(),
        keyed(by_session(rows)),
    decreases rows.len(),
{
    if rows.len() > 0 {
        let d = rows.drop_last();
        assert forall|i: int, j: int| 0 <= i < j < d.len() implies (#[trigger] d[i]).session_id != (
        #[trigger] d[j]).session_id by {
            assert(d[i] == rows[i] && d[j] == rows[j]);
        }
        lemma_by_session(d);
        let last = rows.last();
        assert(rows[rows.len() - 1] == last);
        if by_session(d).contains_key(last.session_id) {
            let i = choose|i: int| 0 <= i < d.len() && (#[trigger] d[i]).session_id
                == last.session_id;
            assert(d[i] == rows[i]);
            assert(false);
        }
        assert forall|i: int| 0 <= i < rows.len() implies by_session(rows).contains_key(
            (#[trigger] rows[i]).session_id,
        ) && by_session(rows)[rows[i].session_id] == rows[i] by {
            if i < d.len() {
                assert(d[i] == rows[i]);
                assert(rows[i].session_id != last.session_id);
            }
        }
        assert forall|k: u128| #[trigger] by_session(rows).contains_key(k) implies exists|i: int|
            0 <= i < rows.len() && (#[trigger] rows[i]).session_id == k by {
            if k == last.session_id {
                assert(rows[rows.len() - 1].session_id == k);
            } else {
                assert(by_session(d).contains_key(k));
                let i = choose|i: int| 0 <= i < d.len() && (#[trigger] d[i]).session_id == k;
                assert(rows[i].session_id == k);
            }
        }
        assert(by_session(rows).dom() =~= by_session(d).dom().insert(last.session_id));
    }
}

/// Two lists of distinct rows with the same rows are the same by session.
proof fn lemma_same_map(rows: Seq<RowView>, m: Map<u128, RowView>)
    requires
        distinct(rows),
        forall|i: int|
            0 <= i < rows.len() ==> m.contains_key((#[trigger] rows[i]).session_id)
                && m[rows[i].session_id] == rows[i],
        forall|k: u128| #[trigger]
            m.contains_key(k) ==> exists|i: int|
                0 <= i < rows.len() && (#[trigger] rows[i]).session_id == k,
    ensures
        by_session(rows) == m,
{
    lemma_by_session(rows);
    let n = by_session(rows);
    assert forall|k: u128| n.contains_key(k) == m.contains_key(k) by {
        if n.contains_key(k) {
            let i = choose|i: int| 0 <= i < rows.len() && (#[trigger] rows[i]).session_id == k;
            assert(m.contains_key(rows[i].session_id));
        }
        if m.contains_key(k) {
            let i = choose|i: int| 0 <= i < rows.len() && (#[trigger] rows[i]).session_id == k;
            assert(n.contains_key(rows[i].session_id));
        }
    }
    assert forall|k: u128| n.contains_key(k) implies n[k] == m[k] by {
        let i = choose|i: int| 0 <= i < rows.len() && (#[trigger] rows[i]).session_id == k;
        assert(n[rows[i].session_id] == rows[i]);
    }
    assert(n =~= m);
}

/// The rows of all sessions.
#[derive(Debug)]
pub struct Inbox {
    rows: Vec<Row>,
}

impl View for Inbox {
    type V = Map<u128, RowView>;

    closed spec fn view(&self) -> Map<u128, RowView> {
        by_session(row_views(self.rows@))
    }
}

/// The row of an event's session once the event is folded in.
pub open spec fn folded(rows: Map<u128, RowView>, e: EventView, now: i128) -> RowView {
    if rows.contains_key(e.session_id) {
        later_row(rows[e.session_id], e, now)
    } else {
        first_row(e, now)
    }
}

/// The first row stands above the second: it waits for an approval and the other
/// does not, or both do or neither does and it is newer.
pub open spec fn above(a: RowView, b: RowView) -> bool {
    let pa = a.category == Category::ApprovalRequired;
    let pb = b.category == Category::ApprovalRequired;
    if pa == pb {
        a.updated_at > b.updated_at
    } else {
        pa
    }
}

/// A list shows exactly the live rows, each once, none below one that it stands
/// above. Which of two rows of the same time comes first is left open.
pub open spec fn is_listing(list: Seq<RowView>, rows: Map<u128, RowView>, now: i128) -> bool {
    &&& forall|i: int|
        0 <= i < list.len() ==> rows.contains_key((#[trigger] list[i]).session_id)
            && rows[list[i].session_id] == list[i] && is_live(list[i], now)
    &&& forall|k: u128| #[trigger]
        rows.contains_key(k) && is_live(rows[k], now) ==> exists|i: int|
            0 <= i < list.len() && (#[trigger] list[i]).session_id == k
    &&& forall|i: int, j: int|
        0 <= i < j < list.len() ==> (#[trigger] list[i]).session_id != (
        #[trigger] list[j]).session_id && !above(list[j], list[i])
}

/// Every row is kept under the session that it is of.
pub open spec fn keyed(rows: Map<u128, RowView>) -> bool {
    forall|k: u128| #[trigger] rows.contains_key(k) ==> rows[k].session_id == k
}

/// The rows that are not archived.
pub open spec fn live_rows(rows: Map<u128, RowView>, now: i128) -> Map<u128, RowView> {
    Map::new(|k: u128| rows.contains_key(k) && is_live(rows[k], now), |k: u128| rows[k])
}

/// All rows with Herdr's states laid over them.
pub open spec fn all_overlaid(
    rows: Map<u128, RowView>,
    session: Seq<char>,
    states: Seq<(Seq<char>, AgentState)>,
) -> Map<u128, RowView> {
    Map::new(|k: u128| rows.contains_key(k), |k: u128| overlaid(rows[k], session, states))
}

/// A list names exactly the rows in which two sets of rows differ, each once, as
/// they are in the second.
pub open spec fn are_changes(
    list: Seq<RowView>,
    before: Map<u128, RowView>,
    after: Map<u128, RowView>,
) -> bool {
    &&& forall|i: int|
        0 <= i < list.len() ==> after.contains_key((#[trigger] list[i]).session_id)
            && after[list[i].session_id] == list[i] && before[list[i].session_id] != list[i]
    &&& forall|k: u128| #[trigger]
        after.contains_key(k) && after[k] != before[k] ==> exists|i: int|
            0 <= i < list.len() && (#[trigger] list[i]).session_id == k
    &&& forall|i: int, j: int|
        0 <= i < j < list.len() ==> (#[trigger] list[i]).session_id != (
        #[trigger] list[j]).session_id
}

impl Inbox {
    /// Rows are one for each session.
    #[verifier::type_invariant]
    spec fn well_kept(self) -> bool {
        distinct(row_views(self.rows@))
    }

    /// No rows.
    pub fn new() -> (r: Inbox)
        ensures
            r@ == Map::<u128, RowView>::empty(),
            keyed(r@),
    {
        let rows: Vec<Row> = Vec::new();
        assert(row_views(rows@) =~= Seq::empty());
        Inbox { rows }
    }

    /// Folds an event into its session's row, and gives the row as it is then.
    pub fn apply_at(&mut self, event: &Event, now: i128) -> (r: Row)
        ensures
            r@ == folded(old(self)@, event@, now),
            r.session_id == event.session_id,
            final(self)@ == old(self)@.insert(event.session_id, r@),
            keyed(final(self)@),
    {
        proof {
            use_type_invariant(&*self);
            lemma_by_session(row_views(self.rows@));
        }
        let ghost before = self@;
        let ghost views = row_views(self.rows@);
        let mut rows: Vec<Row> = Vec::new();
        std::mem::swap(&mut rows, &mut self.rows);
        let mut i: usize = 0;
        while i < rows.len()
            invariant
                i <= rows@.len(),
                views == row_views(rows@),
                before == old(self)@,
                forall|j: int| 0 <= j < i ==> (#[trigger] views[j]).session_id != event.session_id,
                distinct(views),
                before == by_session(views),
                keyed(before),
                forall|k: int|
                    0 <= k < views.len() ==> before.contains_key((#[trigger] views[k]).session_id)
                        && before[views[k].session_id] == views[k],
                distinct(row_views(self.rows@)),
            decreases rows@.len() - i,
        {
            assert(views[i as int] == rows@[i as int]@);
            if rows[i].session_id == event.session_id {
                let mut row = rows[i].copy();
                row.update(event, now);
                let out = row.copy();
                rows.set(i, row);
                proof {
                    let after = row_views(rows@);
                    assert(after =~= views.update(i as int, out@));
                    lemma_by_session(views);
                    lemma_replaced(views, i as int, out@);
                }
                self.rows = rows;
                return out;
            }
            i += 1;
        }
        let row = Row::from_event(event, now);
        let out = row.copy();
        rows.push(row);
        proof {
            let after = row_views(rows@);
            assert(after =~= views.push(out@));
            assert(after.drop_last() =~= views);
            assert(!before.contains_key(event.session_id)) by {
                lemma_by_session(views);
            }
            assert forall|a: int, b: int| 0 <= a < b < after.len() implies (
            #[trigger] after[a]).session_id != (#[trigger] after[b]).session_id by {
                if b < views.len() {
                    assert(after[a] == views[a] && after[b] == views[b]);
                } else {
                    assert(after[a] == views[a]);
                }
            }
        }
        self.rows = rows;
        out
    }

    /// Folds an event into its session's row now.
    pub fn apply(&mut self, event: &Event) -> (r: Row)
        ensures
            r@ == folded(old(self)@, event@, r.updated_at),
            0 <= r.updated_at <= clock::LAST_TIME,
            r.session_id == event.session_id,
            final(self)@ == old(self)@.insert(event.session_id, r@),
            keyed(final(self)@),
    {
        self.apply_at(event, clock::now())
    }

    /// Records how a waiting approval was answered. Gives the row to be shown
    /// again, or `None` where no row waits on that identifier. Where several do,
    /// one of them is answered.
    pub fn resolve(&mut self, pending_action_id: u128, allow: bool) -> (r: Option<Row>)
        ensures
            match r {
                Some(row) => old(self)@.contains_key(row.session_id)
                    && old(self)@[row.session_id].pending_action_id == Some(pending_action_id)
                    && row@ == answered(old(self)@[row.session_id], allow) && final(self)@ == old(
                    self,
                )@.insert(row.session_id, row@),
                None => final(self)@ == old(self)@ && forall|k: u128| #[trigger]
                    old(self)@.contains_key(k) ==> old(self)@[k].pending_action_id != Some(
                        pending_action_id,
                    ),
            },
            keyed(final(self)@),
    {
        proof {
            use_type_invariant(&*self);
            lemma_by_session(row_views(self.rows@));
        }
        let ghost before = self@;
        let ghost views = row_views(self.rows@);
        let mut rows: Vec<Row> = Vec::new();
        std::mem::swap(&mut rows, &mut self.rows);
        let mut i: usize = 0;
        while i < rows.len()
            invariant
                i <= rows@.len(),
                views == row_views(rows@),
                distinct(views),
                before == by_session(views),
                before == old(self)@,
                forall|j: int|
                    0 <= j < i ==> (#[trigger] views[j]).pending_action_id != Some(
                        pending_action_id,
                    ),
                distinct(row_views(self.rows@)),
            decreases rows@.len() - i,
        {
            assert(views[i as int] == rows@[i as int]@);
            let waits = match rows[i].pending_action_id {
                Some(id) => id == pending_action_id,
                None => false,
            };
            if waits {
                let mut row = rows[i].copy();
                row.resolution = Some(
                    if allow {
                        Resolution::Allowed
                    } else {
                        Resolution::Denied
                    },
                );
                let out = row.copy();
                rows.set(i, row);
                proof {
                    let after = row_views(rows@);
                    assert(after =~= views.update(i as int, out@));
                    lemma_by_session(views);
                    lemma_replaced(views, i as int, out@);
                }
                self.rows = rows;
                return Some(out);
            }
            i += 1;
        }
        proof {
            lemma_by_session(views);
            assert forall|k: u128| #[trigger] before.contains_key(k) implies before[k].pending_action_id
                != Some(pending_action_id) by {
                let j = choose|j: int| 0 <= j < views.len() && (#[trigger] views[j]).session_id
                    == k;
                assert(before[views[j].session_id] == views[j]);
            }
        }
        self.rows = rows;
        None
    }

    /// Lays Herdr's states of one session's panes over the rows, and gives the
    /// rows that changed by it.
    pub fn apply_agent_states(&mut self, session: &str, states: &AgentStates) -> (r: Vec<Row>)
        ensures
            final(self)@ == all_overlaid(old(self)@, session@, states@),
            are_changes(row_views(r@), old(self)@, final(self)@),
            keyed(final(self)@),
    {
        proof {
            use_type_invariant(&*self);
        }
        let ghost before = self@;
        let ghost views = row_views(self.rows@);
        let ghost want = views.map_values(|v: RowView| overlaid(v, session@, states@));
        let mut rows: Vec<Row> = Vec::new();
        std::mem::swap(&mut rows, &mut self.rows);
        let mut changed: Vec<Row> = Vec::new();
        let mut i: usize = 0;
        let ghost mut from: Seq<int> = Seq::empty();
        while i < rows.len()
            invariant
                i <= rows@.len(),
                rows@.len() == views.len(),
                want == views.map_values(|v: RowView| overlaid(v, session@, states@)),
                forall|j: int| 0 <= j < i ==> (#[trigger] rows@[j])@ == want[j],
                forall|j: int| i <= j < rows@.len() ==> (#[trigger] rows@[j])@ == views[j],
                from.len() == changed@.len(),
                forall|c: int|
                    0 <= c < from.len() ==> 0 <= #[trigger] from[c] < i && changed@[c]@
                        == want[from[c]] && want[from[c]] != views[from[c]],
                forall|c: int, d: int| 0 <= c < d < from.len() ==> from[c] < from[d],
                forall|j: int|
                    0 <= j < i && #[trigger] want[j] != views[j] ==> exists|c: int|
                        0 <= c < from.len() && #[trigger] from[c] == j,
            decreases rows@.len() - i,
        {
            let ghost old_from = from;
            assert(rows@[i as int]@ == views[i as int]);
            if let Some(state) = rows[i].herdr_state(session, states) {
                let differs = match rows[i].agent_state {
                    Some(s) => s != state,
                    None => true,
                };
                if differs {
                    let mut row = rows[i].copy();
                    row.agent_state = Some(state);
                    let out = row.copy();
                    rows.set(i, row);
                    changed.push(out);
                    proof {
                        from = from.push(i as int);
                        assert(out@ == want[i as int]);
                        assert(want[i as int].agent_state != views[i as int].agent_state);
                        assert(from[from.len() - 1] == i);
                    }
                } else {
                    assert(want[i as int] == views[i as int]);
                }
            } else {
                assert(want[i as int] == views[i as int]);
            }
            proof {
                assert forall|j: int|
                    0 <= j < i + 1 && #[trigger] want[j] != views[j] implies exists|c: int|
                    0 <= c < from.len() && #[trigger] from[c] == j by {
                    if j < i {
                        let c = choose|c: int| 0 <= c < old_from.len() && #[trigger] old_from[c] == j;
                        assert(from[c] == j);
                    }
                }
            }
            i += 1;
        }
        proof {
            let after = row_views(rows@);
            assert(after =~= want);
            lemma_overlay(views, want, session@, states@);
            let list = row_views(changed@);
            let last = by_session(want);
            lemma_by_session(views);
            lemma_by_session(want);
            assert forall|c: int| 0 <= c < list.len() implies last.contains_key(
                (#[trigger] list[c]).session_id,
            ) && last[list[c].session_id] == list[c] && before[list[c].session_id] != list[c] by {
                assert(list[c] == want[from[c]]);
                assert(want[from[c]].session_id == views[from[c]].session_id);
                assert(last[want[from[c]].session_id] == want[from[c]]);
                assert(before[views[from[c]].session_id] == views[from[c]]);
            }
            assert forall|k: u128| #[trigger]
                last.contains_key(k) && last[k] != before[k] implies exists|c: int|
                0 <= c < list.len() && (#[trigger] list[c]).session_id == k by {
                let j = choose|j: int| 0 <= j < want.len() && (#[trigger] want[j]).session_id == k;
                assert(last[want[j].session_id] == want[j]);
                assert(before[views[j].session_id] == views[j]);
                assert(want[j] != views[j]);
                let c = choose|c: int| 0 <= c < from.len() && #[trigger] from[c] == j;
                assert(list[c].session_id == k);
            }
            assert forall|a: int, b: int| 0 <= a < b < list.len() implies (
            #[trigger] list[a]).session_id != (#[trigger] list[b]).session_id by {
                assert(from[a] < from[b]);
                assert(list[a] == want[from[a]] && list[b] == want[from[b]]);
                assert(want[from[a]].session_id != want[from[b]].session_id);
            }
        }
        self.rows = rows;
        changed
    }

    /// The live rows in the order in which they are shown.
    pub fn rows_at(&self, now: i128) -> (r: Vec<Row>)
        requires
            now >= i128::MIN + ARCHIVE_AFTER,
        ensures
            is_listing(row_views(r@), self@, now),
            keyed(self@),
    {
        proof {
            use_type_invariant(self);
            lemma_by_session(row_views(self.rows@));
        }
        let cutoff = now - ARCHIVE_AFTER;
        let ghost views = row_views(self.rows@);
        let mut out: Vec<Row> = Vec::new();
        let mut i: usize = 0;
        while i < self.rows.len()
            invariant
                i <= self.rows@.len(),
                views == row_views(self.rows@),
                distinct(views),
                cutoff == now - ARCHIVE_AFTER,
                in_order(row_views(out@)),
                are_live_of(row_views(out@), views, i as int, now),
            decreases self.rows@.len() - i,
        {
            assert(views[i as int] == self.rows@[i as int]@);
            if self.rows[i].updated_at > cutoff {
                let ghost had = row_views(out@);
                let at = place(&out, &self.rows[i]);
                out.insert(at, self.rows[i].copy());
                proof {
                    assert(row_views(out@) =~= had.insert(at as int, views[i as int]));
                    lemma_insert_in_order(had, at as int, views[i as int]);
                    lemma_insert_live(had, at as int, views, i as int, now);
                }
            } else {
                proof {
                    lemma_skip_dead(row_views(out@), views, i as int, now);
                }
            }
            i += 1;
        }
        proof {
            lemma_listing(row_views(out@), views, now);
        }
        out
    }

    /// The live rows in the order in which they are shown now.
    pub fn rows(&self) -> (r: Vec<Row>)
        ensures
            exists|now: i128|
                0 <= now <= clock::LAST_TIME && #[trigger] is_listing(row_views(r@), self@, now),
            keyed(self@),
    {
        let now = clock::now();
        let r = self.rows_at(now);
        assert(is_listing(row_views(r@), self@, now));
        r
    }

    /// Drops the archived rows and says how many there were.
    pub fn prune_at(&mut self, now: i128) -> (r: usize)
        requires
            now >= i128::MIN + ARCHIVE_AFTER,
        ensures
            final(self)@ == live_rows(old(self)@, now),
            r == old(self)@.len() - final(self)@.len(),
            keyed(final(self)@),
    {
        proof {
            use_type_invariant(&*self);
            lemma_by_session(row_views(self.rows@));
        }
        let cutoff = now - ARCHIVE_AFTER;
        let ghost before = self@;
        let ghost views = row_views(self.rows@);
        let mut rows: Vec<Row> = Vec::new();
        std::mem::swap(&mut rows, &mut self.rows);
        let count = rows.len();
        let mut kept: Vec<Row> = Vec::new();
        let mut i: usize = 0;
        while i < rows.len()
            invariant
                i <= rows@.len(),
                views == row_views(rows@),
                distinct(views),
                cutoff == now - ARCHIVE_AFTER,
                kept@.len() <= i,
                are_live_of(row_views(kept@), views, i as int, now),
            decreases rows@.len() - i,
        {
            assert(views[i as int] == rows@[i as int]@);
            if rows[i].updated_at > cutoff {
                let ghost had = row_views(kept@);
                kept.push(rows[i].copy());
                proof {
                    assert(row_views(kept@) =~= had.insert(had.len() as int, views[i as int]));
                    lemma_insert_live(had, had.len() as int, views, i as int, now);
                }
            } else {
                proof {
                    lemma_skip_dead(row_views(kept@), views, i as int, now);
                }
            }
            i += 1;
        }
        let gone = count - kept.len();
        proof {
            let after = row_views(kept@);
            lemma_kept_map(after, views, now);
            lemma_by_session(after);
            lemma_by_session(views);
        }
        self.rows = kept;
        gone
    }

    /// Drops the rows that are archived now and says how many there were.
    pub fn prune(&mut self) -> (r: usize)
        ensures
            exists|now: i128|
                0 <= now <= clock::LAST_TIME && final(self)@ == #[trigger] live_rows(
                    old(self)@,
                    now,
                ),
            r == old(self)@.len() - final(self)@.len(),
            keyed(final(self)@),
    {
        let ghost before = self@;
        let now = clock::now();
        let r = self.prune_at(now);
        assert(self@ == live_rows(before, now));
        r
    }
}

// ---------------------------------------------------------------------------
// Proofs about lists of rows
// ---------------------------------------------------------------------------

/// Replacing a row by another of the same session.
proof fn lemma_replaced(views: Seq<RowView>, i: int, row: RowView)
    requires
        distinct(views),
        0 <= i < views.len(),
        row.session_id == views[i].session_id,
    ensures
        distinct(views.update(i, row)),
        by_session(views.update(i, row)) == by_session(views).insert(row.session_id, row),
{
    let after = views.update(i, row);
    lemma_by_session(views);
    assert forall|a: int, b: int| 0 <= a < b < after.len() implies (
    #[trigger] after[a]).session_id != (#[trigger] after[b]).session_id by {
        assert(after[a].session_id == views[a].session_id);
        assert(after[b].session_id == views[b].session_id);
    }
    let m = by_session(views).insert(row.session_id, row);
    assert forall|j: int| 0 <= j < after.len() implies m.contains_key(
        (#[trigger] after[j]).session_id,
    ) && m[after[j].session_id] == after[j] by {
        if j != i {
            assert(after[j] == views[j]);
            if j < i {
                assert(views[j].session_id != views[i].session_id);
            } else {
                assert(views[i].session_id != views[j].session_id);
            }
        }
    }
    assert forall|k: u128| #[trigger] m.contains_key(k) implies exists|j: int|
        0 <= j < after.len() && (#[trigger] after[j]).session_id == k by {
        if k == row.session_id {
            assert(after[i].session_id == k);
        } else {
            let j = choose|j: int| 0 <= j < views.len() && (#[trigger] views[j]).session_id == k;
            assert(after[j].session_id == k);
        }
    }
    lemma_same_map(after, m);
}

/// Laying states over every row of a list.
proof fn lemma_overlay(
    views: Seq<RowView>,
    want: Seq<RowView>,
    session: Seq<char>,
    states: Seq<(Seq<char>, AgentState)>,
)
    requires
        distinct(views),
        want.len() == views.len(),
        forall|i: int|
            0 <= i < want.len() ==> #[trigger] want[i] == overlaid(views[i], session, states),
    ensures
        distinct(want),
        by_session(want) == all_overlaid(by_session(views), session, states),
{
    lemma_by_session(views);
    assert forall|a: int, b: int| 0 <= a < b < want.len() implies (
    #[trigger] want[a]).session_id != (#[trigger] want[b]).session_id by {
        assert(views[a].session_id != views[b].session_id);
    }
    let m = all_overlaid(by_session(views), session, states);
    assert forall|j: int| 0 <= j < want.len() implies m.contains_key(
        (#[trigger] want[j]).session_id,
    ) && m[want[j].session_id] == want[j] by {
        assert(by_session(views).contains_key(views[j].session_id));
    }
    assert forall|k: u128| #[trigger] m.contains_key(k) implies exists|j: int|
        0 <= j < want.len() && (#[trigger] want[j]).session_id == k by {
        assert(by_session(views).contains_key(k));
        let j = choose|j: int| 0 <= j < views.len() && (#[trigger] views[j]).session_id == k;
        assert(want[j].session_id == k);
    }
    lemma_same_map(want, m);
}

/// No row stands below one that it should stand above.
spec fn in_order(list: Seq<RowView>) -> bool {
    forall|i: int, j: int|
        0 <= i < j < list.len() ==> !above(#[trigger] list[j], #[trigger] list[i])
}

/// A list has the live rows among the first `n` of another, each once.
spec fn are_live_of(list: Seq<RowView>, views: Seq<RowView>, n: int, now: i128) -> bool {
    &&& distinct(list)
    &&& forall|x: RowView| #[trigger]
        list.contains(x) <==> views.take(n).contains(x) && is_live(x, now)
}

proof fn lemma_contains_insert(s: Seq<RowView>, at: int, v: RowView, x: RowView)
    requires
        0 <= at <= s.len(),
    ensures
        s.insert(at, v).contains(x) <==> s.contains(x) || x == v,
{
    let t = s.insert(at, v);
    if s.contains(x) {
        let i = s.index_of(x);
        let k = if i < at {
            i
        } else {
            i + 1
        };
        assert(t[k] == x);
    }
    if x == v {
        assert(t[at] == x);
    }
    if t.contains(x) && x != v {
        let k = t.index_of(x);
        let i = if k < at {
            k
        } else {
            k - 1
        };
        assert(s[i] == x);
    }
}

proof fn lemma_contains_take(s: Seq<RowView>, n: int, x: RowView)
    requires
        0 <= n < s.len(),
    ensures
        s.take(n + 1).contains(x) <==> s.take(n).contains(x) || x == s[n],
{
    assert(s.take(n + 1) =~= s.take(n).insert(n, s[n]));
    lemma_contains_insert(s.take(n), n, s[n], x);
}

proof fn lemma_distinct_insert(s: Seq<RowView>, at: int, v: RowView)
    requires
        distinct(s),
        0 <= at <= s.len(),
        forall|x: RowView| #[trigger] s.contains(x) ==> x.session_id != v.session_id,
    ensures
        distinct(s.insert(at, v)),
{
    let t = s.insert(at, v);
    assert forall|a: int, b: int| 0 <= a < b < t.len() implies (#[trigger] t[a]).session_id != (
    #[trigger] t[b]).session_id by {
        if a == at {
            assert(t[b] == s[b - 1]);
            assert(s.contains(s[b - 1]));
        } else if b == at {
            assert(t[a] == s[a]);
            assert(s.contains(s[a]));
        } else {
            let oa = if a < at {
                a
            } else {
                a - 1
            };
            let ob = if b < at {
                b
            } else {
                b - 1
            };
            assert(t[a] == s[oa] && t[b] == s[ob]);
        }
    }
}

proof fn lemma_insert_live(
    had: Seq<RowView>,
    at: int,
    views: Seq<RowView>,
    n: int,
    now: i128,
)
    requires
        distinct(views),
        0 <= n < views.len(),
        0 <= at <= had.len(),
        are_live_of(had, views, n, now),
        is_live(views[n], now),
    ensures
        are_live_of(had.insert(at, views[n]), views, n + 1, now),
{
    let list = had.insert(at, views[n]);
    assert forall|x: RowView| #[trigger] had.contains(x) implies x.session_id
        != views[n].session_id by {
        assert(views.take(n).contains(x));
        let j = views.take(n).index_of(x);
        assert(views[j] == x);
    }
    lemma_distinct_insert(had, at, views[n]);
    assert forall|x: RowView| #[trigger] list.contains(x) <==> views.take(n + 1).contains(x)
        && is_live(x, now) by {
        lemma_contains_insert(had, at, views[n], x);
        lemma_contains_take(views, n, x);
        assert(had.contains(x) <==> views.take(n).contains(x) && is_live(x, now));
    }
}

proof fn lemma_skip_dead(list: Seq<RowView>, views: Seq<RowView>, n: int, now: i128)
    requires
        0 <= n < views.len(),
        are_live_of(list, views, n, now),
        !is_live(views[n], now),
    ensures
        are_live_of(list, views, n + 1, now),
{
    assert forall|x: RowView| #[trigger] list.contains(x) <==> views.take(n + 1).contains(x)
        && is_live(x, now) by {
        lemma_contains_take(views, n, x);
    }
}

/// A list that has the live rows of another has them by position.
proof fn lemma_live_positions(list: Seq<RowView>, views: Seq<RowView>, now: i128)
    requires
        are_live_of(list, views, views.len() as int, now),
    ensures
        forall|i: int|
            0 <= i < list.len() ==> is_live(#[trigger] list[i], now) && exists|j: int|
                0 <= j < views.len() && #[trigger] views[j] == list[i],
        forall|j: int|
            0 <= j < views.len() && is_live(#[trigger] views[j], now) ==> exists|i: int|
                0 <= i < list.len() && #[trigger] list[i] == views[j],
{
    assert(views.take(views.len() as int) =~= views);
    assert forall|i: int| 0 <= i < list.len() implies is_live(#[trigger] list[i], now) && exists|
        j: int,
    |
        0 <= j < views.len() && #[trigger] views[j] == list[i] by {
        assert(list.contains(list[i]));
        assert(views[views.index_of(list[i])] == list[i]);
    }
    assert forall|j: int| 0 <= j < views.len() && is_live(#[trigger] views[j], now) implies exists|
        i: int,
    |
        0 <= i < list.len() && #[trigger] list[i] == views[j] by {
        assert(views.contains(views[j]));
        assert(list.contains(views[j]));
        assert(list[list.index_of(views[j])] == views[j]);
    }
}

proof fn lemma_insert_in_order(had: Seq<RowView>, at: int, row: RowView)
    requires
        in_order(had),
        0 <= at <= had.len(),
        forall|j: int| 0 <= j < at ==> !above(row, #[trigger] had[j]),
        at < had.len() ==> above(row, had[at]),
    ensures
        in_order(had.insert(at, row)),
{
    let list = had.insert(at, row);
    assert forall|i: int, j: int| 0 <= i < j < list.len() implies !above(
        #[trigger] list[j],
        #[trigger] list[i],
    ) by {
        if i < at && j < at {
            assert(list[i] == had[i] && list[j] == had[j]);
        } else if j == at {
            assert(list[i] == had[i]);
        } else if i == at {
            assert(list[j] == had[j - 1]);
            if j - 1 > at {
                assert(!above(had[j - 1], had[at]));
            }
        } else if i < at {
            assert(list[i] == had[i] && list[j] == had[j - 1]);
        } else {
            assert(list[i] == had[i - 1] && list[j] == had[j - 1]);
        }
    }
}

/// Where a row goes in an ordered list.
fn place(list: &Vec<Row>, row: &Row) -> (r: usize)
    ensures
        r <= list@.len(),
        forall|j: int| 0 <= j < r ==> !above(row@, #[trigger] row_views(list@)[j]),
        r < list@.len() ==> above(row@, row_views(list@)[r as int]),
{
    let mut i: usize = 0;
    while i < list.len()
        invariant
            i <= list@.len(),
            forall|j: int| 0 <= j < i ==> !above(row@, #[trigger] row_views(list@)[j]),
        decreases list@.len() - i,
    {
        let other = &list[i];
        let mine = row.category == Category::ApprovalRequired;
        let theirs = other.category == Category::ApprovalRequired;
        let goes_above = if mine == theirs {
            row.updated_at > other.updated_at
        } else {
            mine
        };
        assert(row_views(list@)[i as int] == other@);
        if goes_above {
            return i;
        }
        i += 1;
    }
    i
}

proof fn lemma_listing(list: Seq<RowView>, views: Seq<RowView>, now: i128)
    requires
        distinct(views),
        in_order(list),
        are_live_of(list, views, views.len() as int, now),
    ensures
        is_listing(list, by_session(views), now),
{
    let rows = by_session(views);
    lemma_by_session(views);
    lemma_live_positions(list, views, now);
    assert forall|i: int| 0 <= i < list.len() implies rows.contains_key(
        (#[trigger] list[i]).session_id,
    ) && rows[list[i].session_id] == list[i] && is_live(list[i], now) by {
        let j = choose|j: int| 0 <= j < views.len() && #[trigger] views[j] == list[i];
        assert(rows.contains_key(views[j].session_id));
    }
    assert forall|k: u128| #[trigger]
        rows.contains_key(k) && is_live(rows[k], now) implies exists|i: int|
        0 <= i < list.len() && (#[trigger] list[i]).session_id == k by {
        let j = choose|j: int| 0 <= j < views.len() && (#[trigger] views[j]).session_id == k;
        assert(rows[views[j].session_id] == views[j]);
        let i = choose|i: int| 0 <= i < list.len() && #[trigger] list[i] == views[j];
        assert(list[i].session_id == k);
    }
}

proof fn lemma_kept_map(list: Seq<RowView>, views: Seq<RowView>, now: i128)
    requires
        distinct(views),
        are_live_of(list, views, views.len() as int, now),
    ensures
        by_session(list) == live_rows(by_session(views), now),
{
    let rows = by_session(views);
    lemma_by_session(views);
    lemma_live_positions(list, views, now);
    let m = live_rows(rows, now);
    assert forall|i: int| 0 <= i < list.len() implies m.contains_key(
        (#[trigger] list[i]).session_id,
    ) && m[list[i].session_id] == list[i] by {
        let j = choose|j: int| 0 <= j < views.len() && #[trigger] views[j] == list[i];
        assert(rows.contains_key(views[j].session_id));
    }
    assert forall|k: u128| #[trigger] m.contains_key(k) implies exists|i: int|
        0 <= i < list.len() && (#[trigger] list[i]).session_id == k by {
        assert(rows.contains_key(k));
        let j = choose|j: int| 0 <= j < views.len() && (#[trigger] views[j]).session_id == k;
        assert(rows[views[j].session_id] == views[j]);
        let i = choose|i: int| 0 <= i < list.len() && #[trigger] list[i] == views[j];
        assert(list[i].session_id == k);
    }
    lemma_same_map(list, m);
}

// ---------------------------------------------------------------------------
// Laws
// ---------------------------------------------------------------------------

/// An event adds a row only for a session that has none: a second event of a
/// session updates its row, which shows the later event, and what that event
/// leaves unsaid of usage, context and terminal stays.
pub proof fn law_one_row_per_session(
    rows: Map<u128, RowView>,
    a: EventView,
    b: EventView,
    t1: i128,
    t2: i128,
)
    requires
        a.session_id == b.session_id,
    ensures
        ({
            let first = folded(rows, a, t1);
            let once = rows.insert(a.session_id, first);
            let row = folded(once, b, t2);
            let twice = once.insert(b.session_id, row);
            &&& twice.dom() == rows.dom().insert(a.session_id)
            &&& row.title == b.title && row.category == b.category && row.updated_at == t2
            &&& b.usage.len() == 0 ==> row.usage == first.usage
            &&& b.context_remaining is None ==> row.context_remaining == first.context_remaining
            &&& b.terminal is None ==> row.terminal == first.terminal
            &&& row.resolution is None
        }),
{
    let once = rows.insert(a.session_id, folded(rows, a, t1));
    let twice = once.insert(b.session_id, folded(once, b, t2));
    assert(twice.dom() =~= rows.dom().insert(a.session_id));
}

/// Whatever is done to an inbox, each row stays under its own session: folding an
/// event in, answering an approval, laying Herdr's states over the rows and dropping
/// those that are archived.
pub proof fn law_rows_stay_under_their_session(
    rows: Map<u128, RowView>,
    e: EventView,
    now: i128,
    k: u128,
    allow: bool,
    session: Seq<char>,
    states: Seq<(Seq<char>, AgentState)>,
)
    requires
        keyed(rows),
    ensures
        folded(rows, e, now).session_id == e.session_id,
        keyed(rows.insert(e.session_id, folded(rows, e, now))),
        rows.contains_key(k) ==> keyed(rows.insert(k, answered(rows[k], allow))),
        keyed(all_overlaid(rows, session, states)),
        keyed(live_rows(rows, now)),
{
}

/// In a listing no row that waits for an approval comes after one that does not.
pub proof fn law_approvals_come_first(
    list: Seq<RowView>,
    rows: Map<u128, RowView>,
    now: i128,
    i: int,
    j: int,
)
    requires
        is_listing(list, rows, now),
        0 <= i < j < list.len(),
        list[j].category == Category::ApprovalRequired,
    ensures
        list[i].category == Category::ApprovalRequired,
{
    assert(!above(list[j], list[i]));
}

/// Pruning hides nothing that was shown: what is listed before is listed after.
pub proof fn law_prune_keeps_the_listing(
    list: Seq<RowView>,
    rows: Map<u128, RowView>,
    now: i128,
)
    requires
        is_listing(list, rows, now),
    ensures
        is_listing(list, live_rows(rows, now), now),
{
    let m = live_rows(rows, now);
    assert forall|k: u128| #[trigger] m.contains_key(k) && is_live(m[k], now) implies exists|i: int|
        0 <= i < list.len() && (#[trigger] list[i]).session_id == k by {
        assert(rows.contains_key(k) && is_live(rows[k], now));
    }
}

/// Laying the same states over the rows again changes nothing.
pub proof fn law_overlay_is_idempotent(
    rows: Map<u128, RowView>,
    session: Seq<char>,
    states: Seq<(Seq<char>, AgentState)>,
)
    ensures
        all_overlaid(all_overlaid(rows, session, states), session, states) == all_overlaid(
            rows,
            session,
            states,
        ),
{
    let once = all_overlaid(rows, session, states);
    assert forall|k: u128| #[trigger] once.contains_key(k) implies overlaid(
        once[k],
        session,
        states,
    ) == once[k] by {
        assert(pane_state(once[k], session, states) == pane_state(rows[k], session, states));
    }
    assert(all_overlaid(once, session, states) =~= once);
}

} // verus!
