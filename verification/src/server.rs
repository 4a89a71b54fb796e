//! One connection to the daemon's hook socket, as a machine: from where the
//! connection stands and what happened to what it does next.

use crate::events::EventView;
use crate::inbox::{
    answered, folded, is_listing, row_views, Inbox, Row, RowView, ARCHIVE_AFTER,
};
use crate::ipc::{ClientMessage, ServerMessage, ServerView};
use crate::pending::{Pending, PendingView, Slot};
use crate::text;
use vstd::prelude::*;

verus! {

/// What a late or mistaken answer is told.
pub const NO_APPROVAL: &'static str =
    "no approval is waiting on that id (already answered, or it timed out)";

/// Where a connection stands.
#[derive(Debug, Clone, Copy, PartialEq, Eq, Structural)]
pub enum Phase {
    /// It waits for the client's next message.
    Reading,
    /// Its hook waits for an answer.
    Parked { id: u128, ticket: usize },
    /// Its client follows the rows.
    Following,
    /// It is over.
    Done,
}

/// What happened on a connection.
#[derive(Debug, PartialEq)]
pub enum Input {
    /// The client sent a message.
    Message(ClientMessage),
    /// The client sent a line that is blank or no message.
    Noise,
    /// Something may have become of the ticket that the hook waits on.
    Wake,
    /// A row was published.
    Published(Row),
    /// The client is gone, or the rows can no longer be followed.
    Closed,
}

/// What a connection does.
#[derive(Debug, PartialEq)]
pub enum Action {
    /// Start to collect published rows.
    Subscribe,
    /// Hand a row to everybody who follows.
    Publish(Row),
    /// Hand a new row to the daemon: it logs it, and may push it to the phone.
    Note(Row),
    /// Send a reply.
    Send(ServerMessage),
}

/// An action as the contracts speak of it.
pub enum ActionView {
    Subscribe,
    Publish(RowView),
    Note(RowView),
    Send(ServerView),
}

impl View for Action {
    type V = ActionView;

    open spec fn view(&self) -> ActionView {
        match *self {
            Action::Subscribe => ActionView::Subscribe,
            Action::Publish(row) => ActionView::Publish(row@),
            Action::Note(row) => ActionView::Note(row@),
            Action::Send(m) => ActionView::Send(m@),
        }
    }
}

/// The views of a list of actions.
pub open spec fn action_views(v: Seq<Action>) -> Seq<ActionView> {
    Seq::new(v.len(), |i: int| v[i]@)
}

/// The replies that show a list of rows.
pub open spec fn shown_rows(list: Seq<RowView>) -> Seq<ActionView> {
    Seq::new(list.len(), |i: int| ActionView::Send(ServerView::Row { row: list[i] }))
}

/// All that a step reads and changes.
pub struct World {
    pub phase: Phase,
    pub inbox: Map<u128, RowView>,
    pub pending: PendingView,
}

/// A reported event is folded in and shown; a hook that asks for a decision is
/// parked, unless its event has nothing that could be answered.
pub open spec fn event_step(w: World, e: EventView, waits: bool, now: i128) -> (
    World,
    Seq<ActionView>,
) {
    let row = folded(w.inbox, e, now);
    let inbox = w.inbox.insert(e.session_id, row);
    let told = seq![ActionView::Publish(row), ActionView::Note(row)];
    if !waits {
        (World { inbox, ..w }, told)
    } else {
        match e.pending_action_id {
            Some(id) => {
                let pending = w.pending.registered(id);
                (
                    World { phase: Phase::Parked { id, ticket: pending.waiting[id] }, inbox, pending },
                    told,
                )
            },
            None => (World { inbox, ..w }, told.push(ActionView::Send(ServerView::NoDecision))),
        }
    }
}

/// An answer reaches the hook that waits for it, and the client learns whether
/// there was one.
pub open spec fn decision_step(w: World, id: u128, allow: bool) -> (World, Seq<ActionView>) {
    let ok = w.pending.can_answer(id);
    (
        World { pending: w.pending.resolved(id, allow), ..w },
        seq![
            ActionView::Send(
                ServerView::Ack {
                    ok,
                    error: if ok {
                        None
                    } else {
                        Some(NO_APPROVAL@)
                    },
                },
            ),
        ],
    )
}

/// A parked hook hears of its answer, and a row that waited for it is marked and
/// shown; without an answer it hears that there is none.
pub open spec fn is_wake_step(
    w: World,
    id: u128,
    ticket: usize,
    next: World,
    actions: Seq<ActionView>,
) -> bool {
    match w.pending.slot(ticket) {
        Slot::Waiting => next == w && actions == Seq::<ActionView>::empty(),
        Slot::Answered(allow) => {
            let reply = ActionView::Send(ServerView::Decision { allow });
            &&& next.phase == Phase::Reading
            &&& next.pending == w.pending
            &&& {
                ||| (next.inbox == w.inbox && actions == seq![reply] && forall|k: u128| #[trigger]
                    w.inbox.contains_key(k) ==> w.inbox[k].pending_action_id != Some(id))
                ||| exists|k: u128| #[trigger]
                    w.inbox.contains_key(k) && w.inbox[k].pending_action_id == Some(id)
                        && next.inbox == w.inbox.insert(k, answered(w.inbox[k], allow)) && actions
                        == seq![ActionView::Publish(answered(w.inbox[k], allow)), reply]
            }
        },
        _ => next == (World { phase: Phase::Reading, ..w }) && actions == seq![
            ActionView::Send(ServerView::NoDecision),
        ],
    }
}

/// A client gets the rows as they are; collecting starts before, so that a row in
/// between comes late and not never.
pub open spec fn is_subscribe_step(
    w: World,
    once: bool,
    now: i128,
    next: World,
    actions: Seq<ActionView>,
) -> bool {
    &&& next == (World {
        phase: if once {
            Phase::Done
        } else {
            Phase::Following
        },
        ..w
    })
    &&& exists|list: Seq<RowView>| #[trigger]
        is_listing(list, w.inbox, now) && actions == seq![ActionView::Subscribe] + shown_rows(list)
}

/// What a connection does, from where it stands and what happened. What does not
/// concern a phase leaves everything as it is.
pub open spec fn is_step(
    w: World,
    input: Input,
    now: i128,
    next: World,
    actions: Seq<ActionView>,
) -> bool {
    match w.phase {
        Phase::Reading => match input {
            Input::Message(ClientMessage::Event { event, await_decision }) => (next, actions)
                == event_step(w, event@, await_decision, now),
            Input::Message(ClientMessage::Decision { pending_action_id, allow }) => (next, actions)
                == decision_step(w, pending_action_id, allow),
            Input::Message(ClientMessage::Subscribe { once }) => is_subscribe_step(
                w,
                once,
                now,
                next,
                actions,
            ),
            Input::Closed => next == (World { phase: Phase::Done, ..w }) && actions == Seq::<
                ActionView,
            >::empty(),
            _ => next == w && actions == Seq::<ActionView>::empty(),
        },
        Phase::Parked { id, ticket } => match input {
            Input::Wake => is_wake_step(w, id, ticket, next, actions),
            Input::Closed => next == (World {
                phase: Phase::Done,
                pending: w.pending.abandoned(ticket),
                ..w
            }) && actions == Seq::<ActionView>::empty(),
            _ => next == w && actions == Seq::<ActionView>::empty(),
        },
        Phase::Following => match input {
            Input::Published(row) => next == w && actions == seq![
                ActionView::Send(ServerView::Row { row: row@ }),
            ],
            Input::Closed => next == (World { phase: Phase::Done, ..w }) && actions == Seq::<
                ActionView,
            >::empty(),
            _ => next == w && actions == Seq::<ActionView>::empty(),
        },
        Phase::Done => next == w && actions == Seq::<ActionView>::empty(),
    }
}

/// Whether a line is to be passed over: it is blank.
pub fn is_blank(line: &str) -> (r: bool)
    ensures
        r == (text::trimmed(line@).len() == 0),
{
    text::trim(line).as_str().is_empty()
}

fn push_action(v: &mut Vec<Action>, a: Action)
    ensures
        action_views(final(v)@) == action_views(old(v)@).push(a@),
{
    let ghost before = v@;
    v.push(a);
    assert(action_views(v@) =~= action_views(before).push(a@));
}

fn one(a: Action) -> (r: Vec<Action>)
    ensures
        action_views(r@) == seq![a@],
{
    let mut v: Vec<Action> = Vec::new();
    v.push(a);
    assert(action_views(v@) =~= seq![a@]);
    v
}

fn report(inbox: &mut Inbox, event: &crate::events::Event, now: i128) -> (r: Vec<Action>)
    ensures
        final(inbox)@ == old(inbox)@.insert(
            event.session_id,
            folded(old(inbox)@, event@, now),
        ),
        action_views(r@) == seq![
            ActionView::Publish(folded(old(inbox)@, event@, now)),
            ActionView::Note(folded(old(inbox)@, event@, now)),
        ],
{
    let row = inbox.apply_at(event, now);
    let mut actions: Vec<Action> = Vec::new();
    assert(action_views(actions@) =~= Seq::empty());
    push_action(&mut actions, Action::Publish(row.copy()));
    push_action(&mut actions, Action::Note(row));
    assert(action_views(actions@) =~= seq![
        ActionView::Publish(row@),
        ActionView::Note(row@),
    ]);
    actions
}

fn snapshot(inbox: &Inbox, now: i128) -> (r: Vec<Action>)
    requires
        now >= i128::MIN + ARCHIVE_AFTER,
    ensures
        exists|list: Seq<RowView>| #[trigger]
            is_listing(list, inbox@, now) && action_views(r@) == seq![ActionView::Subscribe]
                + shown_rows(list),
{
    let rows = inbox.rows_at(now);
    let ghost list = row_views(rows@);
    let mut actions: Vec<Action> = Vec::new();
    assert(action_views(actions@) =~= Seq::empty());
    push_action(&mut actions, Action::Subscribe);
    let mut i: usize = 0;
    while i < rows.len()
        invariant
            i <= rows@.len(),
            list == row_views(rows@),
            action_views(actions@) =~= seq![ActionView::Subscribe] + shown_rows(
                list.take(i as int),
            ),
        decreases rows@.len() - i,
    {
        assert(shown_rows(list.take(i + 1)) =~= shown_rows(list.take(i as int)).push(
            ActionView::Send(ServerView::Row { row: list[i as int] }),
        ));
        push_action(&mut actions, Action::Send(ServerMessage::Row { row: rows[i].copy() }));
        i += 1;
    }
    assert(list.take(list.len() as int) =~= list);
    actions
}

/// Looks at what has become of the ticket that a parked hook waits on.
fn wake(id: u128, ticket: usize, inbox: &mut Inbox, pending: &Pending) -> (r: (
    Phase,
    Vec<Action>,
))
    ensures
        is_wake_step(
            World { phase: Phase::Parked { id, ticket }, inbox: old(inbox)@, pending: pending@ },
            id,
            ticket,
            World { phase: r.0, inbox: final(inbox)@, pending: pending@ },
            action_views(r.1@),
        ),
{
    match pending.poll(ticket) {
        Slot::Waiting => {
            let none: Vec<Action> = Vec::new();
            assert(action_views(none@) =~= Seq::empty());
            (Phase::Parked { id, ticket }, none)
        },
        Slot::Answered(allow) => {
            let ghost before = inbox@;
            let reply = Action::Send(ServerMessage::Decision { allow });
            match inbox.resolve(id, allow) {
                Some(row) => {
                    let ghost k = row.session_id;
                    let ghost shown = row@;
                    assert(before.contains_key(k));
                    let mut actions = one(Action::Publish(row));
                    push_action(&mut actions, reply);
                    assert(action_views(actions@) =~= seq![ActionView::Publish(shown), reply@]);
                    (Phase::Reading, actions)
                },
                None => (Phase::Reading, one(reply)),
            }
        },
        _ => (Phase::Reading, one(Action::Send(ServerMessage::NoDecision))),
    }
}

/// Takes one step of a connection.
pub fn step(
    phase: Phase,
    input: Input,
    inbox: &mut Inbox,
    pending: &mut Pending,
    now: i128,
) -> (r: (Phase, Vec<Action>))
    requires
        now >= i128::MIN + ARCHIVE_AFTER,
    ensures
        is_step(
            World { phase, inbox: old(inbox)@, pending: old(pending)@ },
            input,
            now,
            World { phase: r.0, inbox: final(inbox)@, pending: final(pending)@ },
            action_views(r.1@),
        ),
{
    let none: Vec<Action> = Vec::new();
    assert(action_views(none@) =~= Seq::empty());
    match phase {
        Phase::Reading => match input {
            Input::Message(ClientMessage::Event { event, await_decision }) => {
                let mut actions = report(inbox, &event, now);
                if !await_decision {
                    return (Phase::Reading, actions);
                }
                match event.pending_action_id {
                    Some(id) => {
                        let ticket = pending.register(id);
                        (Phase::Parked { id, ticket }, actions)
                    },
                    None => {
                        push_action(&mut actions, Action::Send(ServerMessage::NoDecision));
                        (Phase::Reading, actions)
                    },
                }
            },
            Input::Message(ClientMessage::Decision { pending_action_id, allow }) => {
                let ok = pending.resolve(pending_action_id, allow);
                let error = if ok {
                    None
                } else {
                    Some(text::owned(NO_APPROVAL))
                };
                (Phase::Reading, one(Action::Send(ServerMessage::Ack { ok, error })))
            },
            Input::Message(ClientMessage::Subscribe { once }) => {
                let actions = snapshot(inbox, now);
                (
                    if once {
                        Phase::Done
                    } else {
                        Phase::Following
                    },
                    actions,
                )
            },
            Input::Closed => (Phase::Done, none),
            _ => (phase, none),
        },
        Phase::Parked { id, ticket } => match input {
            Input::Wake => wake(id, ticket, inbox, pending),
            Input::Closed => {
                pending.abandon(ticket);
                (Phase::Done, none)
            },
            _ => (phase, none),
        },
        Phase::Following => match input {
            Input::Published(row) => {
                (phase, one(Action::Send(ServerMessage::Row { row })))
            },
            Input::Closed => (Phase::Done, none),
            _ => (phase, none),
        },
        Phase::Done => (phase, none),
    }
}

// ---------------------------------------------------------------------------
// Laws
// ---------------------------------------------------------------------------

/// A hook is sent a decision only where its ticket was explicitly answered, and
/// it is sent that answer: no failure ever reads as a decision.
pub proof fn law_no_decision_without_an_answer(
    w: World,
    input: Input,
    now: i128,
    next: World,
    actions: Seq<ActionView>,
    i: int,
    allow: bool,
)
    requires
        is_step(w, input, now, next, actions),
        0 <= i < actions.len(),
        actions[i] == ActionView::Send(ServerView::Decision { allow }),
    ensures
        w.phase matches Phase::Parked { id, ticket } && w.pending.slot(ticket) == Slot::Answered(
            allow,
        ),
{
    if let Phase::Reading = w.phase {
        if let Input::Message(ClientMessage::Subscribe { once }) = input {
            let list = choose|list: Seq<RowView>| #[trigger]
                is_listing(list, w.inbox, now) && actions == seq![ActionView::Subscribe]
                    + shown_rows(list);
            if i > 0 {
                assert(actions[i] == shown_rows(list)[i - 1]);
            }
        }
    }
}

/// Whatever happens on a connection, the registry of waiting approvals stays
/// consistent.
pub proof fn law_steps_keep_the_registry_consistent(
    w: World,
    input: Input,
    now: i128,
    next: World,
    actions: Seq<ActionView>,
)
    requires
        is_step(w, input, now, next, actions),
        w.pending.consistent(),
        w.pending.slots.len() < usize::MAX,
    ensures
        next.pending.consistent(),
{
    if let Input::Message(ClientMessage::Event { event, .. }) = input {
        if let Some(id) = event.pending_action_id {
            crate::pending::lemma_registered(w.pending, id);
        }
    }
    if let Input::Message(ClientMessage::Decision { pending_action_id, allow }) = input {
        crate::pending::lemma_resolved(w.pending, pending_action_id, allow);
    }
    if let Phase::Parked { ticket, .. } = w.phase {
        crate::pending::lemma_abandoned(w.pending, ticket);
    }
}

} // verus!
