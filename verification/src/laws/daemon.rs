//! Laws of the daemon and of the hook that talks to it: what a hook reports and
//! prints, whom an answer reaches, and who is let in.

use crate::adapters::{adapter_named, decidable, normalized, rendered, ErrorView};
use crate::commands::event::{deadline_at, note_for, output_for, prepared, PreparedView, Reply};
use crate::config::Agent;
use crate::context::{ContextView, Kind};
use crate::events::{bare_event, Category, Event, EventView};
use crate::gateway::{admitted, scopes_asked};
use crate::inbox::{answered, folded, is_listing, Resolution, RowView};
use crate::ipc::{ClientMessage, ServerView};
use crate::json::{json_text, JsonTree};
use crate::pending::{lemma_registered, PendingView, Slot};
use crate::server::{
    decision_step, event_step, is_step, is_subscribe_step, is_wake_step, shown_rows, ActionView,
    Input, Phase, World,
};
use crate::text::decimal;
use crate::tree::text_field;
use vstd::prelude::*;

verus! {

// ---------------------------------------------------------------------------
// The hook
// ---------------------------------------------------------------------------

/// A wait ends that many seconds from now.
pub proof fn law_deadline(now: i128, wait_secs: u64)
    requires
        0 <= now,
        wait_secs <= 9_223_372_036_854_775,
        now + wait_secs * 1_000_000_000 <= 8_210_266_876_799_999_999_999,
    ensures
        deadline_at(now, wait_secs) == Some(now + wait_secs * 1_000_000_000),
{
}

/// A hook of an agent that is not known, or whose payload cannot be read, reports
/// nothing, and says why.
pub proof fn law_hook_says_why_it_skips(
    agent: Seq<char>,
    payload: JsonTree,
    remaining: Option<u32>,
    host_id: Seq<char>,
    terminal: ContextView,
    deadline: Option<i128>,
    event_id: u128,
    action_id: u128,
)
    ensures
        ({
            let r = prepared(
                agent,
                payload,
                remaining,
                host_id,
                terminal,
                deadline,
                event_id,
                action_id,
            );
            &&& adapter_named(agent) is None ==> r == (PreparedView::Skip {
                note: "sailor-hook event: no adapter for agent `"@ + agent + "` yet"@,
            })
            &&& adapter_named(agent) is Some && text_field(payload, "hook_event_name"@) is None
                ==> r == (PreparedView::Skip {
                note: "sailor-hook event: payload has no hook_event_name"@,
            })
        }),
{
    reveal_strlit("sailor-hook event: ");
    reveal_strlit("no adapter for agent `");
    reveal_strlit("sailor-hook event: no adapter for agent `");
    reveal_strlit("payload has no hook_event_name");
    reveal_strlit("sailor-hook event: payload has no hook_event_name");
    assert("sailor-hook event: "@ + ("no adapter for agent `"@ + agent + "` yet"@)
        =~= "sailor-hook event: no adapter for agent `"@ + agent + "` yet"@);
    assert("sailor-hook event: "@ + "payload has no hook_event_name"@
        =~= "sailor-hook event: payload has no hook_event_name"@);
}

/// A hook reports the agent's event as it is, from this host, with the terminal
/// where there is a multiplexer; it waits for an answer, and says until when, just
/// where there can be one.
pub proof fn law_hook_reports_the_event(
    agent: Seq<char>,
    payload: JsonTree,
    remaining: Option<u32>,
    host_id: Seq<char>,
    terminal: ContextView,
    deadline: Option<i128>,
    event_id: u128,
    action_id: u128,
    a: Agent,
    e: EventView,
)
    requires
        adapter_named(agent) == Some(a),
        normalized(a, payload, remaining, event_id, action_id) == Ok::<EventView, ErrorView>(e),
    ensures
        prepared(
            agent,
            payload,
            remaining,
            host_id,
            terminal,
            deadline,
            event_id,
            action_id,
        ) matches PreparedView::Report { event, await_decision, payload: kept } && {
            let answerable = (a == Agent::ClaudeCode || a == Agent::Codex || a == Agent::Qwen)
                && text_field(payload, "hook_event_name"@) == Some("PermissionRequest"@);
            &&& kept == payload
            &&& await_decision == answerable
            &&& event.host_id == host_id
            &&& event.expires_at == if answerable {
                deadline
            } else {
                None
            }
            &&& event.terminal == if terminal.kind == Kind::Bare {
                None
            } else {
                Some(terminal)
            }
            &&& event.category == e.category
            &&& event.source == e.source
            &&& event.session_id == e.session_id
            &&& event.project == e.project
            &&& event.title == e.title
            &&& event.message == e.message
            &&& event.event_id == e.event_id
            &&& event.pending_action_id == e.pending_action_id
            &&& event.usage == e.usage
            &&& event.context_remaining == e.context_remaining
        },
{
}

/// What the hook prints for the agent is the decision that came back, to a payload
/// that can be answered; it prints nothing where no decision came.
pub proof fn law_hook_prints_the_decision(
    agent: Seq<char>,
    payload: JsonTree,
    reply: Reply,
    a: Agent,
)
    requires
        adapter_named(agent) == Some(a),
        decidable(a, payload),
    ensures
        reply matches Reply::Message(m) && m@ == (ServerView::Decision { allow: true })
            ==> output_for(agent, payload, reply) == Some(json_text(rendered(a, payload, true))),
        reply matches Reply::Message(m) && m@ == (ServerView::Decision { allow: false })
            ==> output_for(agent, payload, reply) == Some(json_text(rendered(a, payload, false))),
        reply matches Reply::Message(m) && m@ == ServerView::NoDecision ==> output_for(
            agent,
            payload,
            reply,
        ) is None,
        reply is TimedOut || reply is Lost ==> output_for(agent, payload, reply) is None,
{
}

/// What the user is told where no decision came.
pub proof fn law_hook_says_why_it_falls_back(reply: Reply, wait_secs: u64)
    ensures
        reply matches Reply::Message(m) && m@ is Decision ==> note_for(reply, wait_secs) is None,
        reply matches Reply::Message(m) && m@ == ServerView::NoDecision ==> note_for(
            reply,
            wait_secs,
        ) == Some("sailor-hook event: no decision, falling back to the terminal prompt"@),
        reply is Lost ==> note_for(reply, wait_secs) == Some(
            "sailor-hook event: daemon closed the connection, falling back"@,
        ),
        reply is TimedOut ==> note_for(reply, wait_secs) == Some(
            "sailor-hook event: approval timed out after "@ + decimal(wait_secs as nat)
                + "s, falling back"@,
        ),
{
}

/// A wait that is longer than a time can tell has no deadline.
pub proof fn law_endless_wait(now: i128, wait_secs: u64)
    requires
        0 <= now,
        9_223_372_036_854_775 < wait_secs <= 0x7fff_ffff_ffff_ffff,
    ensures
        deadline_at(now, wait_secs) is None,
{
}

/// A number of seconds above the signed range is read as the negative number of the
/// same bits, so that its deadline lies in the past.
pub proof fn law_wrapped_wait(now: i128, back: u64)
    requires
        0 < back <= 9_223_372_036_854_775,
        0 <= now - back * 1_000_000_000,
        now <= 8_210_266_876_799_999_999_999,
    ensures
        deadline_at(now, (0x1_0000_0000_0000_0000 - back) as u64) == Some(
            now - back * 1_000_000_000,
        ),
{
}

/// A hook that the agent has and we do not handle is named.
pub proof fn law_hook_names_what_it_skips(
    a: Agent,
    agent: Seq<char>,
    payload: JsonTree,
    remaining: Option<u32>,
    host_id: Seq<char>,
    terminal: ContextView,
    deadline: Option<i128>,
    event_id: u128,
    action_id: u128,
    label: Seq<char>,
    hook: Seq<char>,
)
    requires
        adapter_named(agent) == Some(a),
        normalized(a, payload, remaining, event_id, action_id) == Err::<EventView, ErrorView>(
            ErrorView::Unhandled { label, hook },
        ),
    ensures
        prepared(
            agent,
            payload,
            remaining,
            host_id,
            terminal,
            deadline,
            event_id,
            action_id,
        ) == (PreparedView::Skip {
            note: "sailor-hook event: unhandled "@ + label + " `"@ + hook + "`"@,
        }),
{
    reveal_strlit("sailor-hook event: ");
    reveal_strlit("unhandled ");
    reveal_strlit("sailor-hook event: unhandled ");
    assert("sailor-hook event: "@ + ("unhandled "@ + label + " `"@ + hook + "`"@)
        =~= "sailor-hook event: unhandled "@ + label + " `"@ + hook + "`"@);
}

/// A fresh event says nothing but its kind, its source, its title and who it is.
pub proof fn law_bare_event(
    category: Category,
    source: Seq<char>,
    title: Seq<char>,
    session_id: u128,
    event_id: u128,
)
    ensures
        ({
            let e = bare_event(category, source, title, session_id, event_id);
            &&& e.category == category
            &&& e.source == source
            &&& e.title == title
            &&& e.session_id == session_id
            &&& e.event_id == event_id
            &&& e.host_id.len() == 0 && e.message.len() == 0 && e.usage.len() == 0
            &&& e.project is None && e.pending_action_id is None && e.expires_at is None
            &&& e.context_remaining is None && e.terminal is None
        }),
{
}

// ---------------------------------------------------------------------------
// The approvals that wait
// ---------------------------------------------------------------------------

/// Asking for an approval gives a new ticket, which waits and can be answered; the
/// earlier tickets stay as they were, but for one of the same identifier, which
/// nobody can answer any more.
pub proof fn law_register(p: PendingView, id: u128, other: u128, ticket: usize)
    requires
        p.consistent(),
        p.slots.len() < usize::MAX,
    ensures
        ({
            let q = p.registered(id);
            let mine = q.waiting[id];
            &&& mine == p.slots.len()
            &&& q.slot(mine) == Slot::Waiting
            &&& q.can_answer(id)
            &&& other != id ==> q.can_answer(other) == p.can_answer(other)
            &&& other != id && p.can_answer(other) ==> q.waiting[other] == p.waiting[other]
            &&& p.can_answer(id) ==> q.slot(p.waiting[id]) == Slot::Closed
            &&& ticket < p.slots.len() && !(p.waiting.contains_key(id) && p.waiting[id] == ticket)
                ==> q.slot(ticket) == p.slot(ticket)
        }),
{
    lemma_registered(p, id);
}

/// An answer goes to the ticket that its identifier stands for and to no other, and
/// takes the identifier out, so that it can be answered once.
pub proof fn law_resolve(p: PendingView, id: u128, allow: bool, other: u128, ticket: usize)
    requires
        p.consistent(),
    ensures
        ({
            let q = p.resolved(id, allow);
            &&& !q.waiting.contains_key(id)
            &&& p.can_answer(id) ==> q.slot(p.waiting[id]) == Slot::Answered(allow)
            &&& !(p.can_answer(id) && p.waiting[id] == ticket) ==> q.slot(ticket) == p.slot(ticket)
            &&& other != id ==> q.can_answer(other) == p.can_answer(other)
            &&& other != id ==> q.waiting.contains_key(other) == p.waiting.contains_key(other)
        }),
{
}

/// Forgetting an identifier closes its ticket and leaves every other as it is.
pub proof fn law_cancel(p: PendingView, id: u128, other: u128, ticket: usize)
    requires
        p.consistent(),
    ensures
        ({
            let q = p.cancelled(id);
            &&& !q.waiting.contains_key(id)
            &&& p.can_answer(id) ==> q.slot(p.waiting[id]) == Slot::Closed
            &&& !(p.can_answer(id) && p.waiting[id] == ticket) ==> q.slot(ticket) == p.slot(ticket)
            &&& other != id ==> q.can_answer(other) == p.can_answer(other)
        }),
{
}

/// A hook that goes away leaves its ticket abandoned and every other as it is; a
/// ticket that was never given out is closed.
pub proof fn law_abandon(p: PendingView, gone: usize, ticket: usize, id: u128)
    requires
        p.consistent(),
    ensures
        ({
            let q = p.abandoned(gone);
            &&& p.slot(gone) == Slot::Waiting ==> q.slot(gone) == Slot::Abandoned
            &&& ticket != gone ==> q.slot(ticket) == p.slot(ticket)
            &&& p.slot(gone) != Slot::Waiting ==> q.slot(gone) == p.slot(gone)
            &&& q.can_answer(id) <==> p.can_answer(id) && p.waiting[id] != gone
        }),
        ticket >= p.slots.len() ==> p.slot(ticket) == Slot::Closed,
{
}

// ---------------------------------------------------------------------------
// The connection
// ---------------------------------------------------------------------------

/// Whoever reports an event has its session's row shown to everybody who follows
/// and handed to the daemon, once each, as the event left it.
pub proof fn law_reported_event_is_shown(w: World, e: EventView, waits: bool, now: i128)
    ensures
        ({
            let (next, actions) = event_step(w, e, waits, now);
            let row = folded(w.inbox, e, now);
            &&& next.inbox == w.inbox.insert(e.session_id, row)
            &&& actions.len() >= 2
            &&& actions[0] == ActionView::Publish(row)
            &&& actions[1] == ActionView::Note(row)
            &&& !waits ==> actions.len() == 2 && next.phase == w.phase && next.pending == w.pending
            &&& waits && e.pending_action_id is None ==> actions.len() == 3 && actions[2]
                == ActionView::Send(ServerView::NoDecision) && next.phase == w.phase
                && next.pending == w.pending
            &&& waits && e.pending_action_id is Some ==> actions.len() == 2
        }),
{
}

/// An answer reaches the hook that asked: from the report of an approval, over the
/// answer that another connection gives, to the reply that the hook's own connection
/// sends, which says what was answered. Some row that waited on it is marked so, and
/// shown again.
pub proof fn law_answer_reaches_the_hook(
    w: World,
    e: EventView,
    now: i128,
    id: u128,
    allow: bool,
    next: World,
    actions: Seq<ActionView>,
)
    requires
        w.pending.consistent(),
        w.pending.slots.len() < usize::MAX,
        e.pending_action_id == Some(id),
        ({
            let parked = event_step(w, e, true, now).0;
            let told = decision_step(World { phase: Phase::Reading, ..parked }, id, allow).0;
            is_wake_step(
                World { phase: parked.phase, ..told },
                id,
                parked.phase->ticket,
                next,
                actions,
            )
        }),
    ensures
        ({
            let parked = event_step(w, e, true, now).0;
            let answer = decision_step(World { phase: Phase::Reading, ..parked }, id, allow).1;
            &&& parked.phase matches Phase::Parked { id: i, ticket } && i == id
            &&& answer == seq![ActionView::Send(ServerView::Ack { ok: true, error: None })]
            &&& next.phase == Phase::Reading
            &&& actions.len() == 2
            &&& actions[1] == ActionView::Send(ServerView::Decision { allow })
            &&& actions[0] matches ActionView::Publish(row) && row.pending_action_id == Some(id)
                && row.resolution == Some(
                if allow {
                    Resolution::Allowed
                } else {
                    Resolution::Denied
                },
            )
        }),
{
    lemma_registered(w.pending, id);
    let parked = event_step(w, e, true, now).0;
    assert(parked.inbox.contains_key(e.session_id));
    assert(parked.inbox[e.session_id].pending_action_id == Some(id));
}

/// An answer that nothing waits for is refused in words, and changes nothing but
/// that its identifier is forgotten.
pub proof fn law_late_answer_is_refused(w: World, id: u128, allow: bool)
    requires
        !w.pending.can_answer(id),
    ensures
        ({
            let (next, actions) = decision_step(w, id, allow);
            &&& actions == seq![
                ActionView::Send(
                    ServerView::Ack {
                        ok: false,
                        error: Some(
                            "no approval is waiting on that id (already answered, or it timed out)"@,
                        ),
                    },
                ),
            ]
            &&& next.inbox == w.inbox
            &&& next.phase == w.phase
            &&& next.pending.slots == w.pending.slots
            &&& next.pending.waiting == w.pending.waiting.remove(id)
        }),
{
}

/// A hook whose ticket is closed hears that there is no decision; one that still
/// waits hears nothing.
pub proof fn law_closed_ticket_means_no_decision(
    w: World,
    id: u128,
    ticket: usize,
    next: World,
    actions: Seq<ActionView>,
)
    requires
        is_wake_step(w, id, ticket, next, actions),
    ensures
        w.pending.slot(ticket) == Slot::Closed || w.pending.slot(ticket) == Slot::Abandoned
            ==> actions == seq![ActionView::Send(ServerView::NoDecision)] && next.phase
            == Phase::Reading && next.inbox == w.inbox,
        w.pending.slot(ticket) == Slot::Waiting ==> actions.len() == 0 && next == w,
{
}

/// A client that follows first starts to collect, gets every live row once, and then
/// each row that is published; one that asks once gets the rows and is done.
pub proof fn law_followers_miss_nothing(
    w: World,
    once: bool,
    now: i128,
    next: World,
    actions: Seq<ActionView>,
    k: u128,
)
    requires
        w.phase == Phase::Reading,
        is_subscribe_step(w, once, now, next, actions),
    ensures
        actions.len() > 0 && actions[0] == ActionView::Subscribe,
        next.inbox == w.inbox && next.pending == w.pending,
        once ==> next.phase == Phase::Done,
        !once ==> next.phase == Phase::Following,
        w.inbox.contains_key(k) && now - w.inbox[k].updated_at < 3 * 60 * 60 * 1_000_000_000
            ==> exists|i: int|
            1 <= i < actions.len() && #[trigger] actions[i] == ActionView::Send(
                ServerView::Row { row: w.inbox[k] },
            ),
{
    let list = choose|list: Seq<RowView>| #[trigger]
        is_listing(list, w.inbox, now) && actions == seq![ActionView::Subscribe] + shown_rows(list);
    if w.inbox.contains_key(k) && now - w.inbox[k].updated_at < 3 * 60 * 60 * 1_000_000_000 {
        assert(crate::inbox::is_live(w.inbox[k], now));
        let i = choose|i: int| 0 <= i < list.len() && (#[trigger] list[i]).session_id == k;
        assert(list[i] == w.inbox[k]);
        assert(actions[i + 1] == shown_rows(list)[i]);
    }
}

/// A published row goes to a client that follows, as it is, and to no other.
pub proof fn law_published_rows_go_to_followers(
    w: World,
    row: crate::inbox::Row,
    now: i128,
    next: World,
    actions: Seq<ActionView>,
)
    requires
        is_step(w, Input::Published(row), now, next, actions),
    ensures
        next == w,
        w.phase == Phase::Following ==> actions == seq![
            ActionView::Send(ServerView::Row { row: row@ }),
        ],
        w.phase != Phase::Following ==> actions.len() == 0,
{
}

/// A hook that hangs up while it waits leaves its ticket abandoned; any other
/// connection that closes changes nothing.
pub proof fn law_hanging_up(w: World, now: i128, next: World, actions: Seq<ActionView>)
    requires
        is_step(w, Input::Closed, now, next, actions),
    ensures
        actions.len() == 0,
        next.phase == Phase::Done,
        next.inbox == w.inbox,
        w.phase matches Phase::Parked { id, ticket } ==> next.pending == w.pending.abandoned(
            ticket,
        ),
        !(w.phase is Parked) ==> next.pending == w.pending,
{
}

/// What a client says is done as it says: an event is folded in, an answer given and
/// the rows followed.
pub proof fn law_messages_are_heard(
    w: World,
    event: Event,
    await_decision: bool,
    id: u128,
    allow: bool,
    once: bool,
    now: i128,
    next: World,
    actions: Seq<ActionView>,
)
    requires
        w.phase == Phase::Reading,
    ensures
        is_step(
            w,
            Input::Message(ClientMessage::Event { event, await_decision }),
            now,
            next,
            actions,
        ) ==> (next, actions) == event_step(w, event@, await_decision, now),
        is_step(
            w,
            Input::Message(ClientMessage::Decision { pending_action_id: id, allow }),
            now,
            next,
            actions,
        ) ==> (next, actions) == decision_step(w, id, allow),
        is_step(w, Input::Message(ClientMessage::Subscribe { once }), now, next, actions)
            ==> is_subscribe_step(w, once, now, next, actions),
{
}

/// Noise changes nothing and is not answered, in whatever phase; nor is a message to
/// a connection that does not wait for one.
pub proof fn law_noise_is_passed_over(
    w: World,
    message: ClientMessage,
    now: i128,
    next: World,
    actions: Seq<ActionView>,
)
    ensures
        is_step(w, Input::Noise, now, next, actions) ==> next == w && actions.len() == 0,
        w.phase != Phase::Reading && is_step(w, Input::Message(message), now, next, actions)
            ==> next == w && actions.len() == 0,
        !(w.phase is Parked) && is_step(w, Input::Wake, now, next, actions) ==> next == w
            && actions.len() == 0,
{
}

// ---------------------------------------------------------------------------
// The gateway
// ---------------------------------------------------------------------------

/// The gateway lets in whoever presents its token, as a bearer token, and nobody
/// else; where it has none, everybody.
pub proof fn law_the_token_lets_in(token: Seq<char>, header: Option<Seq<char>>)
    ensures
        admitted(Some(token), Some("Bearer "@ + token)),
        token.len() > 0 ==> (admitted(Some(token), header) ==> header == Some("Bearer "@ + token)),
        token.len() > 0 ==> !admitted(Some(token), None),
        admitted(None, header),
{
    let h = "Bearer "@ + token;
    reveal_strlit("Bearer ");
    reveal_strlit("");
    assert("Bearer "@.len() == 7);
    assert(h.subrange(0, 7) =~= "Bearer "@);
    assert(h.skip(7) =~= token);
    if token.len() > 0 && admitted(Some(token), header) {
        assert(header->0 =~= "Bearer "@ + token);
    }
}

/// A scope that a request names is taken as it names it; a scope that it does not
/// name is taken just where it names none.
pub proof fn law_scopes(a: Option<bool>, b: Option<bool>, c: Option<bool>)
    ensures
        ({
            let (staged, unstaged, untracked) = scopes_asked(a, b, c);
            let all = a is None && b is None && c is None;
            &&& a is Some ==> staged == a->0
            &&& a is None ==> staged == all
            &&& b is Some ==> unstaged == b->0
            &&& b is None ==> unstaged == all
            &&& c is Some ==> untracked == c->0
            &&& c is None ==> untracked == all
        }),
{
}

} // verus!
