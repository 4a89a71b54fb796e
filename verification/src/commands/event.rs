//! The hook that every agent calls: it reads the agent's payload, reports it to
//! the daemon, and for an approval that can be answered waits for the phone.
//!
//! It runs inside somebody's coding agent, so every failure ends in printing
//! nothing: the agent then asks in the terminal, as it would without us. Only an
//! explicit answer is ever printed.

use crate::adapters::{
    adapter_for, adapter_named, behavior_of, decidable, is_decidable,
    law_decision_says_what_was_decided, normalize_with, normalized, outcome, render_decision, rendered, ErrorView,
};
use crate::clock::{FIRST_TIME, LAST_TIME, SECOND};
use crate::context::{Context, ContextView, Kind};
use crate::events::{Event, EventView};
use crate::ids;
use crate::ipc::{ServerMessage, ServerView};
use crate::json;
use crate::json::{json_parsed, json_text, Json, JsonTree};
use crate::text;
use crate::text::decimal;
use crate::tree::well_formed;
use vstd::prelude::*;

verus! {

/// The longest wait, in seconds, in either direction.
pub const LONGEST_WAIT: i128 = 9_223_372_036_854_775;

/// A number of seconds read as a signed number of the same width.
pub open spec fn signed(secs: u64) -> int {
    if secs <= i64::MAX {
        secs as int
    } else {
        secs - 0x1_0000_0000_0000_0000
    }
}

/// The time at which a wait ends, where it is a time at all.
pub open spec fn deadline_at(now: i128, wait_secs: u64) -> Option<int> {
    let at = now + signed(wait_secs) * SECOND;
    if -LONGEST_WAIT <= signed(wait_secs) <= LONGEST_WAIT && FIRST_TIME <= at <= LAST_TIME {
        Some(at)
    } else {
        None
    }
}

/// The time at which a wait that starts now ends; `None` where that is out of range.
pub fn deadline(now: i128, wait_secs: u64) -> (r: Option<i128>)
    requires
        FIRST_TIME <= now <= LAST_TIME,
    ensures
        match r {
            Some(at) => deadline_at(now, wait_secs) == Some(at as int),
            None => deadline_at(now, wait_secs) is None,
        },
{
    let secs: i128 = if wait_secs <= i64::MAX as u64 {
        wait_secs as i128
    } else {
        wait_secs as i128 - 0x1_0000_0000_0000_0000
    };
    if secs < -LONGEST_WAIT || secs > LONGEST_WAIT {
        return None;
    }
    let at = now + secs * SECOND;
    if FIRST_TIME <= at && at <= LAST_TIME {
        Some(at)
    } else {
        None
    }
}

/// An event with what the hook adds: the host, the terminal where there is a
/// multiplexer, and for an approval that can be answered the deadline.
pub open spec fn stamped(
    e: EventView,
    host_id: Seq<char>,
    terminal: ContextView,
    waits: bool,
    deadline: Option<i128>,
) -> EventView {
    EventView {
        host_id,
        terminal: if terminal.kind != Kind::Bare {
            Some(terminal)
        } else {
            e.terminal
        },
        expires_at: if waits {
            deadline
        } else {
            e.expires_at
        },
        ..e
    }
}

/// What the hook does with a payload.
#[derive(Debug)]
pub enum Prepared {
    /// Nothing, but for a note to the user.
    Skip { note: String },
    /// It reports the event, and waits for an answer or does not.
    Report { event: Event, await_decision: bool, payload: Json },
}

/// What the hook does, as the contracts speak of it.
pub enum PreparedView {
    Skip { note: Seq<char> },
    Report { event: EventView, await_decision: bool, payload: JsonTree },
}

impl View for Prepared {
    type V = PreparedView;

    open spec fn view(&self) -> PreparedView {
        match *self {
            Prepared::Skip { note } => PreparedView::Skip { note: note@ },
            Prepared::Report { event, await_decision, payload } => PreparedView::Report {
                event: event@,
                await_decision,
                payload: payload@,
            },
        }
    }
}

/// The message of an adapter's refusal.
pub open spec fn refusal(e: ErrorView) -> Seq<char> {
    match e {
        ErrorView::NoAdapter(name) => "no adapter for agent `"@ + name + "` yet"@,
        ErrorView::NoEventName => "payload has no hook_event_name"@,
        ErrorView::Unhandled { label, hook } => "unhandled "@ + label + " `"@ + hook + "`"@,
    }
}

/// What the hook does with a payload that was parsed.
pub open spec fn prepared(
    agent: Seq<char>,
    payload: JsonTree,
    remaining: Option<u32>,
    host_id: Seq<char>,
    terminal: ContextView,
    deadline: Option<i128>,
    event_id: u128,
    action_id: u128,
) -> PreparedView {
    match adapter_named(agent) {
        None => PreparedView::Skip {
            note: "sailor-hook event: "@ + refusal(ErrorView::NoAdapter(agent)),
        },
        Some(a) => match normalized(a, payload, remaining, event_id, action_id) {
            Err(e) => PreparedView::Skip { note: "sailor-hook event: "@ + refusal(e) },
            Ok(event) => PreparedView::Report {
                event: stamped(event, host_id, terminal, decidable(a, payload), deadline),
                await_decision: decidable(a, payload),
                payload,
            },
        },
    }
}

/// Decides what to do with a parsed payload, with the given identifiers.
pub fn prepare_with(
    agent: &str,
    payload: Json,
    remaining: Option<u32>,
    host_id: &str,
    terminal: &Context,
    deadline: Option<i128>,
    event_id: u128,
    action_id: u128,
) -> (r: Prepared)
    ensures
        r@ == prepared(
            agent@,
            payload@,
            remaining,
            host_id@,
            terminal@,
            deadline,
            event_id,
            action_id,
        ),
{
    let a = match adapter_for(agent) {
        Some(a) => a,
        None => {
            let why = text::concat3("no adapter for agent `", agent, "` yet");
            return Prepared::Skip { note: text::concat2("sailor-hook event: ", why.as_str()) };
        },
    };
    let mut event = match normalize_with(a, &payload, remaining, event_id, action_id) {
        Ok(e) => e,
        Err(e) => {
            return Prepared::Skip {
                note: text::concat2("sailor-hook event: ", e.message().as_str()),
            };
        },
    };
    event.host_id = text::owned(host_id);
    if terminal.kind != Kind::Bare {
        event.terminal = Some(terminal.copy());
    }
    let await_decision = is_decidable(agent, &payload);
    if await_decision {
        event.expires_at = deadline;
    }
    Prepared::Report { event, await_decision, payload }
}

/// Decides what to do with what the agent wrote. `deadline` is when the hook
/// will stop waiting, and `remaining` the fraction of the context that the
/// payload leaves.
pub fn prepare(
    agent: &str,
    raw: &str,
    remaining: Option<u32>,
    host_id: &str,
    terminal: &Context,
    deadline: Option<i128>,
) -> (r: Prepared)
    ensures
        match json_parsed(raw@) {
            Err(e) => r@ == (PreparedView::Skip {
                note: "sailor-hook event: ignoring unparseable payload ("@ + e + ")"@,
            }),
            Ok(payload) => well_formed(payload) && exists|event_id: u128, action_id: u128|
                ids::is_random(event_id) && ids::is_random(action_id) && r@
                    == #[trigger] prepared(
                    agent@,
                    payload,
                    remaining,
                    host_id@,
                    terminal@,
                    deadline,
                    event_id,
                    action_id,
                ),
        },
{
    match json::parse(raw) {
        Err(e) => Prepared::Skip {
            note: text::concat3(
                "sailor-hook event: ignoring unparseable payload (",
                e.as_str(),
                ")",
            ),
        },
        Ok(payload) => {
            let event_id = ids::new_id();
            let action_id = ids::new_id();
            let ghost parsed = payload@;
            let r = prepare_with(
                agent,
                payload,
                remaining,
                host_id,
                terminal,
                deadline,
                event_id,
                action_id,
            );
            assert(r@ == prepared(
                agent@,
                parsed,
                remaining,
                host_id@,
                terminal@,
                deadline,
                event_id,
                action_id,
            ));
            r
        },
    }
}

/// What came of the wait for an answer.
#[derive(Debug)]
pub enum Reply {
    /// The daemon sent a message.
    Message(ServerMessage),
    /// The daemon closed the connection, or it broke.
    Lost,
    /// Nobody answered in time.
    TimedOut,
}

/// What the hook prints: `output` for the agent, `note` for the user.
#[derive(Debug)]
pub struct Conclusion {
    pub output: Option<String>,
    pub note: Option<String>,
}

/// The decision that a reply carries.
pub open spec fn decision_in(reply: Reply) -> Option<bool> {
    match reply {
        Reply::Message(m) => match m@ {
            ServerView::Decision { allow } => Some(allow),
            _ => None,
        },
        _ => None,
    }
}

/// What is printed for the agent: its decision for an explicit answer to a payload
/// that can be answered, and nothing in every other case.
pub open spec fn output_for(agent: Seq<char>, payload: JsonTree, reply: Reply) -> Option<
    Seq<char>,
> {
    match decision_in(reply) {
        Some(allow) => match adapter_named(agent) {
            Some(a) => if decidable(a, payload) {
                Some(json_text(rendered(a, payload, allow)))
            } else {
                None
            },
            None => None,
        },
        None => None,
    }
}

/// What the user is told.
pub open spec fn note_for(reply: Reply, wait_secs: u64) -> Option<Seq<char>> {
    match reply {
        Reply::Message(m) => match m@ {
            ServerView::Decision { .. } => None,
            ServerView::NoDecision => Some(
                "sailor-hook event: no decision, falling back to the terminal prompt"@,
            ),
            _ => Some("sailor-hook event: daemon closed the connection, falling back"@),
        },
        Reply::Lost => Some("sailor-hook event: daemon closed the connection, falling back"@),
        Reply::TimedOut => Some(
            "sailor-hook event: approval timed out after "@ + decimal(wait_secs as nat)
                + "s, falling back"@,
        ),
    }
}

/// Decides what to print once the wait for an answer is over.
pub fn conclude(agent: &str, payload: &Json, reply: Reply, wait_secs: u64) -> (r: Conclusion)
    requires
        well_formed(payload@),
    ensures
        text::opt_text(r.output) == output_for(agent@, payload@, reply),
        text::opt_text(r.note) == note_for(reply, wait_secs),
{
    let allow = match reply {
        Reply::Message(ServerMessage::Decision { allow }) => allow,
        Reply::Message(ServerMessage::NoDecision) => {
            return Conclusion {
                output: None,
                note: Some(
                    text::owned(
                        "sailor-hook event: no decision, falling back to the terminal prompt",
                    ),
                ),
            };
        },
        Reply::TimedOut => {
            let n = text::number(wait_secs);
            return Conclusion {
                output: None,
                note: Some(
                    text::concat3(
                        "sailor-hook event: approval timed out after ",
                        n.as_str(),
                        "s, falling back",
                    ),
                ),
            };
        },
        _ => {
            return Conclusion {
                output: None,
                note: Some(
                    text::owned("sailor-hook event: daemon closed the connection, falling back"),
                ),
            };
        },
    };
    if !is_decidable(agent, payload) {
        return Conclusion { output: None, note: None };
    }
    match render_decision(agent, payload, allow) {
        Some(decision) => Conclusion { output: Some(json::render(&decision)), note: None },
        None => Conclusion { output: None, note: None },
    }
}

/// No failure ever produces "allow": what is printed for the agent comes from an
/// explicit answer alone, to a payload that can be answered, and tells it to allow
/// only where the answer did.
pub proof fn law_only_an_answer_is_printed(agent: Seq<char>, payload: JsonTree, reply: Reply)
    ensures
        output_for(agent, payload, reply) is Some ==> decision_in(reply) is Some && adapter_named(
            agent,
        ) is Some && decidable(adapter_named(agent)->0, payload),
        output_for(agent, payload, reply) matches Some(out) ==> adapter_named(agent) is Some && out
            == json_text(rendered(adapter_named(agent)->0, payload, decision_in(reply)->0))
            && (behavior_of(
            rendered(adapter_named(agent)->0, payload, decision_in(reply)->0),
        ) == Some("allow"@) <==> decision_in(reply) == Some(true)),
{
    if let Some(allow) = decision_in(reply) {
        if let Some(a) = adapter_named(agent) {
            law_decision_says_what_was_decided(a, payload, allow);
        }
    }
}

/// A hook waits only for what can be answered: it has an identifier to answer it
/// by and the deadline that the hook keeps to.
pub proof fn law_waits_only_for_an_answerable_event(
    agent: Seq<char>,
    payload: JsonTree,
    remaining: Option<u32>,
    host_id: Seq<char>,
    terminal: ContextView,
    deadline: Option<i128>,
    event_id: u128,
    action_id: u128,
)
    ensures
        prepared(
            agent,
            payload,
            remaining,
            host_id,
            terminal,
            deadline,
            event_id,
            action_id,
        ) matches PreparedView::Report { event, await_decision, .. } ==> (await_decision
            ==> event.pending_action_id == Some(action_id) && event.expires_at == deadline) && (
        !await_decision ==> event.expires_at is None),
{
    if let Some(a) = adapter_named(agent) {
        crate::adapters::law_decidable_can_be_answered(a, payload, remaining, event_id, action_id);
    }
}

} // verus!
