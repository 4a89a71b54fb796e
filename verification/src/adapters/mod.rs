//! From each agent's hook payload to an event.
//!
//! Three agents (`claude_code`, `codex`, `qwen`) have a permission hook whose output
//! they read as a decision: those can be answered from the phone. The others are
//! only observed.

use crate::config::Agent;
use crate::events::{Category, Event, EventView};
use crate::ids;
use crate::ids::{uuid_hashed, uuid_parsed};
use crate::json;
use crate::json::{Json, JsonTree, Scalar};
use crate::text;
use crate::text::{line_seq, opt_str};
use crate::tree::{
    entries, field, lemma_table_view, lemma_well_formed_lookup, lemma_well_formed_with_key,
    lemma_with_key, set_key, text_field, text_node, well_formed, with_key, Node, Tree,
};
use vstd::prelude::*;

pub mod claude_code;
pub mod codex;
pub mod cursor;
pub mod gemini;
pub mod kimi;
pub mod opencode;
pub mod pi;
pub mod qwen;

verus! {

/// Why a payload is no event.
#[derive(Debug)]
pub enum AdapterError {
    /// No adapter goes by this name.
    NoAdapter(String),
    /// The payload does not name its hook.
    NoEventName,
    /// The hook is none that the inbox shows.
    Unhandled { label: String, hook: String },
}

/// Why a payload is no event, as the contracts speak of it.
pub enum ErrorView {
    NoAdapter(Seq<char>),
    NoEventName,
    Unhandled { label: Seq<char>, hook: Seq<char> },
}

impl View for AdapterError {
    type V = ErrorView;

    open spec fn view(&self) -> ErrorView {
        match *self {
            AdapterError::NoAdapter(name) => ErrorView::NoAdapter(name@),
            AdapterError::NoEventName => ErrorView::NoEventName,
            AdapterError::Unhandled { label, hook } => ErrorView::Unhandled {
                label: label@,
                hook: hook@,
            },
        }
    }
}

impl AdapterError {
    /// The message for the user.
    pub fn message(&self) -> (r: String)
        ensures
            r@ == match self@ {
                ErrorView::NoAdapter(name) => "no adapter for agent `"@ + name + "` yet"@,
                ErrorView::NoEventName => "payload has no hook_event_name"@,
                ErrorView::Unhandled { label, hook } => "unhandled "@ + label + " `"@ + hook
                    + "`"@,
            },
    {
        match self {
            AdapterError::NoAdapter(name) => text::concat3(
                "no adapter for agent `",
                name.as_str(),
                "` yet",
            ),
            AdapterError::NoEventName => text::owned("payload has no hook_event_name"),
            AdapterError::Unhandled { label, hook } => {
                let mut out = text::concat3("unhandled ", label.as_str(), " `");
                out.append(hook.as_str());
                out.append("`");
                out
            },
        }
    }
}

/// The view of an event or of why there is none.
pub open spec fn outcome(r: Result<Event, AdapterError>) -> Result<EventView, ErrorView> {
    match r {
        Ok(e) => Ok(e@),
        Err(e) => Err(e@),
    }
}

// ---------------------------------------------------------------------------
// What the agents have in common
// ---------------------------------------------------------------------------

/// The agent that an adapter name stands for: its identifier, exactly.
pub open spec fn adapter_named(name: Seq<char>) -> Option<Agent> {
    match Agent::named(name) {
        Some(a) => if a.name() == name {
            Some(a)
        } else {
            None
        },
        None => None,
    }
}

/// One row for each session of an agent: a session that is named by a UUID has
/// that, any other a hash of the agent and its name.
pub open spec fn session_of(agent: Seq<char>, session: Seq<char>) -> u128 {
    match uuid_parsed(session) {
        Some(id) => id,
        None => uuid_hashed(agent + ":"@ + session),
    }
}

/// The identifier of an agent's session.
pub fn session_uuid(agent: &str, agent_session_id: &str) -> (r: u128)
    ensures
        r == session_of(agent@, agent_session_id@),
{
    match ids::parse_id(agent_session_id) {
        Some(id) => id,
        None => {
            let name = text::concat3(agent, ":", agent_session_id);
            ids::hashed_id(name.as_str())
        },
    }
}

/// One line for a notification and for the row's title.
pub open spec fn title_of(category: Category, tool: Option<Seq<char>>, message: Seq<char>) -> Seq<
    char,
> {
    match category {
        Category::ApprovalRequired => match tool {
            Some(t) => "Approve: "@ + t,
            None => if message.len() > 0 {
                if line_seq(message).len() > 0 {
                    line_seq(message)[0]
                } else {
                    message
                }
            } else {
                "Approval required"@
            },
        },
        Category::TaskComplete => "Task complete"@,
        Category::SessionStarted => "Session started"@,
        Category::ToolRunning => match tool {
            Some(t) => "Running "@ + t,
            None => "Running tool"@,
        },
        Category::ToolFinished => match tool {
            Some(t) => "Finished "@ + t,
            None => "Finished tool"@,
        },
    }
}

/// One line for a notification and for the row's title.
pub fn title_for(category: Category, tool: Option<&str>, message: &str) -> (r: String)
    ensures
        r@ == title_of(category, opt_str(tool), message@),
{
    match category {
        Category::ApprovalRequired => match tool {
            Some(t) => text::concat2("Approve: ", t),
            None => {
                if message.is_empty() {
                    text::owned("Approval required")
                } else {
                    let lines = text::lines(message);
                    if lines.len() > 0 {
                        assert(text::texts(lines@)[0] == lines@[0]@);
                        lines[0].clone()
                    } else {
                        text::owned(message)
                    }
                }
            },
        },
        Category::TaskComplete => text::owned("Task complete"),
        Category::SessionStarted => text::owned("Session started"),
        Category::ToolRunning => match tool {
            Some(t) => text::concat2("Running ", t),
            None => text::owned("Running tool"),
        },
        Category::ToolFinished => match tool {
            Some(t) => text::concat2("Finished ", t),
            None => text::owned("Finished tool"),
        },
    }
}

/// A text that may be missing, empty then.
pub open spec fn or_empty(s: Option<Seq<char>>) -> Seq<char> {
    match s {
        Some(t) => t,
        None => ""@,
    }
}

/// The name of the hook that a payload is from.
pub fn event_name<'a>(payload: &'a Json) -> (r: Option<&'a str>)
    ensures
        opt_str(r) == text_field(payload@, "hook_event_name"@),
{
    payload.get_str("hook_event_name")
}

/// What the adapters read from a payload. Cursor names its sessions under a key
/// of its own; pi has no messages.
pub struct Fields<'a> {
    pub session: &'a str,
    pub project: Option<&'a str>,
    pub tool: Option<&'a str>,
    pub message: &'a str,
}

fn str_or_empty<'a>(s: Option<&'a str>) -> (r: &'a str)
    ensures
        r@ == or_empty(opt_str(s)),
{
    match s {
        Some(t) => t,
        None => "",
    }
}

/// The key under which an agent names its session.
pub open spec fn session_key(agent: Agent) -> Seq<char> {
    if agent == Agent::Cursor {
        "conversation_id"@
    } else {
        "session_id"@
    }
}

/// The message of a payload.
pub open spec fn message_of(agent: Agent, payload: JsonTree) -> Seq<char> {
    if agent == Agent::Pi {
        ""@
    } else {
        or_empty(text_field(payload, "message"@))
    }
}

/// Reads session, project, tool and message from a payload.
pub fn common_fields<'a>(agent: Agent, payload: &'a Json) -> (r: Fields<'a>)
    ensures
        r.session@ == or_empty(text_field(payload@, session_key(agent))),
        opt_str(r.project) == text_field(payload@, "cwd"@),
        opt_str(r.tool) == text_field(payload@, "tool_name"@),
        r.message@ == message_of(agent, payload@),
{
    let key = if agent == Agent::Cursor {
        "conversation_id"
    } else {
        "session_id"
    };
    let message = if agent == Agent::Pi {
        ""
    } else {
        str_or_empty(payload.get_str("message"))
    };
    Fields {
        session: str_or_empty(payload.get_str(key)),
        project: payload.get_str("cwd"),
        tool: payload.get_str("tool_name"),
        message,
    }
}

// ---------------------------------------------------------------------------
// The agents
// ---------------------------------------------------------------------------

/// The kind of event that an agent's hook stands for.
pub open spec fn category_of(agent: Agent, hook: Seq<char>) -> Option<Category> {
    match agent {
        Agent::ClaudeCode => claude_code::category(hook),
        Agent::Codex => codex::category(hook),
        Agent::OpenCode => opencode::category(hook),
        Agent::Gemini => gemini::category(hook),
        Agent::Cursor => cursor::category(hook),
        Agent::Kimi => kimi::category(hook),
        Agent::Qwen => qwen::category(hook),
        Agent::Pi => pi::category(hook),
    }
}

fn category_for(agent: Agent, hook: &str) -> (r: Option<Category>)
    ensures
        r == category_of(agent, hook@),
{
    match agent {
        Agent::ClaudeCode => claude_code::category_for(hook),
        Agent::Codex => codex::category_for(hook),
        Agent::OpenCode => opencode::category_for(hook),
        Agent::Gemini => gemini::category_for(hook),
        Agent::Cursor => cursor::category_for(hook),
        Agent::Kimi => kimi::category_for(hook),
        Agent::Qwen => qwen::category_for(hook),
        Agent::Pi => pi::category_for(hook),
    }
}

/// An identifier in title case: its words with a capital each, and spaces between
/// them.
pub open spec fn titled(id: Seq<char>) -> Seq<char> {
    Seq::new(
        id.len(),
        |i: int|
            if id[i] == '_' {
                ' '
            } else if i == 0 || id[i - 1] == '_' {
                capital(id[i])
            } else {
                id[i]
            },
    )
}

/// The capital of a small letter.
pub open spec fn capital(c: char) -> char {
    if 'a' <= c <= 'z' {
        (c as u8 - 32) as char
    } else {
        c
    }
}

/// What a message calls an agent's reports.
pub open spec fn label_of(agent: Agent) -> Seq<char> {
    match agent {
        Agent::OpenCode => "OpenCode event"@,
        Agent::Pi => "pi event"@,
        _ => titled(agent.name()) + " hook event"@,
    }
}

fn title_case(id: &str) -> (r: String)
    ensures
        r@ == titled(id@),
{
    let mut out = String::new();
    let v = text::chars(id);
    let mut i: usize = 0;
    while i < v.len()
        invariant
            i <= v@.len(),
            v@ == id@,
            out@ == titled(id@).take(i as int),
        decreases v@.len() - i,
    {
        let c = v[i];
        let t = if c == '_' {
            ' '
        } else if (i == 0 || v[i - 1] == '_') && 'a' <= c && c <= 'z' {
            (c as u8 - 32) as char
        } else {
            c
        };
        assert(titled(id@)[i as int] == t);
        out.push(t);
        assert(out@ =~= titled(id@).take(i + 1));
        i += 1;
    }
    assert(titled(id@).take(id@.len() as int) =~= titled(id@));
    out
}

fn label(agent: Agent) -> (r: String)
    ensures
        r@ == label_of(agent),
{
    match agent {
        Agent::OpenCode => text::owned("OpenCode event"),
        Agent::Pi => text::owned("pi event"),
        _ => text::concat2(title_case(agent.id()).as_str(), " hook event"),
    }
}

/// An agent that reads a decision from its permission hook.
pub open spec fn decides(agent: Agent) -> bool {
    agent == Agent::ClaudeCode || agent == Agent::Codex || agent == Agent::Qwen
}

/// A hook whose payload tells how much of the context is used.
pub open spec fn tells_usage(agent: Agent, hook: Seq<char>) -> bool {
    (agent == Agent::Qwen && hook == "Stop"@) || (agent == Agent::Pi && hook == "agent_settled"@)
}

/// The payload has a number for the context that is used.
pub open spec fn has_usage(payload: JsonTree) -> bool {
    field(payload, "context_usage"@) matches Some(Tree::Leaf(Scalar::Number(_)))
}

/// The title of an event: pi's start of work has one of its own.
pub open spec fn event_title(
    agent: Agent,
    hook: Seq<char>,
    category: Category,
    payload: JsonTree,
) -> Seq<char> {
    if agent == Agent::Pi && hook == "agent_start"@ {
        "Working"@
    } else {
        title_of(category, text_field(payload, "tool_name"@), message_of(agent, payload))
    }
}

/// The event that an agent's payload is. `remaining` is what the used context
/// leaves; the two identifiers are those that the event and its approval get.
pub open spec fn normalized(
    agent: Agent,
    payload: JsonTree,
    remaining: Option<u32>,
    event_id: u128,
    action_id: u128,
) -> Result<EventView, ErrorView> {
    match text_field(payload, "hook_event_name"@) {
        None => Err(ErrorView::NoEventName),
        Some(hook) => match category_of(agent, hook) {
            None => Err(ErrorView::Unhandled { label: label_of(agent), hook }),
            Some(category) => Ok(
                EventView {
                    category,
                    source: agent.name(),
                    session_id: session_of(
                        agent.name(),
                        or_empty(text_field(payload, session_key(agent))),
                    ),
                    host_id: Seq::empty(),
                    project: text_field(payload, "cwd"@),
                    title: event_title(agent, hook, category, payload),
                    message: message_of(agent, payload),
                    event_id,
                    pending_action_id: if decides(agent) && category
                        == Category::ApprovalRequired {
                        Some(action_id)
                    } else {
                        None
                    },
                    expires_at: None,
                    usage: Seq::empty(),
                    context_remaining: if tells_usage(agent, hook) && has_usage(payload) {
                        remaining
                    } else {
                        None
                    },
                    terminal: None,
                },
            ),
        },
    }
}

fn usage_told(agent: Agent, hook: &str, payload: &Json) -> (r: bool)
    ensures
        r == (tells_usage(agent, hook@) && has_usage(payload@)),
{
    let tells = (agent == Agent::Qwen && text::same(hook, "Stop")) || (agent == Agent::Pi
        && text::same(hook, "agent_settled"));
    tells && match payload.get("context_usage") {
        Some(Node::Leaf(Scalar::Number(_))) => true,
        _ => false,
    }
}

/// The event that an agent's payload is, with the given identifiers.
pub fn normalize_with(
    agent: Agent,
    payload: &Json,
    remaining: Option<u32>,
    event_id: u128,
    action_id: u128,
) -> (r: Result<Event, AdapterError>)
    ensures
        outcome(r) == normalized(agent, payload@, remaining, event_id, action_id),
{
    let hook = match event_name(payload) {
        Some(h) => h,
        None => return Err(AdapterError::NoEventName),
    };
    let category = match category_for(agent, hook) {
        Some(c) => c,
        None => return Err(
            AdapterError::Unhandled { label: label(agent), hook: text::owned(hook) },
        ),
    };
    let f = common_fields(agent, payload);
    let title = if agent == Agent::Pi && text::same(hook, "agent_start") {
        text::owned("Working")
    } else {
        title_for(category, f.tool, f.message)
    };
    let session_id = session_uuid(agent.id(), f.session);
    let mut event = Event::with_ids(category, agent.id(), title.as_str(), session_id, event_id);
    event.project = match f.project {
        Some(p) => Some(text::owned(p)),
        None => None,
    };
    event.message = text::owned(f.message);
    let answerable = agent == Agent::ClaudeCode || agent == Agent::Codex || agent == Agent::Qwen;
    if answerable && category == Category::ApprovalRequired {
        event.pending_action_id = Some(action_id);
    }
    if usage_told(agent, hook, payload) {
        event.context_remaining = remaining;
    }
    Ok(event)
}

/// The event that an agent's payload is, with fresh random identifiers.
pub fn normalize_for(agent: Agent, payload: &Json, remaining: Option<u32>) -> (r: Result<
    Event,
    AdapterError,
>)
    ensures
        exists|event_id: u128, action_id: u128|
            ids::is_random(event_id) && ids::is_random(action_id) && outcome(r)
                == #[trigger] normalized(agent, payload@, remaining, event_id, action_id),
{
    let event_id = ids::new_id();
    let action_id = ids::new_id();
    let r = normalize_with(agent, payload, remaining, event_id, action_id);
    assert(outcome(r) == normalized(agent, payload@, remaining, event_id, action_id));
    r
}

/// The event that a payload is, for the agent of that identifier. `remaining` is
/// the fraction of the context that the payload's `context_usage` leaves.
pub fn normalize(agent: &str, payload: &Json, remaining: Option<u32>) -> (r: Result<
    Event,
    AdapterError,
>)
    ensures
        match adapter_named(agent@) {
            Some(a) => exists|event_id: u128, action_id: u128|
                ids::is_random(event_id) && ids::is_random(action_id) && outcome(r)
                    == #[trigger] normalized(a, payload@, remaining, event_id, action_id),
            None => outcome(r) == Err::<EventView, ErrorView>(ErrorView::NoAdapter(agent@)),
        },
{
    match adapter_for(agent) {
        Some(a) => normalize_for(a, payload, remaining),
        None => Err(AdapterError::NoAdapter(text::owned(agent))),
    }
}

/// The agent that an adapter name stands for.
pub fn adapter_for(name: &str) -> (r: Option<Agent>)
    ensures
        r == adapter_named(name@),
{
    match Agent::parse(name) {
        Some(a) => {
            if text::same(a.id(), name) {
                Some(a)
            } else {
                None
            }
        },
        None => None,
    }
}

// ---------------------------------------------------------------------------
// Decisions
// ---------------------------------------------------------------------------

/// A payload that the phone can answer: the permission hook of an agent that
/// reads a decision. A notification looks the same in the inbox, but nothing
/// reads an answer to it.
pub open spec fn decidable(agent: Agent, payload: JsonTree) -> bool {
    decides(agent) && text_field(payload, "hook_event_name"@) == Some("PermissionRequest"@)
}

/// Whether a payload is the permission hook.
pub fn asks_permission(payload: &Json) -> (r: bool)
    ensures
        r == (text_field(payload@, "hook_event_name"@) == Some("PermissionRequest"@)),
{
    match event_name(payload) {
        Some(name) => text::same(name, "PermissionRequest"),
        None => false,
    }
}

/// Whether the phone can answer a payload.
pub fn is_decidable(agent: &str, payload: &Json) -> (r: bool)
    ensures
        r == match adapter_named(agent@) {
            Some(a) => decidable(a, payload@),
            None => false,
        },
{
    match adapter_for(agent) {
        Some(Agent::ClaudeCode) => claude_code::is_decidable(payload),
        Some(Agent::Codex) => codex::is_decidable(payload),
        Some(Agent::Qwen) => qwen::is_decidable(payload),
        _ => false,
    }
}

/// The inside of a decision. `echo` says whether an allowed call's input goes back,
/// unchanged: this answers a question, it does not rewrite a command.
pub open spec fn decision_tree(payload: JsonTree, allow: bool, echo: bool) -> JsonTree {
    let base = with_key(
        Seq::empty(),
        "behavior"@,
        JsonTree::Text(
            if allow {
                "allow"@
            } else {
                "deny"@
            },
        ),
    );
    if !allow {
        Tree::Table(
            with_key(base, "message"@, JsonTree::Text("Denied from the sailor app."@)),
        )
    } else if echo {
        Tree::Table(
            with_key(
                base,
                "updatedInput"@,
                match field(payload, "tool_input"@) {
                    Some(input) => input,
                    None => JsonTree::Table(Seq::empty()),
                },
            ),
        )
    } else {
        Tree::Table(base)
    }
}

/// The output that an agent reads as a decision.
pub open spec fn output_tree(name: Seq<char>, decision: JsonTree) -> JsonTree {
    Tree::Table(
        with_key(
            Seq::empty(),
            "hookSpecificOutput"@,
            JsonTree::Table(
                with_key(
                    with_key(Seq::empty(), "hookEventName"@, JsonTree::Text(name)),
                    "decision"@,
                    decision,
                ),
            ),
        ),
    )
}

/// What an agent that reads a decision is answered.
pub open spec fn rendered(agent: Agent, payload: JsonTree, allow: bool) -> JsonTree {
    output_tree(
        if agent == Agent::Codex {
            match text_field(payload, "hook_event_name"@) {
                Some(name) => name,
                None => "PermissionRequest"@,
            }
        } else {
            "PermissionRequest"@
        },
        decision_tree(payload, allow, agent != Agent::Codex),
    )
}

/// Builds the inside of a decision.
pub(crate) fn decision_node(payload: &Json, allow: bool, echo: bool) -> (r: Json)
    requires
        well_formed(payload@),
    ensures
        r@ == decision_tree(payload@, allow, echo),
        well_formed(r@),
{
    broadcast use lemma_table_view;

    let ghost empty = Seq::<(Seq<char>, JsonTree)>::empty();
    let mut m: Vec<(String, Json)> = Vec::new();
    assert(entries(m@) =~= empty);
    let word = if allow {
        "allow"
    } else {
        "deny"
    };
    proof {
        lemma_well_formed_with_key(empty, "behavior"@, JsonTree::Text(word@));
    }
    set_key(&mut m, "behavior", text_node(word));
    let ghost base = entries(m@);
    if !allow {
        proof {
            lemma_well_formed_with_key(
                base,
                "message"@,
                JsonTree::Text("Denied from the sailor app."@),
            );
        }
        set_key(&mut m, "message", text_node("Denied from the sailor app."));
    } else if echo {
        let input = match payload.get("tool_input") {
            Some(input) => {
                proof {
                    lemma_well_formed_lookup(payload@->Table_0, "tool_input"@);
                }
                json::copy(input)
            },
            None => {
                let none: Vec<(String, Json)> = Vec::new();
                assert(entries(none@) =~= empty);
                Node::Table(none)
            },
        };
        proof {
            lemma_well_formed_with_key(base, "updatedInput"@, input@);
        }
        set_key(&mut m, "updatedInput", input);
    }
    Node::Table(m)
}

/// Builds the output that an agent reads as a decision.
pub(crate) fn output_node(name: &str, decision: Json) -> (r: Json)
    requires
        well_formed(decision@),
    ensures
        r@ == output_tree(name@, decision@),
        well_formed(r@),
{
    broadcast use lemma_table_view;

    let ghost empty = Seq::<(Seq<char>, JsonTree)>::empty();
    let mut inner: Vec<(String, Json)> = Vec::new();
    assert(entries(inner@) =~= empty);
    let ghost told = decision@;
    proof {
        lemma_well_formed_with_key(empty, "hookEventName"@, JsonTree::Text(name@));
        lemma_well_formed_with_key(
            with_key(empty, "hookEventName"@, JsonTree::Text(name@)),
            "decision"@,
            told,
        );
    }
    set_key(&mut inner, "hookEventName", text_node(name));
    set_key(&mut inner, "decision", decision);
    let body = Node::Table(inner);
    proof {
        lemma_well_formed_with_key(empty, "hookSpecificOutput"@, body@);
    }
    let mut outer: Vec<(String, Json)> = Vec::new();
    assert(entries(outer@) =~= empty);
    set_key(&mut outer, "hookSpecificOutput", body);
    Node::Table(outer)
}

/// What the agent of that identifier reads as the decision; `None` for an agent
/// that reads none.
pub fn render_decision(agent: &str, payload: &Json, allow: bool) -> (r: Option<Json>)
    requires
        well_formed(payload@),
    ensures
        match r {
            Some(j) => adapter_named(agent@) matches Some(a) && decides(a) && j@ == rendered(
                a,
                payload@,
                allow,
            ) && well_formed(j@),
            None => !(adapter_named(agent@) matches Some(a) && decides(a)),
        },
{
    match adapter_for(agent) {
        Some(Agent::ClaudeCode) => Some(claude_code::render_decision(payload, allow)),
        Some(Agent::Codex) => Some(codex::render_decision(payload, allow)),
        Some(Agent::Qwen) => Some(qwen::render_decision(payload, allow)),
        _ => None,
    }
}

// ---------------------------------------------------------------------------
// Laws
// ---------------------------------------------------------------------------

/// The behaviour that an output tells the agent.
pub open spec fn behavior_of(output: JsonTree) -> Option<Seq<char>> {
    match field(output, "hookSpecificOutput"@) {
        Some(body) => match field(body, "decision"@) {
            Some(d) => text_field(d, "behavior"@),
            None => None,
        },
        None => None,
    }
}

/// What an agent is told is what was decided: "allow" exactly for an allowance.
pub proof fn law_decision_says_what_was_decided(agent: Agent, payload: JsonTree, allow: bool)
    ensures
        behavior_of(rendered(agent, payload, allow)) == Some(
            if allow {
                "allow"@
            } else {
                "deny"@
            },
        ),
        behavior_of(rendered(agent, payload, allow)) == Some("allow"@) <==> allow,
{
    reveal_strlit("allow");
    reveal_strlit("deny");
    reveal_strlit("behavior");
    reveal_strlit("message");
    reveal_strlit("updatedInput");
    assert("allow"@.len() == 5 && "deny"@.len() == 4);
    assert("behavior"@.len() == 8 && "message"@.len() == 7 && "updatedInput"@.len() == 12);
    let empty = Seq::<(Seq<char>, JsonTree)>::empty();
    let word = JsonTree::Text(
        if allow {
            "allow"@
        } else {
            "deny"@
        },
    );
    lemma_with_key(empty, "behavior"@, word);
    let base = with_key(empty, "behavior"@, word);
    lemma_with_key(base, "message"@, JsonTree::Text("Denied from the sailor app."@));
    let input = match field(payload, "tool_input"@) {
        Some(input) => input,
        None => JsonTree::Table(Seq::empty()),
    };
    lemma_with_key(base, "updatedInput"@, input);
    let name = if agent == Agent::Codex {
        match text_field(payload, "hook_event_name"@) {
            Some(name) => name,
            None => "PermissionRequest"@,
        }
    } else {
        "PermissionRequest"@
    };
    let d = decision_tree(payload, allow, agent != Agent::Codex);
    let named = with_key(empty, "hookEventName"@, JsonTree::Text(name));
    lemma_with_key(named, "decision"@, d);
    lemma_with_key(
        empty,
        "hookSpecificOutput"@,
        JsonTree::Table(with_key(named, "decision"@, d)),
    );
}

/// A payload that can be answered is an approval with an identifier to answer it
/// by; an event of an agent that reads no decision never has one.
pub proof fn law_decidable_can_be_answered(
    agent: Agent,
    payload: JsonTree,
    remaining: Option<u32>,
    event_id: u128,
    action_id: u128,
)
    ensures
        decidable(agent, payload) ==> (normalized(agent, payload, remaining, event_id, action_id)
            matches Ok(e) && e.category == Category::ApprovalRequired && e.pending_action_id
            == Some(action_id)),
        !decides(agent) ==> (normalized(agent, payload, remaining, event_id, action_id) matches Ok(
            e,
        ) ==> e.pending_action_id is None),
{
    reveal_strlit("PermissionRequest");
    reveal_strlit("SessionStart");
    reveal_strlit("PreToolUse");
    reveal_strlit("PostToolUse");
    reveal_strlit("PostToolUseFailure");
    assert("PermissionRequest"@.len() == 17 && "SessionStart"@.len() == 12);
    assert("PreToolUse"@.len() == 10 && "PostToolUse"@.len() == 11);
    assert("PostToolUseFailure"@.len() == 18);
}

/// Two events of one agent's session are of the same row.
pub proof fn law_same_session_same_row(
    agent: Agent,
    a: JsonTree,
    b: JsonTree,
    remaining: Option<u32>,
    id1: u128,
    id2: u128,
    act1: u128,
    act2: u128,
)
    requires
        text_field(a, session_key(agent)) == text_field(b, session_key(agent)),
    ensures
        normalized(agent, a, remaining, id1, act1) matches Ok(x) ==> (normalized(
            agent,
            b,
            remaining,
            id2,
            act2,
        ) matches Ok(y) ==> x.session_id == y.session_id),
{
}

} // verus!
