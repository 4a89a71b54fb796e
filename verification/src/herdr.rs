//! Herdr's own view of its panes, from `herdr agent list`: which pane's agent is
//! blocked, working, done or idle.

use crate::json;
use crate::json::{json_parsed, Json, JsonTree};
use crate::text;
use crate::tree::{
    field, key_pos, lemma_array_view, lemma_key_pos, lemma_key_pos_is, lookup, text_field, views,
    Node, Tree,
};
use vstd::prelude::*;

verus! {

/// The state of a pane. What else Herdr may report is passed over.
#[derive(Debug, Clone, Copy, PartialEq, Eq, Structural)]
pub enum AgentState {
    Blocked,
    Working,
    Done,
    Idle,
}

impl AgentState {
    /// The name as the contracts speak of it.
    pub open spec fn name(self) -> Seq<char> {
        match self {
            AgentState::Blocked => "blocked"@,
            AgentState::Working => "working"@,
            AgentState::Done => "done"@,
            AgentState::Idle => "idle"@,
        }
    }

    /// The state that a name stands for.
    pub open spec fn named(s: Seq<char>) -> Option<AgentState> {
        if s == "blocked"@ {
            Some(AgentState::Blocked)
        } else if s == "working"@ {
            Some(AgentState::Working)
        } else if s == "done"@ {
            Some(AgentState::Done)
        } else if s == "idle"@ {
            Some(AgentState::Idle)
        } else {
            None
        }
    }

    /// The state that a name stands for.
    pub fn parse(s: &str) -> (r: Option<AgentState>)
        ensures
            r == AgentState::named(s@),
    {
        if text::same(s, "blocked") {
            Some(AgentState::Blocked)
        } else if text::same(s, "working") {
            Some(AgentState::Working)
        } else if text::same(s, "done") {
            Some(AgentState::Done)
        } else if text::same(s, "idle") {
            Some(AgentState::Idle)
        } else {
            None
        }
    }

    /// The name.
    pub fn as_str(&self) -> (r: &'static str)
        ensures
            r@ == self.name(),
    {
        match self {
            AgentState::Blocked => "blocked",
            AgentState::Working => "working",
            AgentState::Done => "done",
            AgentState::Idle => "idle",
        }
    }
}

/// Parsing the name of a state gives that state.
pub proof fn law_parse_undoes_as_str(s: AgentState)
    ensures
        AgentState::named(s.name()) == Some(s),
{
    reveal_strlit("blocked");
    reveal_strlit("working");
    reveal_strlit("done");
    reveal_strlit("idle");
    assert("blocked"@[0] == 'b' && "working"@[0] == 'w');
    assert("done"@[0] == 'd' && "idle"@[0] == 'i');
    assert("blocked"@.len() == 7 && "working"@.len() == 7);
    assert("done"@.len() == 4 && "idle"@.len() == 4);
}

/// The states of one session's panes.
#[derive(Debug)]
pub struct AgentStates {
    panes: Vec<(String, AgentState)>,
}

/// A list of panes in which one pane's state was set.
pub open spec fn with_pane(
    m: Seq<(Seq<char>, AgentState)>,
    pane: Seq<char>,
    state: AgentState,
) -> Seq<(Seq<char>, AgentState)> {
    if key_pos(m, pane) < m.len() {
        m.update(key_pos(m, pane), (pane, state))
    } else {
        m.push((pane, state))
    }
}

impl View for AgentStates {
    type V = Seq<(Seq<char>, AgentState)>;

    closed spec fn view(&self) -> Seq<(Seq<char>, AgentState)> {
        Seq::new(self.panes@.len(), |i: int| (self.panes@[i].0@, self.panes@[i].1))
    }
}

impl AgentStates {
    /// No pane.
    pub fn new() -> (r: AgentStates)
        ensures
            r@ == Seq::<(Seq<char>, AgentState)>::empty(),
    {
        let r = AgentStates { panes: Vec::new() };
        assert(r@ =~= Seq::empty());
        r
    }

    fn find(&self, pane: &str) -> (r: Option<usize>)
        ensures
            match r {
                Some(i) => i < self@.len() && key_pos(self@, pane@) == i,
                None => key_pos(self@, pane@) == self@.len(),
            },
            self@.len() == self.panes@.len(),
    {
        let mut i: usize = 0;
        while i < self.panes.len()
            invariant
                i <= self.panes@.len(),
                self@.len() == self.panes@.len(),
                forall|j: int| 0 <= j < i ==> (#[trigger] self@[j]).0 != pane@,
            decreases self.panes@.len() - i,
        {
            if text::same(self.panes[i].0.as_str(), pane) {
                proof {
                    lemma_key_pos_is(self@, pane@, i as int);
                }
                return Some(i);
            }
            i += 1;
        }
        proof {
            lemma_key_pos_is(self@, pane@, i as int);
        }
        None
    }

    /// Sets a pane's state.
    pub fn insert(&mut self, pane: &str, state: AgentState)
        ensures
            final(self)@ == with_pane(old(self)@, pane@, state),
    {
        let ghost before = self@;
        match self.find(pane) {
            Some(i) => {
                let name = text::owned(pane);
                self.panes.set(i, (name, state));
                assert(self@ =~= before.update(i as int, (pane@, state)));
            },
            None => {
                let name = text::owned(pane);
                self.panes.push((name, state));
                assert(self@ =~= before.push((pane@, state)));
            },
        }
    }

    /// A pane's state.
    pub fn get(&self, pane: &str) -> (r: Option<AgentState>)
        ensures
            r == lookup(self@, pane@),
    {
        match self.find(pane) {
            Some(i) => Some(self.panes[i].1),
            None => None,
        }
    }

    /// How many panes have a state.
    pub fn len(&self) -> (r: usize)
        ensures
            r == self@.len(),
    {
        self.panes.len()
    }

    /// Whether no pane has a state.
    pub fn is_empty(&self) -> (r: bool)
        ensures
            r == (self@.len() == 0),
    {
        self.panes.len() == 0
    }
}

/// Setting a pane's state leaves the other panes alone.
pub proof fn law_insert_then_get(
    m: Seq<(Seq<char>, AgentState)>,
    pane: Seq<char>,
    state: AgentState,
    other: Seq<char>,
)
    ensures
        lookup(with_pane(m, pane, state), other) == if other == pane {
            Some(state)
        } else {
            lookup(m, other)
        },
{
    let n = with_pane(m, pane, state);
    lemma_key_pos(m, pane);
    lemma_key_pos(m, other);
    let p = key_pos(m, pane);
    let q = key_pos(m, other);
    if other == pane {
        lemma_key_pos_is(n, other, p);
    } else if q < m.len() {
        lemma_key_pos_is(n, other, q);
    } else {
        assert forall|j: int| 0 <= j < n.len() implies (#[trigger] n[j]).0 != other by {
            if j < m.len() && j != p {
                assert(n[j] == m[j]);
            }
        }
        lemma_key_pos_is(n, other, n.len() as int);
    }
}

/// The list of records in a tool's JSON: the document itself, or what stands
/// under the key, or under the key in `result`.
pub open spec fn listed(t: JsonTree, key: Seq<char>) -> Seq<JsonTree> {
    match t {
        Tree::Array(list) => list,
        Tree::Table(_) => match field(t, key) {
            Some(Tree::Array(list)) => list,
            _ => match field(t, "result"@) {
                Some(inner) => match field(inner, key) {
                    Some(Tree::Array(list)) => list,
                    _ => Seq::empty(),
                },
                None => Seq::empty(),
            },
        },
        _ => Seq::empty(),
    }
}

/// The list of records in a tool's JSON, where there is one.
pub fn unwrap_json_list<'a>(parsed: &'a Json, key: &str) -> (r: Option<&'a Vec<Json>>)
    ensures
        listed(parsed@, key@) == match r {
            Some(list) => views(list@),
            None => Seq::<JsonTree>::empty(),
        },
{
    broadcast use lemma_array_view;

    match parsed {
        Node::Array(list) => Some(list),
        Node::Table(_) => {
            if let Some(Node::Array(list)) = parsed.get(key) {
                return Some(list);
            }
            match parsed.get("result") {
                Some(inner) => match inner.get(key) {
                    Some(Node::Array(list)) => Some(list),
                    _ => None,
                },
                None => None,
            }
        },
        _ => None,
    }
}

/// The pane states that a list of records tells of. A record without a pane, or
/// without a state that is known, is passed over; of two records for one pane
/// the later counts.
pub open spec fn states_in(items: Seq<JsonTree>) -> Seq<(Seq<char>, AgentState)>
    decreases items.len(),
{
    if items.len() == 0 {
        Seq::empty()
    } else {
        let rest = states_in(items.drop_last());
        match text_field(items.last(), "pane_id"@) {
            Some(pane) => match text_field(items.last(), "agent_status"@) {
                Some(status) => match AgentState::named(status) {
                    Some(state) => with_pane(rest, pane, state),
                    None => rest,
                },
                None => rest,
            },
            None => rest,
        }
    }
}

/// The pane states that the output of `herdr agent list` tells of, once parsed.
pub fn states_from(parsed: &Json) -> (r: AgentStates)
    ensures
        r@ == states_in(listed(parsed@, "agents"@)),
{
    let mut states = AgentStates::new();
    if let Some(list) = unwrap_json_list(parsed, "agents") {
        let ghost all = views(list@);
        let mut i: usize = 0;
        assert(all.take(0) =~= Seq::empty());
        while i < list.len()
            invariant
                i <= list@.len(),
                all == views(list@),
                states@ == states_in(all.take(i as int)),
            decreases list@.len() - i,
        {
            let item = &list[i];
            proof {
                assert(all.take(i + 1).drop_last() =~= all.take(i as int));
                assert(all.take(i + 1).last() == item@);
            }
            if let Some(pane) = item.get_str("pane_id") {
                if let Some(status) = item.get_str("agent_status") {
                    if let Some(state) = AgentState::parse(status) {
                        states.insert(pane, state);
                    }
                }
            }
            i += 1;
        }
        assert(all.take(all.len() as int) =~= all);
    }
    states
}

/// The pane states that the output of `herdr agent list` tells of: none where it
/// is not JSON.
pub fn parse_agent_list(output: &str) -> (r: AgentStates)
    ensures
        r@ == match json_parsed(output@) {
            Ok(t) => states_in(listed(t, "agents"@)),
            Err(_) => Seq::<(Seq<char>, AgentState)>::empty(),
        },
{
    match json::parse(output) {
        Ok(parsed) => states_from(&parsed),
        Err(_) => AgentStates::new(),
    }
}

/// The search path for the child: the usual directories before what is there.
pub open spec fn widened_path(existing: Option<Seq<char>>) -> Seq<char> {
    let base = "/opt/homebrew/bin:/usr/local/bin:$HOME/.local/bin:$HOME/bin"@;
    match existing {
        Some(p) => base + ":"@ + p,
        None => base,
    }
}

/// The search path for the child. Non-interactive shells on some systems leave
/// these directories out.
pub fn extra_path(existing: Option<&str>) -> (r: String)
    ensures
        r@ == widened_path(text::opt_str(existing)),
{
    let base = "/opt/homebrew/bin:/usr/local/bin:$HOME/.local/bin:$HOME/bin";
    match existing {
        Some(p) => text::concat3(base, ":", p),
        None => text::owned(base),
    }
}

} // verus!
