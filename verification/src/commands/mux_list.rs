//! What the installed multiplexers list, as one document. Their output is passed
//! on as it is; only the names of herdr's sessions are read, since the agents are
//! listed per session.

use crate::json;
use crate::json::{json_parsed, Json, JsonTree};
use crate::text;
use crate::text::{joined, opt_str, texts};
use crate::tree::{
    entries, field, lemma_array_view, lemma_table_view, text_field, text_node, views, well_formed,
    with_key, Node, Tree,
};
use vstd::prelude::*;

verus! {

/// A multiplexer.
#[derive(Debug, Clone, Copy, PartialEq, Eq, Structural)]
pub enum Mux {
    Tmux,
    Zellij,
    Herdr,
}

impl Mux {
    /// The name of its program.
    pub open spec fn name(self) -> Seq<char> {
        match self {
            Mux::Tmux => "tmux"@,
            Mux::Zellij => "zellij"@,
            Mux::Herdr => "herdr"@,
        }
    }

    /// The name of its program.
    pub fn program(self) -> (r: &'static str)
        ensures
            r@ == self.name(),
    {
        match self {
            Mux::Tmux => "tmux",
            Mux::Zellij => "zellij",
            Mux::Herdr => "herdr",
        }
    }

    /// The arguments with which it lists its sessions.
    pub open spec fn listing(self) -> Seq<Seq<char>> {
        match self {
            Mux::Tmux => seq![
                "list-sessions"@,
                "-F"@,
                "#{session_name}\t#{session_windows}\t#{session_attached}\t#{session_created}"@,
            ],
            Mux::Zellij => seq!["list-sessions"@, "--no-formatting"@],
            Mux::Herdr => seq!["session"@, "list"@, "--json"@],
        }
    }

    /// The arguments with which it lists its sessions.
    pub fn list_args(self) -> (r: Vec<String>)
        ensures
            texts(r@) == self.listing(),
    {
        let args = match self {
            Mux::Tmux => vec![
                text::owned("list-sessions"),
                text::owned("-F"),
                text::owned(
                    "#{session_name}\t#{session_windows}\t#{session_attached}\t#{session_created}",
                ),
            ],
            Mux::Zellij => vec![text::owned("list-sessions"), text::owned("--no-formatting")],
            Mux::Herdr => vec![
                text::owned("session"),
                text::owned("list"),
                text::owned("--json"),
            ],
        };
        assert(texts(args@) =~= self.listing());
        args
    }
}

// ---------------------------------------------------------------------------
// The sessions of herdr
// ---------------------------------------------------------------------------

/// The names that a list of records has; a record without one is passed over.
pub open spec fn names_in(items: Seq<JsonTree>) -> Seq<Seq<char>>
    decreases items.len(),
{
    if items.len() == 0 {
        Seq::empty()
    } else {
        let rest = names_in(items.drop_last());
        match text_field(items.last(), "name"@) {
            Some(name) => rest.push(name),
            None => rest,
        }
    }
}

/// The records of a session list: the document itself, or what stands under
/// `sessions`.
pub open spec fn session_records(t: JsonTree) -> Seq<JsonTree> {
    match t {
        Tree::Array(list) => list,
        _ => match field(t, "sessions"@) {
            Some(Tree::Array(list)) => list,
            _ => Seq::empty(),
        },
    }
}

/// The names of the sessions that a session list tells of.
pub open spec fn session_names(t: JsonTree) -> Seq<Seq<char>> {
    names_in(session_records(t))
}

fn record_names(list: &Vec<Json>) -> (r: Vec<String>)
    ensures
        texts(r@) == names_in(views(list@)),
{
    let ghost all = views(list@);
    let mut out: Vec<String> = Vec::new();
    let mut i: usize = 0;
    assert(all.take(0) =~= Seq::empty());
    assert(texts(out@) =~= Seq::empty());
    while i < list.len()
        invariant
            i <= list@.len(),
            all == views(list@),
            texts(out@) == names_in(all.take(i as int)),
        decreases list@.len() - i,
    {
        let ghost before = texts(out@);
        proof {
            assert(all.take(i + 1).drop_last() =~= all.take(i as int));
            assert(all.take(i + 1).last() == list@[i as int]@);
        }
        if let Some(name) = list[i].get_str("name") {
            out.push(text::owned(name));
            assert(texts(out@) =~= before.push(name@));
        }
        i += 1;
    }
    assert(all.take(all.len() as int) =~= all);
    out
}

/// The names of the sessions that a session list tells of, once parsed.
pub fn session_names_of(parsed: &Json) -> (r: Vec<String>)
    ensures
        texts(r@) == session_names(parsed@),
{
    broadcast use lemma_array_view;

    match parsed {
        Node::Array(list) => record_names(list),
        _ => match parsed.get("sessions") {
            Some(Node::Array(list)) => record_names(list),
            _ => {
                let none: Vec<String> = Vec::new();
                assert(texts(none@) =~= Seq::empty());
                none
            },
        },
    }
}

/// The names of the sessions that the output of `herdr session list --json` tells
/// of: none where it is not JSON.
pub fn herdr_session_names(output: &str) -> (r: Vec<String>)
    ensures
        texts(r@) == match json_parsed(output@) {
            Ok(t) => session_names(t),
            Err(_) => Seq::empty(),
        },
{
    match json::parse(output) {
        Ok(parsed) => session_names_of(&parsed),
        Err(_) => {
            let none: Vec<String> = Vec::new();
            assert(texts(none@) =~= Seq::empty());
            none
        },
    }
}

/// The arguments with which herdr lists the agents of a session.
pub fn agent_args(session: &str) -> (r: Vec<String>)
    ensures
        texts(r@) == seq!["--session"@, session@, "agent"@, "list"@],
{
    let args = vec![
        text::owned("--session"),
        text::owned(session),
        text::owned("agent"),
        text::owned("list"),
    ];
    assert(texts(args@) =~= seq!["--session"@, session@, "agent"@, "list"@]);
    args
}

// ---------------------------------------------------------------------------
// The document
// ---------------------------------------------------------------------------

/// Whether a multiplexer was found.
pub open spec fn detected(mux: Mux, output: Option<Seq<char>>) -> Seq<char> {
    mux.name() + if output is Some {
        "=1"@
    } else {
        "=0"@
    }
}

/// A table with what a multiplexer printed added, where it is there.
pub open spec fn with_output(
    m: Seq<(Seq<char>, JsonTree)>,
    name: Seq<char>,
    output: Option<Seq<char>>,
) -> Seq<(Seq<char>, JsonTree)> {
    match output {
        Some(s) => with_key(m, name, JsonTree::Text(s)),
        None => m,
    }
}

/// What the agents of herdr's sessions listed; of two outputs for one name the
/// later counts.
pub open spec fn agent_lists(agents: Seq<(Seq<char>, Option<Seq<char>>)>) -> Seq<
    (Seq<char>, JsonTree),
>
    decreases agents.len(),
{
    if agents.len() == 0 {
        Seq::empty()
    } else {
        with_output(agent_lists(agents.drop_last()), agents.last().0, agents.last().1)
    }
}

/// The document.
pub open spec fn mux_listing(
    tmux: Option<Seq<char>>,
    zellij: Option<Seq<char>>,
    herdr: Option<Seq<char>>,
    agents: Seq<(Seq<char>, Option<Seq<char>>)>,
) -> JsonTree {
    let detect = joined(
        seq![
            detected(Mux::Tmux, tmux),
            detected(Mux::Zellij, zellij),
            detected(Mux::Herdr, herdr),
        ],
        "\n"@,
    );
    let lists = with_output(
        with_output(with_output(Seq::empty(), "tmux"@, tmux), "zellij"@, zellij),
        "herdr"@,
        herdr,
    );
    Tree::Table(
        with_key(
            with_key(
                with_key(Seq::empty(), "detect"@, JsonTree::Text(detect)),
                "lists"@,
                Tree::Table(lists),
            ),
            "agents"@,
            Tree::Table(agent_lists(agents)),
        ),
    )
}

/// The outputs of herdr as the contracts speak of them.
pub open spec fn agent_outputs(v: Seq<(String, Option<String>)>) -> Seq<
    (Seq<char>, Option<Seq<char>>),
> {
    Seq::new(v.len(), |i: int| (v[i].0@, text::opt_text(v[i].1)))
}

fn put_output(m: &mut Vec<(String, Json)>, name: &str, output: Option<&str>)
    requires
        well_formed(JsonTree::Table(entries(old(m)@))),
    ensures
        entries(final(m)@) == with_output(entries(old(m)@), name@, opt_str(output)),
        well_formed(JsonTree::Table(entries(final(m)@))),
{
    if let Some(s) = output {
        json::put(m, name, text_node(s));
    }
}

fn put_agents(agents: &Vec<(String, Option<String>)>) -> (r: Vec<(String, Json)>)
    ensures
        entries(r@) == agent_lists(agent_outputs(agents@)),
        well_formed(JsonTree::Table(entries(r@))),
{
    let ghost all = agent_outputs(agents@);
    let mut m = json::no_entries();
    let mut i: usize = 0;
    assert(all.take(0) =~= Seq::empty());
    while i < agents.len()
        invariant
            i <= agents@.len(),
            all == agent_outputs(agents@),
            entries(m@) == agent_lists(all.take(i as int)),
            well_formed(JsonTree::Table(entries(m@))),
        decreases agents@.len() - i,
    {
        proof {
            assert(all.take(i + 1).drop_last() =~= all.take(i as int));
            assert(all.take(i + 1).last() == all[i as int]);
        }
        match &agents[i].1 {
            Some(output) => put_output(&mut m, agents[i].0.as_str(), Some(output.as_str())),
            None => {},
        }
        i += 1;
    }
    assert(all.take(all.len() as int) =~= all);
    m
}

fn detection(mux: Mux, output: Option<&str>) -> (r: String)
    ensures
        r@ == detected(mux, opt_str(output)),
{
    text::concat2(
        mux.program(),
        if output.is_some() {
            "=1"
        } else {
            "=0"
        },
    )
}

/// The document. Each multiplexer's output is what it printed when it was asked
/// for its sessions, `None` where it is not installed; `agents` holds what herdr
/// printed for each of its sessions.
pub fn collect(
    tmux: Option<&str>,
    zellij: Option<&str>,
    herdr: Option<&str>,
    agents: &Vec<(String, Option<String>)>,
) -> (r: Json)
    ensures
        r@ == mux_listing(
            opt_str(tmux),
            opt_str(zellij),
            opt_str(herdr),
            agent_outputs(agents@),
        ),
        well_formed(r@),
{
    broadcast use lemma_table_view;

    let parts = vec![
        detection(Mux::Tmux, tmux),
        detection(Mux::Zellij, zellij),
        detection(Mux::Herdr, herdr),
    ];
    assert(texts(parts@) =~= seq![
        detected(Mux::Tmux, opt_str(tmux)),
        detected(Mux::Zellij, opt_str(zellij)),
        detected(Mux::Herdr, opt_str(herdr)),
    ]);
    let detect = text::join(&parts, "\n");
    let mut lists = json::no_entries();
    put_output(&mut lists, "tmux", tmux);
    put_output(&mut lists, "zellij", zellij);
    put_output(&mut lists, "herdr", herdr);
    let mut m = json::no_entries();
    json::put(&mut m, "detect", text_node(detect.as_str()));
    json::put(&mut m, "lists", Node::Table(lists));
    json::put(&mut m, "agents", Node::Table(put_agents(agents)));
    Node::Table(m)
}

} // verus!
