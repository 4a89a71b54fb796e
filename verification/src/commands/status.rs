//! What the daemon, the pairing and the hooks are at.

use crate::commands::install::push_line;
use crate::commands::serve::GATEWAY_PORT;
use crate::json;
use crate::json::{number_tree, text_array, Json, JsonTree, Scalar};
use crate::paths::{join_path, path_joined};
use crate::text;
use crate::text::{decimal, joined, texts};
use crate::tree::{lemma_table_view, text_node, well_formed, with_key, Node, Tree};
use vstd::prelude::*;

verus! {

/// What is known.
#[derive(Debug)]
pub struct Status {
    pub version: String,
    pub paired: bool,
    /// Whether the gateway answers on the loopback address.
    pub running: bool,
    /// The agents that have our hooks.
    pub agents: Vec<String>,
    pub state: String,
    pub config: String,
    pub socket: String,
}

/// The paths as a document.
pub open spec fn paths_json(s: Status) -> JsonTree {
    Tree::Table(
        with_key(
            with_key(
                with_key(
                    with_key(
                        with_key(Seq::empty(), "state"@, JsonTree::Text(s.state@)),
                        "config"@,
                        JsonTree::Text(s.config@),
                    ),
                    "socket"@,
                    JsonTree::Text(s.socket@),
                ),
                "lock"@,
                JsonTree::Text(path_joined(s.state@, "serve.lock"@)),
            ),
            "gateway_log"@,
            JsonTree::Text(path_joined(s.state@, "gateway.log"@)),
        ),
    )
}

/// The gateway as a document.
pub open spec fn gateway_json(running: bool) -> JsonTree {
    Tree::Table(
        with_key(
            with_key(
                with_key(Seq::empty(), "host"@, JsonTree::Text("127.0.0.1"@)),
                "port"@,
                number_tree(GATEWAY_PORT as u64),
            ),
            "running"@,
            Tree::Leaf(Scalar::Bool(running)),
        ),
    )
}

/// The status as a document.
pub open spec fn status_tree(s: Status) -> JsonTree {
    Tree::Table(
        with_key(
            with_key(
                with_key(
                    with_key(
                        with_key(Seq::empty(), "version"@, JsonTree::Text(s.version@)),
                        "paired"@,
                        Tree::Leaf(Scalar::Bool(s.paired)),
                    ),
                    "gateway"@,
                    gateway_json(s.running),
                ),
                "agents_installed"@,
                text_array(texts(s.agents@)),
            ),
            "paths"@,
            paths_json(s),
        ),
    )
}

/// The status as a document.
pub fn status_json(s: &Status) -> (r: Json)
    ensures
        r@ == status_tree(*s),
        well_formed(r@),
{
    broadcast use lemma_table_view;

    let mut paths = json::no_entries();
    json::put(&mut paths, "state", text_node(s.state.as_str()));
    json::put(&mut paths, "config", text_node(s.config.as_str()));
    json::put(&mut paths, "socket", text_node(s.socket.as_str()));
    let lock = join_path(s.state.as_str(), "serve.lock");
    json::put(&mut paths, "lock", text_node(lock.as_str()));
    let log = join_path(s.state.as_str(), "gateway.log");
    json::put(&mut paths, "gateway_log", text_node(log.as_str()));
    let mut gateway = json::no_entries();
    json::put(&mut gateway, "host", text_node("127.0.0.1"));
    json::put(&mut gateway, "port", json::number(GATEWAY_PORT as u64));
    json::put(&mut gateway, "running", json::boolean(s.running));
    let mut m = json::no_entries();
    json::put(&mut m, "version", text_node(s.version.as_str()));
    json::put(&mut m, "paired", json::boolean(s.paired));
    json::put(&mut m, "gateway", Node::Table(gateway));
    json::put(&mut m, "agents_installed", json::text_list(&s.agents));
    json::put(&mut m, "paths", Node::Table(paths));
    Node::Table(m)
}

/// The status as lines.
pub open spec fn status_text(s: Status) -> Seq<Seq<char>> {
    seq![
        "sailor-hook v"@ + s.version@,
        "  paired:     "@ + if s.paired {
            "yes"@
        } else {
            "no"@
        },
        "  gateway:    127.0.0.1:"@ + decimal(GATEWAY_PORT as nat) + " ("@ + (if s.running {
            "running"@
        } else {
            "not running"@
        }) + ")"@,
        "  agents:     "@ + if s.agents@.len() == 0 {
            "(none installed)"@
        } else {
            joined(texts(s.agents@), ", "@)
        },
        "  state:      "@ + s.state@,
        "  config:     "@ + s.config@,
        "  socket:     "@ + s.socket@,
    ]
}

/// The status as lines.
pub fn status_lines(s: &Status) -> (r: Vec<String>)
    ensures
        texts(r@) == status_text(*s),
{
    let mut lines: Vec<String> = Vec::new();
    assert(texts(lines@) =~= Seq::empty());
    push_line(&mut lines, text::concat2("sailor-hook v", s.version.as_str()));
    push_line(
        &mut lines,
        text::concat2(
            "  paired:     ",
            if s.paired {
                "yes"
            } else {
                "no"
            },
        ),
    );
    let mut gateway = text::concat3(
        "  gateway:    127.0.0.1:",
        text::number(GATEWAY_PORT as u64).as_str(),
        " (",
    );
    gateway.append(
        if s.running {
            "running"
        } else {
            "not running"
        },
    );
    gateway.append(")");
    push_line(&mut lines, gateway);
    let agents = if s.agents.len() == 0 {
        text::owned("(none installed)")
    } else {
        text::join(&s.agents, ", ")
    };
    push_line(&mut lines, text::concat2("  agents:     ", agents.as_str()));
    push_line(&mut lines, text::concat2("  state:      ", s.state.as_str()));
    push_line(&mut lines, text::concat2("  config:     ", s.config.as_str()));
    push_line(&mut lines, text::concat2("  socket:     ", s.socket.as_str()));
    assert(texts(lines@) =~= status_text(*s));
    lines
}

} // verus!
