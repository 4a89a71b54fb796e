//! Which terminal multiplexer a process runs in, read from the variables that
//! tmux, Zellij and Herdr set for the processes in their panes.

use crate::json;
use crate::json::{Json, JsonTree, Scalar};
use crate::text;
use crate::text::{opt_text, pieces};
use crate::tree::{lemma_table_view, text_node, well_formed, with_key, Node, Tree};
use vstd::prelude::*;

verus! {

/// The multiplexer.
#[derive(Debug, Clone, Copy, PartialEq, Eq, Structural)]
pub enum Kind {
    /// No multiplexer: a bare shell.
    Bare,
    Tmux,
    Zellij,
    Herdr,
}

impl Kind {
    /// The name as the contracts speak of it.
    pub open spec fn name(self) -> Seq<char> {
        match self {
            Kind::Bare => "none"@,
            Kind::Tmux => "tmux"@,
            Kind::Zellij => "zellij"@,
            Kind::Herdr => "herdr"@,
        }
    }

    /// The name.
    pub fn as_str(&self) -> (r: &'static str)
        ensures
            r@ == self.name(),
    {
        match self {
            Kind::Bare => "none",
            Kind::Tmux => "tmux",
            Kind::Zellij => "zellij",
            Kind::Herdr => "herdr",
        }
    }
}

impl Default for Kind {
    fn default() -> (r: Kind)
        ensures
            r == Kind::Bare,
    {
        Kind::Bare
    }
}

/// Where a process runs.
#[derive(Debug, PartialEq)]
pub struct Context {
    pub kind: Kind,
    pub session: Option<String>,
    pub pane: Option<String>,
    pub workspace: Option<String>,
    pub cwd: Option<String>,
}

/// A context as the contracts speak of it.
pub struct ContextView {
    pub kind: Kind,
    pub session: Option<Seq<char>>,
    pub pane: Option<Seq<char>>,
    pub workspace: Option<Seq<char>>,
    pub cwd: Option<Seq<char>>,
}

impl View for Context {
    type V = ContextView;

    open spec fn view(&self) -> ContextView {
        ContextView {
            kind: self.kind,
            session: opt_text(self.session),
            pane: opt_text(self.pane),
            workspace: opt_text(self.workspace),
            cwd: opt_text(self.cwd),
        }
    }
}

impl Default for Context {
    fn default() -> (r: Context)
        ensures
            r@ == (ContextView {
                kind: Kind::Bare,
                session: None,
                pane: None,
                workspace: None,
                cwd: None,
            }),
    {
        Context { kind: Kind::Bare, session: None, pane: None, workspace: None, cwd: None }
    }
}

/// The view of an optional context.
pub open spec fn opt_context(c: Option<Context>) -> Option<ContextView> {
    match c {
        Some(c) => Some(c@),
        None => None,
    }
}

/// The variables that a context is read from, each `None` where it is not set.
#[derive(Debug)]
pub struct Env {
    pub herdr_env: Option<String>,
    pub herdr_session: Option<String>,
    pub herdr_workspace: Option<String>,
    pub zellij: Option<String>,
    pub zellij_session_name: Option<String>,
    pub zellij_pane_id: Option<String>,
    pub tmux: Option<String>,
    pub tmux_pane: Option<String>,
    pub cwd: Option<String>,
}

/// A variable that is set and not empty.
pub open spec fn is_set(v: Option<String>) -> bool {
    v matches Some(s) && s@.len() > 0
}

/// The session in `$TMUX`: the third of its comma-separated fields.
pub open spec fn tmux_session(tmux: Seq<char>) -> Option<Seq<char>> {
    if pieces(tmux, ',').len() > 2 {
        Some(pieces(tmux, ',')[2])
    } else {
        None
    }
}

/// The context that the variables tell of. Herdr counts before Zellij, and Zellij
/// before tmux: a pane of the one may run inside the other.
pub open spec fn detected(env: Env) -> ContextView {
    if is_set(env.herdr_env) {
        ContextView {
            kind: Kind::Herdr,
            session: opt_text(env.herdr_session),
            pane: None,
            workspace: opt_text(env.herdr_workspace),
            cwd: opt_text(env.cwd),
        }
    } else if is_set(env.zellij) {
        ContextView {
            kind: Kind::Zellij,
            session: opt_text(env.zellij_session_name),
            pane: opt_text(env.zellij_pane_id),
            workspace: None,
            cwd: opt_text(env.cwd),
        }
    } else if is_set(env.tmux) {
        ContextView {
            kind: Kind::Tmux,
            session: tmux_session(env.tmux->0@),
            pane: opt_text(env.tmux_pane),
            workspace: None,
            cwd: opt_text(env.cwd),
        }
    } else {
        ContextView {
            kind: Kind::Bare,
            session: None,
            pane: None,
            workspace: None,
            cwd: opt_text(env.cwd),
        }
    }
}

/// The session in `$TMUX`, which is `<socket>,<pid>,<session>`.
pub fn parse_tmux_session(tmux: &str) -> (r: Option<String>)
    ensures
        opt_text(r) == tmux_session(tmux@),
{
    let parts = text::split_char(tmux, ',');
    if parts.len() > 2 {
        assert(text::texts(parts@)[2] == parts@[2]@);
        Some(parts[2].clone())
    } else {
        None
    }
}

fn set(v: &Option<String>) -> (r: bool)
    ensures
        r == is_set(*v),
{
    match v {
        Some(s) => !s.as_str().is_empty(),
        None => false,
    }
}

/// The context that the variables tell of.
pub fn detect(env: &Env) -> (r: Context)
    ensures
        r@ == detected(*env),
{
    let cwd = text::owned_opt(&env.cwd);
    if set(&env.herdr_env) {
        return Context {
            kind: Kind::Herdr,
            session: text::owned_opt(&env.herdr_session),
            pane: None,
            workspace: text::owned_opt(&env.herdr_workspace),
            cwd,
        };
    }
    if set(&env.zellij) {
        return Context {
            kind: Kind::Zellij,
            session: text::owned_opt(&env.zellij_session_name),
            pane: text::owned_opt(&env.zellij_pane_id),
            workspace: None,
            cwd,
        };
    }
    if let Some(tmux) = &env.tmux {
        if !tmux.as_str().is_empty() {
            return Context {
                kind: Kind::Tmux,
                session: parse_tmux_session(tmux.as_str()),
                pane: text::owned_opt(&env.tmux_pane),
                workspace: None,
                cwd,
            };
        }
    }
    Context { kind: Kind::Bare, session: None, pane: None, workspace: None, cwd }
}

/// A text, or `null` where there is none.
pub open spec fn text_or_null(s: Option<Seq<char>>) -> JsonTree {
    match s {
        Some(t) => JsonTree::Text(t),
        None => JsonTree::Leaf(Scalar::Null),
    }
}

/// A text, or `null` where there is none.
pub fn opt_node(s: &Option<String>) -> (r: Json)
    ensures
        r@ == text_or_null(opt_text(*s)),
{
    match s {
        Some(t) => text_node(t.as_str()),
        None => json::null(),
    }
}

/// A context as a JSON document.
pub open spec fn context_json(c: ContextView) -> JsonTree {
    Tree::Table(
        with_key(
            with_key(
                with_key(
                    with_key(
                        with_key(Seq::empty(), "kind"@, JsonTree::Text(c.kind.name())),
                        "session"@,
                        text_or_null(c.session),
                    ),
                    "pane"@,
                    text_or_null(c.pane),
                ),
                "workspace"@,
                text_or_null(c.workspace),
            ),
            "cwd"@,
            text_or_null(c.cwd),
        ),
    )
}

impl Context {
    /// This context as a JSON document.
    pub fn to_json(&self) -> (r: Json)
        ensures
            r@ == context_json(self@),
            well_formed(r@),
    {
        broadcast use lemma_table_view;

        let mut m = json::no_entries();
        json::put(&mut m, "kind", text_node(self.kind.as_str()));
        json::put(&mut m, "session", opt_node(&self.session));
        json::put(&mut m, "pane", opt_node(&self.pane));
        json::put(&mut m, "workspace", opt_node(&self.workspace));
        json::put(&mut m, "cwd", opt_node(&self.cwd));
        Node::Table(m)
    }

    /// A copy.
    pub fn copy(&self) -> (r: Context)
        ensures
            r@ == self@,
    {
        Context {
            kind: self.kind,
            session: text::owned_opt(&self.session),
            pane: text::owned_opt(&self.pane),
            workspace: text::owned_opt(&self.workspace),
            cwd: text::owned_opt(&self.cwd),
        }
    }
}

} // verus!
