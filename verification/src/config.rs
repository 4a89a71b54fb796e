//! The agents, and where each keeps the configuration that hooks go into.

use crate::paths::{dotted, hidden, join_path, path_joined, DirError};
use crate::text;
use crate::text::{lemma_pos_is, pos};
use vstd::prelude::*;

verus! {

/// A supported coding agent.
#[derive(Debug, Clone, Copy, PartialEq, Eq, Structural)]
pub enum Agent {
    ClaudeCode,
    Codex,
    OpenCode,
    Gemini,
    Cursor,
    Kimi,
    Qwen,
    Pi,
}

impl Agent {
    /// Every agent, in the order in which they are worked through.
    pub open spec fn listed() -> Seq<Agent> {
        seq![
            Agent::ClaudeCode,
            Agent::Codex,
            Agent::OpenCode,
            Agent::Gemini,
            Agent::Cursor,
            Agent::Kimi,
            Agent::Qwen,
            Agent::Pi,
        ]
    }

    /// The identifier as the contracts speak of it.
    pub open spec fn name(self) -> Seq<char> {
        match self {
            Agent::ClaudeCode => "claude_code"@,
            Agent::Codex => "codex"@,
            Agent::OpenCode => "opencode"@,
            Agent::Gemini => "gemini"@,
            Agent::Cursor => "cursor"@,
            Agent::Kimi => "kimi"@,
            Agent::Qwen => "qwen"@,
            Agent::Pi => "pi"@,
        }
    }

    /// The agent that a name stands for: an identifier, or the first word of
    /// `claude_code`.
    pub open spec fn named(s: Seq<char>) -> Option<Agent> {
        if s == "claude_code"@ || s == first_word("claude_code"@) {
            Some(Agent::ClaudeCode)
        } else if s == "codex"@ {
            Some(Agent::Codex)
        } else if s == "opencode"@ {
            Some(Agent::OpenCode)
        } else if s == "gemini"@ {
            Some(Agent::Gemini)
        } else if s == "cursor"@ {
            Some(Agent::Cursor)
        } else if s == "kimi"@ {
            Some(Agent::Kimi)
        } else if s == "qwen"@ {
            Some(Agent::Qwen)
        } else if s == "pi"@ {
            Some(Agent::Pi)
        } else {
            None
        }
    }

    /// The agent's configuration file below a home directory.
    pub open spec fn file_in(self, home: Seq<char>) -> Seq<char> {
        match self {
            Agent::ClaudeCode => path_joined(
                path_joined(home, hidden(first_word("claude_code"@))),
                "settings.json"@,
            ),
            Agent::Codex => path_joined(path_joined(home, ".codex"@), "hooks.json"@),
            Agent::OpenCode => path_joined(
                path_joined(
                    path_joined(path_joined(home, ".config"@), "opencode"@),
                    "plugins"@,
                ),
                "sailor-hooks.ts"@,
            ),
            Agent::Gemini => path_joined(path_joined(home, ".gemini"@), "settings.json"@),
            Agent::Cursor => path_joined(path_joined(home, ".cursor"@), "hooks.json"@),
            Agent::Kimi => path_joined(path_joined(home, ".kimi-code"@), "config.toml"@),
            Agent::Qwen => path_joined(path_joined(home, ".qwen"@), "settings.json"@),
            Agent::Pi => path_joined(
                path_joined(path_joined(path_joined(home, ".pi"@), "agent"@), "extensions"@),
                "sailor-hooks.ts"@,
            ),
        }
    }

    /// Every supported agent.
    pub fn all() -> (r: Vec<Agent>)
        ensures
            r@ == Agent::listed(),
    {
        let r = vec![
            Agent::ClaudeCode,
            Agent::Codex,
            Agent::OpenCode,
            Agent::Gemini,
            Agent::Cursor,
            Agent::Kimi,
            Agent::Qwen,
            Agent::Pi,
        ];
        assert(r@ =~= Agent::listed());
        r
    }

    /// The identifier that events and commands carry.
    pub fn id(&self) -> (r: &'static str)
        ensures
            r@ == self.name(),
    {
        match self {
            Agent::ClaudeCode => "claude_code",
            Agent::Codex => "codex",
            Agent::OpenCode => "opencode",
            Agent::Gemini => "gemini",
            Agent::Cursor => "cursor",
            Agent::Kimi => "kimi",
            Agent::Qwen => "qwen",
            Agent::Pi => "pi",
        }
    }

    /// The agent that a name stands for.
    pub fn parse(s: &str) -> (r: Option<Agent>)
        ensures
            r == Agent::named(s@),
    {
        if text::same(s, "claude_code") || text::same(s, first_word_of("claude_code").as_str()) {
            Some(Agent::ClaudeCode)
        } else if text::same(s, "codex") {
            Some(Agent::Codex)
        } else if text::same(s, "opencode") {
            Some(Agent::OpenCode)
        } else if text::same(s, "gemini") {
            Some(Agent::Gemini)
        } else if text::same(s, "cursor") {
            Some(Agent::Cursor)
        } else if text::same(s, "kimi") {
            Some(Agent::Kimi)
        } else if text::same(s, "qwen") {
            Some(Agent::Qwen)
        } else if text::same(s, "pi") {
            Some(Agent::Pi)
        } else {
            None
        }
    }

    /// The agent's configuration file below a home directory.
    pub fn config_file(&self, home: &str) -> (r: String)
        ensures
            r@ == self.file_in(home@),
    {
        match self {
            Agent::ClaudeCode => {
                let name = first_word_of("claude_code");
                let dir = join_path(home, dotted(name.as_str()).as_str());
                join_path(dir.as_str(), "settings.json")
            },
            Agent::Codex => join_path(join_path(home, ".codex").as_str(), "hooks.json"),
            Agent::OpenCode => {
                let base = join_path(join_path(home, ".config").as_str(), "opencode");
                join_path(join_path(base.as_str(), "plugins").as_str(), "sailor-hooks.ts")
            },
            Agent::Gemini => join_path(join_path(home, ".gemini").as_str(), "settings.json"),
            Agent::Cursor => join_path(join_path(home, ".cursor").as_str(), "hooks.json"),
            Agent::Kimi => join_path(join_path(home, ".kimi-code").as_str(), "config.toml"),
            Agent::Qwen => join_path(join_path(home, ".qwen").as_str(), "settings.json"),
            Agent::Pi => {
                let base = join_path(join_path(home, ".pi").as_str(), "agent");
                join_path(join_path(base.as_str(), "extensions").as_str(), "sailor-hooks.ts")
            },
        }
    }
}

/// The first word of an identifier: what stands before its first underscore.
pub open spec fn first_word(id: Seq<char>) -> Seq<char> {
    id.take(pos(id, '_'))
}

/// The first word of an identifier.
pub fn first_word_of(id: &str) -> (r: String)
    ensures
        r@ == first_word(id@),
{
    let v = text::chars(id);
    let end = text::char_from(&v, '_', 0);
    assert(id@.skip(0) =~= id@);
    assert(id@.subrange(0, end as int) =~= id@.take(end as int));
    text::slice_string(v.as_slice(), 0, end)
}

/// The first word of `claude_code` is six characters long, and the second of them
/// tells it from the other identifiers of that length.
proof fn lemma_first_word()
    ensures
        first_word("claude_code"@).len() == 6,
        first_word("claude_code"@)[1] == 'l',
{
    reveal_strlit("claude_code");
    let s = "claude_code"@;
    assert(s[0] != '_' && s[1] != '_' && s[2] != '_' && s[3] != '_' && s[4] != '_' && s[5] != '_');
    lemma_pos_is(s, '_', 6);
}

/// Parsing the identifier of an agent gives that agent.
pub proof fn law_parse_undoes_id(a: Agent)
    ensures
        Agent::named(a.name()) == Some(a),
        Agent::listed().contains(a),
{
    reveal_strlit("claude_code");
    lemma_first_word();
    reveal_strlit("codex");
    reveal_strlit("opencode");
    reveal_strlit("gemini");
    reveal_strlit("cursor");
    reveal_strlit("kimi");
    reveal_strlit("qwen");
    reveal_strlit("pi");
    let i: int = match a {
        Agent::ClaudeCode => 0,
        Agent::Codex => 1,
        Agent::OpenCode => 2,
        Agent::Gemini => 3,
        Agent::Cursor => 4,
        Agent::Kimi => 5,
        Agent::Qwen => 6,
        Agent::Pi => 7,
    };
    assert(Agent::listed()[i] == a);
    assert("cursor"@[1] == 'u' && "gemini"@[1] == 'e');
    assert("kimi"@[0] == 'k' && "qwen"@[0] == 'q');
    assert("claude_code"@.len() == 11 && "codex"@.len() == 5);
    assert("opencode"@.len() == 8 && "gemini"@.len() == 6 && "cursor"@.len() == 6);
    assert("kimi"@.len() == 4 && "qwen"@.len() == 4 && "pi"@.len() == 2);
}

/// A configuration file that hooks go into.
#[derive(Debug)]
pub struct Target {
    pub agent: Agent,
    pub path: String,
}

/// A target as the contracts speak of it.
pub struct TargetView {
    pub agent: Agent,
    pub path: Seq<char>,
}

impl View for Target {
    type V = TargetView;

    open spec fn view(&self) -> TargetView {
        TargetView { agent: self.agent, path: self.path@ }
    }
}

/// Why no targets could be resolved.
#[derive(Debug)]
pub enum TargetError {
    NoHome,
    UnknownAgent(String),
}

impl TargetError {
    /// The message for the user.
    pub fn message(&self) -> (r: String)
        ensures
            r@ == match *self {
                TargetError::NoHome => DirError::NoHome.text(),
                TargetError::UnknownAgent(name) => "unknown agent: "@ + name@,
            },
    {
        match self {
            TargetError::NoHome => DirError::NoHome.message(),
            TargetError::UnknownAgent(name) => text::concat2("unknown agent: ", name.as_str()),
        }
    }
}

/// The targets of a list of agents below a home directory.
pub open spec fn targets_of(agents: Seq<Agent>, home: Seq<char>) -> Seq<TargetView> {
    Seq::new(
        agents.len(),
        |i: int| TargetView { agent: agents[i], path: agents[i].file_in(home) },
    )
}

/// The agents that a filter selects: all of them without one.
pub open spec fn selected(filter: Option<Seq<char>>) -> Option<Seq<Agent>> {
    match filter {
        None => Some(Agent::listed()),
        Some(name) => match Agent::named(name) {
            Some(a) => Some(seq![a]),
            None => None,
        },
    }
}

/// The views of a list of targets.
pub open spec fn target_views(v: Seq<Target>) -> Seq<TargetView> {
    Seq::new(v.len(), |i: int| v[i]@)
}

/// The configuration files of the agents that a filter selects.
pub fn targets_for(filter: Option<&str>, home: Option<&str>) -> (r: Result<
    Vec<Target>,
    TargetError,
>)
    ensures
        match r {
            Ok(v) => home is Some && selected(text::opt_str(filter)) is Some && target_views(v@)
                == targets_of(selected(text::opt_str(filter))->0, home->0@),
            Err(TargetError::NoHome) => home is None,
            Err(TargetError::UnknownAgent(name)) => home is Some && filter is Some
                && Agent::named(filter->0@) is None && name@ == filter->0@,
        },
{
    let home = match home {
        Some(h) => h,
        None => return Err(TargetError::NoHome),
    };
    let agents = match filter {
        None => Agent::all(),
        Some(name) => match Agent::parse(name) {
            Some(a) => {
                let one = vec![a];
                assert(one@ =~= seq![a]);
                one
            },
            None => return Err(TargetError::UnknownAgent(text::owned(name))),
        },
    };
    let mut out: Vec<Target> = Vec::new();
    let mut i: usize = 0;
    while i < agents.len()
        invariant
            i <= agents@.len(),
            out@.len() == i,
            forall|k: int| 0 <= k < i ==> (#[trigger] out@[k])@ == targets_of(agents@, home@)[k],
        decreases agents@.len() - i,
    {
        let agent = agents[i];
        out.push(Target { agent, path: agent.config_file(home) });
        i += 1;
    }
    assert(target_views(out@) =~= targets_of(agents@, home@));
    Ok(out)
}

} // verus!
