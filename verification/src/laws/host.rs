//! Laws of the host: its directories, the agents' files, where an agent runs, what
//! Herdr tells of it, and what is pushed to the phone.

use crate::config::{first_word, selected, targets_of, Agent};
use crate::context::{context_json, detected, tmux_session, ContextView, Env};
use crate::events::Category;
use crate::herdr::{listed, states_in, widened_path, with_pane, AgentState};
use crate::json::{json_text, number_tree, JsonTree, Scalar};
use crate::laws::text::{law_last_cut, law_pieces};
use crate::paths::{config_path, hidden, path_joined, state_path, DirError};
use crate::push::{note_tree, on_one_line, request_for, short_name, wakes, Kind};
use crate::text::{lemma_pos_is, opt_text, replaced2, trimmed, without_trailing};
use crate::tree::{
    field, key_pos, lemma_key_pos, lemma_key_pos_is, lemma_with_key, lookup, text_field, with_key,
};
use vstd::prelude::*;

verus! {

// ---------------------------------------------------------------------------
// Paths
// ---------------------------------------------------------------------------

/// A component is put behind one slash, whether the directory ends in one or not;
/// an absolute path stands for itself.
pub proof fn law_path_joined(dir: Seq<char>, part: Seq<char>)
    requires
        dir.len() > 0,
    ensures
        dir.last() != '/' && (part.len() == 0 || part[0] != '/') ==> path_joined(dir, part) == dir
            + seq!['/'] + part,
        dir.last() == '/' && (part.len() == 0 || part[0] != '/') ==> path_joined(dir, part) == dir
            + part,
        part.len() > 0 && part[0] == '/' ==> path_joined(dir, part) == part,
{
    reveal_strlit("/");
    assert("/"@ =~= seq!['/']);
}

/// An override that is set and not empty is the directory; without one, state is
/// kept in `.sailor` at home and secrets in `sailor` where the user's configuration
/// is. Without a home, or such a place, there is none.
pub proof fn law_directories(over: Seq<char>, base: Seq<char>)
    requires
        base.len() > 0 && base.last() != '/',
    ensures
        over.len() > 0 ==> state_path(Some(over), None) == Ok::<Seq<char>, DirError>(over),
        over.len() > 0 ==> state_path(Some(over), Some(base)) == Ok::<Seq<char>, DirError>(over),
        over.len() > 0 ==> config_path(Some(over), None) == Ok::<Seq<char>, DirError>(over),
        over.len() > 0 ==> config_path(Some(over), Some(base)) == Ok::<Seq<char>, DirError>(over),
        state_path(None, Some(base)) == Ok::<Seq<char>, DirError>(base + "/.sailor"@),
        config_path(None, Some(base)) == Ok::<Seq<char>, DirError>(base + "/sailor"@),
        over.len() == 0 ==> state_path(Some(over), Some(base)) == state_path(None, Some(base)),
        over.len() == 0 ==> config_path(Some(over), Some(base)) == config_path(None, Some(base)),
        state_path(None, None) == Err::<Seq<char>, DirError>(DirError::NoHome),
        config_path(None, None) == Err::<Seq<char>, DirError>(DirError::NoConfigDir),
{
    reveal_strlit("/");
    reveal_strlit(".sailor");
    reveal_strlit("sailor");
    reveal_strlit("/.sailor");
    reveal_strlit("/sailor");
    assert("/"@ + ".sailor"@ =~= "/.sailor"@);
    assert("/"@ + "sailor"@ =~= "/sailor"@);
    assert(base + "/"@ + ".sailor"@ =~= base + "/.sailor"@);
    assert(base + "/"@ + "sailor"@ =~= base + "/sailor"@);
}

// ---------------------------------------------------------------------------
// Agents
// ---------------------------------------------------------------------------

/// A component that is not empty and not absolute is put behind a slash.
proof fn lemma_under(dir: Seq<char>, part: Seq<char>)
    requires
        dir.len() > 0 && dir.last() != '/',
        part.len() > 0 && part[0] != '/' && part.last() != '/',
    ensures
        path_joined(dir, part) == dir + "/"@ + part,
        path_joined(dir, part).len() > 0,
        path_joined(dir, part).last() != '/',
{
}

/// Each agent's settings are where that agent looks for them, below home.
pub proof fn law_settings_files(home: Seq<char>)
    requires
        home.len() > 0 && home.last() != '/',
    ensures
        Agent::Codex.file_in(home) == home + "/.codex/hooks.json"@,
        Agent::Gemini.file_in(home) == home + "/.gemini/settings.json"@,
        Agent::Cursor.file_in(home) == home + "/.cursor/hooks.json"@,
        Agent::Kimi.file_in(home) == home + "/.kimi-code/config.toml"@,
        Agent::Qwen.file_in(home) == home + "/.qwen/settings.json"@,
        Agent::OpenCode.file_in(home) == home + "/.config/opencode/plugins/sailor-hooks.ts"@,
        Agent::Pi.file_in(home) == home + "/.pi/agent/extensions/sailor-hooks.ts"@,
        Agent::ClaudeCode.file_in(home) == home + "/."@ + "claude_code"@.take(6)
            + "/settings.json"@,
{
    reveal_strlit("/");
    lemma_two(home, ".codex"@, "hooks.json"@);
    lemma_two(home, ".gemini"@, "settings.json"@);
    lemma_two(home, ".cursor"@, "hooks.json"@);
    lemma_two(home, ".kimi-code"@, "config.toml"@);
    lemma_two(home, ".qwen"@, "settings.json"@);
    reveal_strlit(".codex");
    reveal_strlit("hooks.json");
    reveal_strlit("/.codex/hooks.json");
    assert("/"@ + ".codex"@ + "/"@ + "hooks.json"@ =~= "/.codex/hooks.json"@);
    reveal_strlit(".gemini");
    reveal_strlit("settings.json");
    reveal_strlit("/.gemini/settings.json");
    assert("/"@ + ".gemini"@ + "/"@ + "settings.json"@ =~= "/.gemini/settings.json"@);
    reveal_strlit(".cursor");
    reveal_strlit("/.cursor/hooks.json");
    assert("/"@ + ".cursor"@ + "/"@ + "hooks.json"@ =~= "/.cursor/hooks.json"@);
    reveal_strlit(".kimi-code");
    reveal_strlit("config.toml");
    reveal_strlit("/.kimi-code/config.toml");
    assert("/"@ + ".kimi-code"@ + "/"@ + "config.toml"@ =~= "/.kimi-code/config.toml"@);
    reveal_strlit(".qwen");
    reveal_strlit("/.qwen/settings.json");
    assert("/"@ + ".qwen"@ + "/"@ + "settings.json"@ =~= "/.qwen/settings.json"@);
    lemma_plugin_files(home);
    reveal_strlit("claude_code");
    reveal_strlit(".");
    reveal_strlit("/.");
    reveal_strlit("/settings.json");
    lemma_pos_is("claude_code"@, '_', 6);
    let word = "claude_code"@.take(6);
    assert("claude_code"@[5] == 'e' && word.last() == 'e');
    assert(first_word("claude_code"@) == word);
    let dir = hidden(word);
    assert(dir.len() > 0 && dir[0] == '.' && dir.last() == 'e');
    lemma_two(home, dir, "settings.json"@);
    assert(home + ("/"@ + dir + "/"@ + "settings.json"@) =~= home + "/."@ + word
        + "/settings.json"@);
}

proof fn lemma_two(home: Seq<char>, a: Seq<char>, b: Seq<char>)
    ensures
        home.len() > 0 && home.last() != '/' && a.len() > 0 && a[0] != '/' && a.last() != '/'
            && b.len() > 0 && b[0] != '/' ==> path_joined(path_joined(home, a), b) == home + ("/"@
            + a + "/"@ + b),
{
    if home.len() > 0 && home.last() != '/' && a.len() > 0 && a[0] != '/' && a.last() != '/'
        && b.len() > 0 && b[0] != '/' {
        lemma_under(home, a);
        assert(path_joined(home, a) + "/"@ + b =~= home + ("/"@ + a + "/"@ + b));
    }
}

proof fn lemma_plugin_files(home: Seq<char>)
    requires
        home.len() > 0 && home.last() != '/',
    ensures
        Agent::OpenCode.file_in(home) == home + "/.config/opencode/plugins/sailor-hooks.ts"@,
        Agent::Pi.file_in(home) == home + "/.pi/agent/extensions/sailor-hooks.ts"@,
{
    reveal_strlit("/");
    reveal_strlit(".config");
    reveal_strlit("opencode");
    reveal_strlit("plugins");
    reveal_strlit("sailor-hooks.ts");
    reveal_strlit(".pi");
    reveal_strlit("agent");
    reveal_strlit("extensions");
    reveal_strlit("/.config/opencode/plugins/sailor-hooks.ts");
    reveal_strlit("/.pi/agent/extensions/sailor-hooks.ts");
    assert(".config"@.last() == 'g' && "opencode"@.last() == 'e' && "plugins"@.last() == 's');
    assert(".pi"@.last() == 'i' && "agent"@.last() == 't' && "extensions"@.last() == 's');
    lemma_under(home, ".config"@);
    lemma_under(home, ".pi"@);
    let c = path_joined(home, ".config"@);
    let p = path_joined(home, ".pi"@);
    lemma_two(c, "opencode"@, "plugins"@);
    lemma_under(c, "opencode"@);
    lemma_under(path_joined(c, "opencode"@), "plugins"@);
    lemma_two(p, "agent"@, "extensions"@);
    lemma_under(p, "agent"@);
    lemma_under(path_joined(p, "agent"@), "extensions"@);
    assert(Agent::OpenCode.file_in(home)
        =~= home + "/.config/opencode/plugins/sailor-hooks.ts"@);
    assert(Agent::Pi.file_in(home) =~= home + "/.pi/agent/extensions/sailor-hooks.ts"@);
}

/// Without a filter every agent is meant, each once; a filter means the agent of
/// that name, and a name of none means nothing. Each agent's target is its own file.
pub proof fn law_targets(a: Agent, home: Seq<char>, i: int)
    ensures
        selected(None) matches Some(all) && all.contains(a) && all.len() == 8
            && all.no_duplicates(),
        selected(Some(a.name())) == Some(seq![a]),
        selected(None) matches Some(all) && (0 <= i < all.len() ==> targets_of(all, home)[i].agent
            == all[i] && targets_of(all, home)[i].path == all[i].file_in(home)),
        targets_of(Agent::listed(), home).len() == 8,
{
    crate::config::law_parse_undoes_id(a);
}

/// An agent is meant by its identifier; `claude_code` also by the first word of it.
/// No other name means an agent.
pub proof fn law_agent_names(s: Seq<char>)
    ensures
        Agent::named("claude_code"@.take(6)) == Some(Agent::ClaudeCode),
        Agent::named(s) is Some ==> s == "claude_code"@ || s == "claude_code"@.take(6) || s
            == "codex"@ || s == "opencode"@ || s == "gemini"@ || s == "cursor"@ || s == "kimi"@ || s
            == "qwen"@ || s == "pi"@,
        Agent::Codex.name() == "codex"@ && Agent::OpenCode.name() == "opencode"@,
        Agent::Gemini.name() == "gemini"@ && Agent::Cursor.name() == "cursor"@,
        Agent::Kimi.name() == "kimi"@ && Agent::Qwen.name() == "qwen"@,
        Agent::Pi.name() == "pi"@ && Agent::ClaudeCode.name() == "claude_code"@,
        selected(Some(s)) is Some <==> Agent::named(s) is Some,
{
    reveal_strlit("claude_code");
    lemma_pos_is("claude_code"@, '_', 6);
}

// ---------------------------------------------------------------------------
// Where an agent runs
// ---------------------------------------------------------------------------

/// The session in `$TMUX` is what follows its second comma.
pub proof fn law_tmux_session(socket: Seq<char>, pid: Seq<char>, session: Seq<char>)
    requires
        !socket.contains(','),
        !pid.contains(','),
        !session.contains(','),
    ensures
        tmux_session(socket + seq![','] + (pid + seq![','] + session)) == Some(session),
        tmux_session(socket) is None,
        tmux_session(socket + seq![','] + pid) is None,
{
    law_pieces(socket, ',', pid + seq![','] + session);
    law_pieces(pid, ',', session);
    law_pieces(session, ',', Seq::empty());
    law_pieces(socket, ',', pid);
    law_pieces(pid, ',', Seq::empty());
}

/// Where several multiplexers left their marks, the outermost way in counts: Herdr,
/// then Zellij, then tmux. Each names its session and its pane in variables of its
/// own.
pub proof fn law_context(env: Env)
    ensures
        ({
            let herdr = env.herdr_env matches Some(s) && s@.len() > 0;
            let zellij = env.zellij matches Some(s) && s@.len() > 0;
            let tmux = env.tmux matches Some(s) && s@.len() > 0;
            let c = detected(env);
            &&& c.cwd == opt_text(env.cwd)
            &&& herdr ==> c.kind == crate::context::Kind::Herdr && c.session == opt_text(
                env.herdr_session,
            ) && c.workspace == opt_text(env.herdr_workspace) && c.pane is None
            &&& !herdr && zellij ==> c.kind == crate::context::Kind::Zellij && c.session
                == opt_text(env.zellij_session_name) && c.pane == opt_text(env.zellij_pane_id)
                && c.workspace is None
            &&& !herdr && !zellij && tmux ==> c.kind == crate::context::Kind::Tmux && c.session
                == tmux_session(env.tmux->0@) && c.pane == opt_text(env.tmux_pane) && c.workspace
                is None
            &&& !herdr && !zellij && !tmux ==> c.kind == crate::context::Kind::Bare && c.session
                is None && c.pane is None && c.workspace is None
        }),
{
}

proof fn lemma_context_keys()
    ensures
        "kind"@ != "session"@ && "kind"@ != "pane"@ && "kind"@ != "workspace"@ && "kind"@
            != "cwd"@,
        "session"@ != "pane"@ && "session"@ != "workspace"@ && "session"@ != "cwd"@,
        "pane"@ != "workspace"@ && "pane"@ != "cwd"@ && "workspace"@ != "cwd"@,
{
    reveal_strlit("kind");
    reveal_strlit("session");
    reveal_strlit("pane");
    reveal_strlit("workspace");
    reveal_strlit("cwd");
    assert("kind"@.len() == 4 && "session"@.len() == 7 && "pane"@.len() == 4);
    assert("workspace"@.len() == 9 && "cwd"@.len() == 3);
    assert("kind"@[0] == 'k' && "pane"@[0] == 'p');
}

/// A context is written out with each part under its name: what is there as text,
/// what is not as `null`.
pub proof fn law_context_document(c: ContextView)
    ensures
        ({
            let t = context_json(c);
            &&& c.kind == crate::context::Kind::Bare ==> text_field(t, "kind"@) == Some("none"@)
            &&& c.kind == crate::context::Kind::Tmux ==> text_field(t, "kind"@) == Some("tmux"@)
            &&& c.kind == crate::context::Kind::Zellij ==> text_field(t, "kind"@) == Some(
                "zellij"@,
            )
            &&& c.kind == crate::context::Kind::Herdr ==> text_field(t, "kind"@) == Some("herdr"@)
            &&& text_field(t, "session"@) == c.session
            &&& text_field(t, "pane"@) == c.pane
            &&& text_field(t, "workspace"@) == c.workspace
            &&& text_field(t, "cwd"@) == c.cwd
            &&& c.session is None ==> field(t, "session"@) == Some(JsonTree::Leaf(Scalar::Null))
            &&& c.pane is None ==> field(t, "pane"@) == Some(JsonTree::Leaf(Scalar::Null))
            &&& c.workspace is None ==> field(t, "workspace"@) == Some(JsonTree::Leaf(Scalar::Null))
            &&& c.cwd is None ==> field(t, "cwd"@) == Some(JsonTree::Leaf(Scalar::Null))
        }),
{
    lemma_context_keys();
    let m0 = Seq::<(Seq<char>, JsonTree)>::empty();
    let kind = JsonTree::Text(c.kind.name());
    let m1 = with_key(m0, "kind"@, kind);
    let session = crate::context::text_or_null(c.session);
    let m2 = with_key(m1, "session"@, session);
    let pane = crate::context::text_or_null(c.pane);
    let m3 = with_key(m2, "pane"@, pane);
    let workspace = crate::context::text_or_null(c.workspace);
    let m4 = with_key(m3, "workspace"@, workspace);
    let cwd = crate::context::text_or_null(c.cwd);
    let m5 = with_key(m4, "cwd"@, cwd);
    lemma_with_key(m0, "kind"@, kind);
    lemma_with_key(m1, "session"@, session);
    lemma_with_key(m2, "pane"@, pane);
    lemma_with_key(m3, "workspace"@, workspace);
    lemma_with_key(m4, "cwd"@, cwd);
    assert(lookup(m5, "kind"@) == Some(kind));
    assert(lookup(m5, "session"@) == Some(session));
    assert(lookup(m5, "pane"@) == Some(pane));
    assert(lookup(m5, "workspace"@) == Some(workspace));
    assert(lookup(m5, "cwd"@) == Some(cwd));
}

// ---------------------------------------------------------------------------
// Herdr
// ---------------------------------------------------------------------------

/// The names of the four states, and that any other name is none.
pub proof fn law_state_names(s: Seq<char>)
    ensures
        AgentState::named("blocked"@) == Some(AgentState::Blocked),
        AgentState::named("working"@) == Some(AgentState::Working),
        AgentState::named("done"@) == Some(AgentState::Done),
        AgentState::named("idle"@) == Some(AgentState::Idle),
        AgentState::named(s) is Some ==> s == "blocked"@ || s == "working"@ || s == "done"@ || s
            == "idle"@,
{
    crate::herdr::law_parse_undoes_as_str(AgentState::Blocked);
    crate::herdr::law_parse_undoes_as_str(AgentState::Working);
    crate::herdr::law_parse_undoes_as_str(AgentState::Done);
    crate::herdr::law_parse_undoes_as_str(AgentState::Idle);
}

/// Setting a pane's state sets that pane's and no other's.
pub proof fn law_pane_is_set(
    m: Seq<(Seq<char>, AgentState)>,
    pane: Seq<char>,
    state: AgentState,
    other: Seq<char>,
)
    ensures
        lookup(with_pane(m, pane, state), pane) == Some(state),
        other != pane ==> lookup(with_pane(m, pane, state), other) == lookup(m, other),
{
    let n = with_pane(m, pane, state);
    let p = key_pos(m, pane);
    lemma_key_pos(m, pane);
    lemma_key_pos(m, other);
    if p < m.len() {
        assert forall|j: int| 0 <= j < p implies (#[trigger] n[j]).0 != pane by {
            assert(n[j] == m[j]);
        }
        lemma_key_pos_is(n, pane, p);
    } else {
        assert forall|j: int| 0 <= j < m.len() implies (#[trigger] n[j]).0 != pane by {
            assert(n[j] == m[j]);
        }
        lemma_key_pos_is(n, pane, m.len() as int);
    }
    if other != pane {
        let q = key_pos(m, other);
        if q < m.len() {
            assert forall|j: int| 0 <= j < q implies (#[trigger] n[j]).0 != other by {
                if j != p {
                    assert(n[j] == m[j]);
                }
            }
            assert(q != p);
            assert(n[q] == m[q]);
            lemma_key_pos_is(n, other, q);
        } else {
            assert forall|j: int| 0 <= j < n.len() implies (#[trigger] n[j]).0 != other by {
                if j < m.len() && j != p {
                    assert(n[j] == m[j]);
                }
            }
            lemma_key_pos_is(n, other, n.len() as int);
        }
    }
}

/// A record with a pane and a state that is known sets that pane's state, over any
/// earlier record of it; any other record is passed over.
pub proof fn law_records_tell_states(items: Seq<JsonTree>, item: JsonTree, pane: Seq<char>)
    ensures
        ({
            let before = states_in(items);
            let after = states_in(items.push(item));
            let status = text_field(item, "agent_status"@);
            &&& text_field(item, "pane_id"@) == Some(pane) && status == Some("working"@) ==> lookup(
                after,
                pane,
            ) == Some(AgentState::Working)
            &&& text_field(item, "pane_id"@) == Some(pane) && status == Some("blocked"@) ==> lookup(
                after,
                pane,
            ) == Some(AgentState::Blocked)
            &&& text_field(item, "pane_id"@) == Some(pane) && status == Some("done"@) ==> lookup(
                after,
                pane,
            ) == Some(AgentState::Done)
            &&& text_field(item, "pane_id"@) == Some(pane) && status == Some("idle"@) ==> lookup(
                after,
                pane,
            ) == Some(AgentState::Idle)
            &&& text_field(item, "pane_id"@) != Some(pane) ==> lookup(after, pane) == lookup(
                before,
                pane,
            )
            &&& status is None || (status->0 != "working"@ && status->0 != "blocked"@ && status->0
                != "done"@ && status->0 != "idle"@) ==> after == before
        }),
        states_in(Seq::empty()) == Seq::<(Seq<char>, AgentState)>::empty(),
{
    assert(items.push(item).drop_last() =~= items);
    law_state_names(""@);
    if let Some(p) = text_field(item, "pane_id"@) {
        if let Some(status) = text_field(item, "agent_status"@) {
            law_state_names(status);
            if let Some(state) = AgentState::named(status) {
                law_pane_is_set(states_in(items), p, state, pane);
                law_pane_is_set(states_in(items), p, state, p);
            }
        }
    }
}

/// A tool's records are the document itself where it is a list, or the list under
/// their key, or the one under that key in the result.
pub proof fn law_records(t: JsonTree, key: Seq<char>, list: Seq<JsonTree>)
    ensures
        listed(JsonTree::Array(list), key) == list,
        field(t, key) == Some(JsonTree::Array(list)) ==> listed(t, key) == list,
        field(t, key) is None && field(t, "result"@) is Some && field(field(t, "result"@)->0, key)
            == Some(JsonTree::Array(list)) ==> listed(t, key) == list,
        field(t, key) is None && field(t, "result"@) is None && !(t is Array) ==> listed(t, key)
            == Seq::<JsonTree>::empty(),
{
}

/// The child's search path has the usual directories first and everything that was
/// there behind them.
pub proof fn law_search_path(existing: Seq<char>)
    ensures
        widened_path(None) == "/opt/homebrew/bin:/usr/local/bin:$HOME/.local/bin:$HOME/bin"@,
        widened_path(Some(existing)) == widened_path(None) + ":"@ + existing,
{
}

// ---------------------------------------------------------------------------
// Pushing
// ---------------------------------------------------------------------------

/// The phone is woken for an approval and for the end of a task, and for nothing
/// else.
pub proof fn law_what_wakes_the_phone(category: Category)
    ensures
        wakes(category) <==> category == Category::ApprovalRequired || category
            == Category::TaskComplete,
{
}

/// The names of the endpoints' types, and that any other name is none.
pub proof fn law_endpoint_names(s: Seq<char>)
    ensures
        Kind::named("ntfy"@) == Some(Kind::Ntfy),
        Kind::named("gotify"@) == Some(Kind::Gotify),
        Kind::named("unifiedpush"@) == Some(Kind::UnifiedPush),
        Kind::named("up"@) == Some(Kind::UnifiedPush),
        Kind::named(s) is Some ==> s == "ntfy"@ || s == "gotify"@ || s == "unifiedpush"@ || s
            == "up"@,
{
    reveal_strlit("ntfy");
    reveal_strlit("gotify");
    reveal_strlit("unifiedpush");
    reveal_strlit("up");
    assert("ntfy"@.len() == 4 && "gotify"@.len() == 6 && "unifiedpush"@.len() == 11);
    assert("up"@.len() == 2);
}

/// For ntfy the text is the body, posted to the topic's own address, with the title
/// and a high priority in headers, and with the token as a bearer token where there
/// is one.
pub proof fn law_ntfy(url: Seq<char>, token: Seq<char>, title: Seq<char>, body: Seq<char>)
    requires
        !title.contains('\r') && !title.contains('\n'),
    ensures
        ({
            let open = request_for(Kind::Ntfy, url, None, title, body);
            let closed = request_for(Kind::Ntfy, url, Some(token), title, body);
            &&& open.url == url && closed.url == url
            &&& open.body == body && closed.body == body
            &&& open.headers == seq![("Title"@, trimmed(title)), ("Priority"@, "high"@)]
            &&& closed.headers == open.headers.push(("Authorization"@, "Bearer "@ + token))
        }),
{
    assert forall|i: int| 0 <= i < title.len() implies title[i] != '\r' && title[i] != '\n' by {
        assert(title.contains(title[i]));
    }
    assert(replaced2(title, '\r', '\n', ' ') =~= title);
    let open = request_for(Kind::Ntfy, url, None, title, body);
    let closed = request_for(Kind::Ntfy, url, Some(token), title, body);
    assert(open.headers =~= seq![("Title"@, trimmed(title)), ("Priority"@, "high"@)]);
    assert(closed.headers =~= open.headers.push(("Authorization"@, "Bearer "@ + token)));
}

/// For Gotify the notification is posted to the server's messages, with the token in
/// the address; slashes at the end of the server's address make no difference.
pub proof fn law_gotify(server: Seq<char>, token: Seq<char>, title: Seq<char>, body: Seq<char>)
    requires
        server.len() > 0 && server.last() != '/',
    ensures
        request_for(Kind::Gotify, server, Some(token), title, body).url == server
            + "/message?token="@ + token,
        request_for(Kind::Gotify, server, None, title, body).url == server + "/message"@,
        request_for(Kind::Gotify, server + seq!['/'], Some(token), title, body).url == server
            + "/message?token="@ + token,
        request_for(Kind::Gotify, server, None, title, body).headers == seq![
            ("Content-Type"@, "application/json"@),
        ],
        request_for(Kind::Gotify, server, None, title, body).body == json_text(
            note_tree(title, body, Some(8)),
        ),
{
    assert((server + seq!['/']).drop_last() =~= server);
    assert((server + seq!['/']).last() == '/');
}

/// For UnifiedPush the notification is posted to the endpoint's own address, and no
/// token goes with it.
pub proof fn law_unified_push(
    url: Seq<char>,
    token: Option<Seq<char>>,
    title: Seq<char>,
    body: Seq<char>,
)
    ensures
        ({
            let r = request_for(Kind::UnifiedPush, url, token, title, body);
            &&& r.url == url
            &&& r.headers == seq![("Content-Type"@, "application/json"@)]
            &&& r.body == json_text(note_tree(title, body, None))
        }),
{
}

/// A notification's document holds the title, the text and, where there is one, the
/// priority.
pub proof fn law_note(title: Seq<char>, body: Seq<char>, priority: Option<u64>)
    ensures
        text_field(note_tree(title, body, priority), "title"@) == Some(title),
        text_field(note_tree(title, body, priority), "message"@) == Some(body),
        priority is Some ==> field(note_tree(title, body, priority), "priority"@) == Some(
            number_tree(priority->0),
        ),
        priority is None ==> field(note_tree(title, body, priority), "priority"@) is None,
{
    reveal_strlit("title");
    reveal_strlit("message");
    reveal_strlit("priority");
    assert("title"@.len() == 5 && "message"@.len() == 7 && "priority"@.len() == 8);
    let m0 = Seq::<(Seq<char>, JsonTree)>::empty();
    let m1 = with_key(m0, "title"@, JsonTree::Text(title));
    let m2 = with_key(m1, "message"@, JsonTree::Text(body));
    assert(lookup(m0, "priority"@) is None);
    lemma_with_key(m0, "title"@, JsonTree::Text(title));
    lemma_with_key(m1, "message"@, JsonTree::Text(body));
    if let Some(p) = priority {
        lemma_with_key(m2, "priority"@, number_tree(p));
    }
}

/// A project is called by the last component of its path, with or without a slash
/// behind it.
pub proof fn law_short_name(dir: Seq<char>, name: Seq<char>)
    requires
        name.len() > 0,
        !name.contains('/'),
    ensures
        short_name(dir + seq!['/'] + name) == name,
        short_name(dir + seq!['/'] + name + seq!['/']) == name,
        short_name(name) == name,
{
    let path = dir + seq!['/'] + name;
    law_last_cut(dir, '/', name);
    assert(name.contains(name[name.len() - 1]));
    assert(path.last() == name.last());
    assert((path + seq!['/']).last() == '/');
    assert((path + seq!['/']).drop_last() =~= path);
    assert(without_trailing(path, '/') == path);
    assert(without_trailing(path + seq!['/'], '/') == without_trailing(path, '/'));
}

/// A title of several lines stands on one in a header, with blanks where the lines
/// broke.
pub proof fn law_header_title(a: Seq<char>, b: Seq<char>)
    requires
        !a.contains('\r') && !a.contains('\n') && !b.contains('\r') && !b.contains('\n'),
    ensures
        on_one_line(a + seq!['\n'] + b) == trimmed(a + seq![' '] + b),
        on_one_line(a + seq!['\r'] + b) == trimmed(a + seq![' '] + b),
        on_one_line(a) == trimmed(a),
{
    assert forall|i: int| 0 <= i < a.len() implies a[i] != '\r' && a[i] != '\n' by {
        assert(a.contains(a[i]));
    }
    assert forall|i: int| 0 <= i < b.len() implies b[i] != '\r' && b[i] != '\n' by {
        assert(b.contains(b[i]));
    }
    assert(replaced2(a + seq!['\n'] + b, '\r', '\n', ' ') =~= a + seq![' '] + b);
    assert(replaced2(a + seq!['\r'] + b, '\r', '\n', ' ') =~= a + seq![' '] + b);
    assert(replaced2(a, '\r', '\n', ' ') =~= a);
}

} // verus!
