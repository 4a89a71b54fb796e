//! Laws of the commands: what an install and an uninstall do to a file and say of
//! it, how an approval is answered from a terminal, and what else is printed.

use crate::commands::approve::outcome;
use crate::commands::inbox::line_decision;
use crate::commands::install::kimi::{
    kimi_installed, kimi_stripped, lemma_kimi_fields, rule, rules, rules_in, takes_rules, toml_read,
};
use crate::commands::install::{
    events_of, found, found_in, hook_command, install_plan, installed_line, json_installed,
    json_stripped, kimi_events, opencode, pi, plural, settings_read, shape_of, uses_json, written,
    wrote_line, StepView,
};
use crate::commands::pair::destination;
use crate::commands::push::{refusal, shown};
use crate::commands::service::{doubled, steps, unit_at, unit_text, Verb};
use crate::commands::status::{status_text, status_tree, Status};
use crate::commands::uninstall::{removed_line, uninstall_plan};
use crate::commands::usage::{reports_usage, usage_heading, window_text};
use crate::config::{Agent, TargetView};
use crate::hook_laws::lemma_well_formed_sorted;
use crate::hooks::{foreign, owned_total, takes_hooks};
use crate::ids::uuid_parsed;
use crate::inbox::RowView;
use crate::ipc::ServerView;
use crate::json::{json_parsed, json_text_pretty, number_tree, text_array, JsonTree, Scalar};
use crate::paths::{path_joined, DirError};
use crate::push::Config;
use crate::secret::Backend;
use crate::text::{
    begins, decimal, ends, holds, is_white, joined, opt_text, stands_at, texts, trimmed,
};
use crate::toml_tree::{TomlScalar, TomlTree};
use crate::tree::{field, lemma_with_key, lookup, text_field, well_formed, with_key, Tree};
use vstd::prelude::*;

verus! {

// ---------------------------------------------------------------------------
// Kimi's rules
// ---------------------------------------------------------------------------

proof fn lemma_rule_keys()
    ensures
        "event"@.len() == 5 && "command"@.len() == 7 && "matcher"@.len() == 7,
        "timeout"@.len() == 7,
        "command"@ != "matcher"@ && "command"@ != "timeout"@ && "matcher"@ != "timeout"@,
{
    reveal_strlit("event");
    reveal_strlit("command");
    reveal_strlit("matcher");
    reveal_strlit("timeout");
    assert("command"@[0] == 'c' && "matcher"@[0] == 'm' && "timeout"@[0] == 't');
}

/// A rule of Kimi's names its event and its matcher, and has our command for Kimi
/// run within ten seconds.
pub proof fn law_kimi_rule(exe: Seq<char>, event: Seq<char>, matcher: Seq<char>)
    ensures
        text_field(rule(exe, event, matcher), "event"@) == Some(event),
        text_field(rule(exe, event, matcher), "matcher"@) == Some(matcher),
        text_field(rule(exe, event, matcher), "command"@) == Some(
            hook_command(exe, "kimi"@, false),
        ),
        field(rule(exe, event, matcher), "timeout"@) == Some(
            TomlTree::Leaf(TomlScalar::Integer(10)),
        ),
{
    lemma_rule_keys();
    let m0 = Seq::<(Seq<char>, TomlTree)>::empty();
    let m1 = with_key(m0, "event"@, TomlTree::Text(event));
    let command = TomlTree::Text(hook_command(exe, "kimi"@, false));
    let m2 = with_key(m1, "command"@, command);
    let m3 = with_key(m2, "matcher"@, TomlTree::Text(matcher));
    let limit = TomlTree::Leaf(TomlScalar::Integer(10));
    let m4 = with_key(m3, "timeout"@, limit);
    lemma_with_key(m0, "event"@, TomlTree::Text(event));
    lemma_with_key(m1, "command"@, command);
    lemma_with_key(m2, "matcher"@, TomlTree::Text(matcher));
    lemma_with_key(m3, "timeout"@, limit);
    assert(lookup(m4, "event"@) == Some(TomlTree::Text(event)));
    assert(lookup(m4, "command"@) == Some(command));
    assert(lookup(m4, "matcher"@) == Some(TomlTree::Text(matcher)));
}

/// An install leaves the rules that are not ours, in their order, and puts one rule
/// of ours behind them for each event.
pub proof fn law_kimi_install(t: TomlTree, exe: Seq<char>, i: int)
    requires
        well_formed(t),
        takes_rules(t),
    ensures
        rules_in(kimi_installed(t, exe)) == foreign(rules_in(t)) + rules(exe),
        rules(exe).len() == kimi_events().len(),
        0 <= i < kimi_events().len() ==> rules(exe)[i] == rule(
            exe,
            kimi_events()[i].0,
            kimi_events()[i].1,
        ),
        foreign(rules_in(t)).len() > 0 ==> rules_in(kimi_stripped(t)) == foreign(rules_in(t)),
        foreign(rules_in(t)).len() == 0 ==> field(kimi_stripped(t), "hooks"@) is None,
{
    lemma_well_formed_sorted(t);
    lemma_kimi_fields(t, exe);
}

/// A missing or blank file is an empty configuration; one that cannot be read is
/// named with what is wrong with it.
pub proof fn law_kimi_file(blank: Seq<char>, raw: Seq<char>, path: Seq<char>, e: Seq<char>)
    requires
        trimmed(blank).len() == 0,
        trimmed(raw).len() > 0,
    ensures
        toml_read(None, path) == Ok::<TomlTree, Seq<char>>(TomlTree::Table(Seq::empty())),
        toml_read(Some(blank), path) == Ok::<TomlTree, Seq<char>>(TomlTree::Table(Seq::empty())),
        crate::toml_tree::toml_parsed(raw) == Err::<TomlTree, Seq<char>>(e) ==> toml_read(
            Some(raw),
            path,
        ) == Err::<TomlTree, Seq<char>>(path + " is not valid TOML: "@ + e),
{
}

// ---------------------------------------------------------------------------
// What an install does to a file, and says
// ---------------------------------------------------------------------------

/// A missing or blank file is empty settings; one that cannot be read is named with
/// what is wrong with it.
pub proof fn law_settings_file(
    blank: Seq<char>,
    raw: Seq<char>,
    path: Seq<char>,
    t: JsonTree,
    e: Seq<char>,
)
    requires
        trimmed(blank).len() == 0,
        trimmed(raw).len() > 0,
    ensures
        settings_read(None, path) == Ok::<JsonTree, Seq<char>>(JsonTree::Table(Seq::empty())),
        settings_read(Some(blank), path) == Ok::<JsonTree, Seq<char>>(
            JsonTree::Table(Seq::empty()),
        ),
        json_parsed(raw) == Ok::<JsonTree, Seq<char>>(t) ==> settings_read(Some(raw), path) == Ok::<
            JsonTree,
            Seq<char>,
        >(t),
        json_parsed(raw) == Err::<JsonTree, Seq<char>>(e) ==> settings_read(Some(raw), path)
            == Err::<JsonTree, Seq<char>>(path + " is not valid JSON: "@ + e),
{
}

/// An install into JSON settings writes the settings with our hooks in them, ends
/// the file with a line feed, keeps what was there under `json.bak`, and says how
/// many hooks went where. Codex has to be told to trust them.
pub proof fn law_json_install_plan(
    t: TargetView,
    raw: Option<Seq<char>>,
    exe: Seq<char>,
    before: JsonTree,
    text: Seq<char>,
)
    requires
        uses_json(t.agent),
        settings_read(raw, t.path) == Ok::<JsonTree, Seq<char>>(before),
        well_formed(before),
        takes_hooks(before),
        json_text_pretty(json_installed(t.agent, before, exe)) == Ok::<Seq<char>, Seq<char>>(text),
    ensures
        install_plan(t, raw, exe) matches Ok(p) && {
            &&& p.step == (StepView::Write { text: text + "\n"@, backup: Some("json.bak"@) })
            &&& p.lines.len() == if t.agent == Agent::Codex {
                2int
            } else {
                1
            }
            &&& p.lines[0] == t.agent.name() + ": installed "@ + decimal(events_of(t.agent).len())
                + " hooks into "@ + t.path
            &&& t.agent == Agent::Codex ==> p.lines[1]
                == "  note: run `codex` once and trust the sailor-hook entries via `/hooks`"@
        },
{
    crate::commands::install::law_json_install_keeps(t.agent, before, exe, ""@);
    let n = events_of(t.agent).len();
    reveal_strlit(" hook");
    reveal_strlit("s");
    reveal_strlit(" into ");
    reveal_strlit(" hooks into ");
    assert(" hook"@ + "s"@ + " into "@ =~= " hooks into "@);
    assert(installed_line(t.agent.name(), n, t.path) =~= t.agent.name() + ": installed "@
        + decimal(n) + " hooks into "@ + t.path);
}

/// The plugin and the extension are written where they are not up to date, without
/// a copy of what was there, and left alone otherwise.
pub proof fn law_plugin_plans(path: Seq<char>, raw: Option<Seq<char>>, exe: Seq<char>)
    ensures
        install_plan(TargetView { agent: Agent::OpenCode, path }, raw, exe) matches Ok(p) && {
            &&& opencode::is_current(raw) ==> p.step is Leave
            &&& !opencode::is_current(raw) ==> p.step == (StepView::Write {
                text: opencode::plugin_text(),
                backup: None,
            })
            &&& p.lines.len() == 2
            &&& p.lines[0] == "opencode: wrote "@ + path + " (5 hooks)"@
            &&& p.lines[1] == "  note: restart opencode to load the plugin"@
        },
        install_plan(TargetView { agent: Agent::Pi, path }, raw, exe) matches Ok(p) && {
            &&& raw == Some(pi::extension_text()) ==> p.step is Leave
            &&& raw != Some(pi::extension_text()) ==> p.step == (StepView::Write {
                text: pi::extension_text(),
                backup: None,
            })
            &&& p.lines.len() == 2
            &&& p.lines[0] == "pi: wrote "@ + path + " (6 event kinds)"@
            &&& p.lines[1] == "  note: run `/reload` in pi (or start a new session) to load it"@
        },
{
    law_counted_lines("opencode"@, 5, path, " hook"@);
    law_counted_lines("pi"@, 6, path, " event kind"@);
    reveal_strlit("opencode");
    reveal_strlit("pi");
    reveal_strlit(": wrote ");
    reveal_strlit("opencode: wrote ");
    reveal_strlit("pi: wrote ");
    reveal_strlit(" (");
    reveal_strlit(" hook");
    reveal_strlit(" event kind");
    reveal_strlit("s)");
    reveal_strlit(" (5 hooks)");
    reveal_strlit(" (6 event kinds)");
    assert("opencode"@ + ": wrote "@ =~= "opencode: wrote "@);
    assert("pi"@ + ": wrote "@ =~= "pi: wrote "@);
    assert(decimal(5) =~= seq!['5'] && decimal(6) =~= seq!['6']);
    assert(" ("@ + decimal(5) + " hook"@ + "s)"@ =~= " (5 hooks)"@);
    assert(" ("@ + decimal(6) + " event kind"@ + "s)"@ =~= " (6 event kinds)"@);
    assert(wrote_line("opencode"@, path, 5, " hook"@) =~= "opencode: wrote "@ + path
        + " (5 hooks)"@);
    assert(wrote_line("pi"@, path, 6, " event kind"@) =~= "pi: wrote "@ + path
        + " (6 event kinds)"@);
}

/// A plugin or an extension is ours just where it carries our marker; a plugin is up
/// to date just where it also makes today's call.
pub proof fn law_plugin_markers(raw: Seq<char>)
    ensures
        opencode::is_ours(Some(raw)) <==> holds(
            raw,
            "// sailor-hook — managed by `sailor-hook install`"@,
        ),
        opencode::is_current(Some(raw)) <==> holds(
            raw,
            "// sailor-hook — managed by `sailor-hook install`"@,
        ) && holds(raw, "sailor-hook\", \"event\", \"--agent\""@),
        pi::is_ours(Some(raw)) <==> holds(raw, "sailor-hook — managed by"@),
        !opencode::is_ours(None) && !opencode::is_current(None),
        !pi::is_ours(None) && !pi::is_current(None),
        begins(
            opencode::plugin_text(),
            "// sailor-hook — managed by `sailor-hook install`"@,
        ),
        holds(opencode::plugin_text(), "sailor-hook\", \"event\", \"--agent\""@),
        begins(pi::extension_text(), "// "@ + "sailor-hook — managed by"@),
{
    opencode::law_plugin_is_current();
    let p = opencode::plugin_text();
    let m = "// sailor-hook — managed by `sailor-hook install`"@;
    assert(p.subrange(0, m.len() as int) =~= m);
    let q = pi::extension_text();
    let n = "// "@ + "sailor-hook — managed by"@;
    assert(q.subrange(0, n.len() as int) =~= n);
}

/// An uninstall leaves a file that is not there alone, and says so.
pub proof fn law_nothing_to_uninstall(t: TargetView)
    ensures
        uninstall_plan(t, None) matches Ok(p) && p.step is Leave && p.lines == seq![
            t.agent.name() + ": nothing installed"@,
        ],
{
}

/// A plugin or an extension of ours is removed, and one of somebody else's is not.
pub proof fn law_plugins_are_removed(t: TargetView, raw: Seq<char>)
    requires
        t.agent == Agent::OpenCode || t.agent == Agent::Pi,
    ensures
        ({
            let ours = if t.agent == Agent::OpenCode {
                holds(raw, "// sailor-hook — managed by `sailor-hook install`"@)
            } else {
                holds(raw, "sailor-hook — managed by"@)
            };
            uninstall_plan(t, Some(raw)) matches Ok(p) && {
                &&& ours ==> p.step is Remove && p.lines == seq![
                    t.agent.name() + ": removed "@ + t.path,
                ]
                &&& !ours ==> p.step is Leave && p.lines == seq![
                    t.agent.name() + ": nothing installed"@,
                ]
            }
        }),
{
}

/// Hooks are counted in words: one hook, and several hooks.
pub proof fn law_counted_lines(agent: Seq<char>, n: nat, path: Seq<char>, noun: Seq<char>)
    ensures
        n == 1 ==> removed_line(agent, n, path) == agent + ": removed "@ + decimal(n)
            + " hook from "@ + path,
        n != 1 ==> removed_line(agent, n, path) == agent + ": removed "@ + decimal(n)
            + " hooks from "@ + path,
        n == 1 ==> installed_line(agent, n, path) == agent + ": installed "@ + decimal(n)
            + " hook into "@ + path,
        n != 1 ==> installed_line(agent, n, path) == agent + ": installed "@ + decimal(n)
            + " hooks into "@ + path,
        n == 1 ==> wrote_line(agent, path, n, noun) == agent + ": wrote "@ + path + " ("@
            + decimal(n) + noun + ")"@,
        n != 1 ==> wrote_line(agent, path, n, noun) == agent + ": wrote "@ + path + " ("@
            + decimal(n) + noun + "s)"@,
{
    reveal_strlit("");
    reveal_strlit("s");
    reveal_strlit(")");
    reveal_strlit("s)");
    reveal_strlit(" hook");
    reveal_strlit(" from ");
    reveal_strlit(" into ");
    reveal_strlit(" hook from ");
    reveal_strlit(" hooks from ");
    reveal_strlit(" hook into ");
    reveal_strlit(" hooks into ");
    assert(" hook"@ + ""@ + " from "@ =~= " hook from "@);
    assert(" hook"@ + "s"@ + " from "@ =~= " hooks from "@);
    assert(" hook"@ + ""@ + " into "@ =~= " hook into "@);
    assert(" hook"@ + "s"@ + " into "@ =~= " hooks into "@);
    assert("s"@ + ")"@ =~= "s)"@);
    assert(""@ + ")"@ =~= ")"@);
    let head = agent + ": removed "@ + decimal(n);
    assert(removed_line(agent, n, path) =~= head + (" hook"@ + plural(n) + " from "@) + path);
    let head = agent + ": installed "@ + decimal(n);
    assert(installed_line(agent, n, path) =~= head + (" hook"@ + plural(n) + " into "@) + path);
    let head = agent + ": wrote "@ + path + " ("@ + decimal(n) + noun;
    assert(wrote_line(agent, path, n, noun) =~= head + (plural(n) + ")"@));
}

/// The agents that have our hooks are those in whose files they are found, in the
/// order of the files.
pub proof fn law_installed_agents(
    files: Seq<(Agent, Option<String>)>,
    agent: Agent,
    raw: Option<String>,
)
    ensures
        found(agent, opt_text(raw)) ==> found_in(files.push((agent, raw))) == found_in(files).push(
            agent.name(),
        ),
        !found(agent, opt_text(raw)) ==> found_in(files.push((agent, raw))) == found_in(files),
        found_in(Seq::empty()) == Seq::<Seq<char>>::empty(),
{
    assert(files.push((agent, raw)).drop_last() =~= files);
}

/// An uninstall of JSON settings with hooks of ours writes them without, keeps what
/// was there under `json.bak`, and says how many went; settings with none of ours
/// are left alone.
pub proof fn law_json_uninstall_plan(
    t: TargetView,
    raw: Seq<char>,
    before: JsonTree,
    text: Seq<char>,
)
    requires
        uses_json(t.agent),
        settings_read(Some(raw), t.path) == Ok::<JsonTree, Seq<char>>(before),
        owned_total(shape_of(t.agent), before) <= 4_000_000_000,
        json_text_pretty(json_stripped(t.agent, before)) == Ok::<Seq<char>, Seq<char>>(text),
    ensures
        ({
            let n = owned_total(shape_of(t.agent), before);
            uninstall_plan(t, Some(raw)) matches Ok(p) && {
                &&& n > 0 ==> p.step == (StepView::Write {
                    text: text + "\n"@,
                    backup: Some("json.bak"@),
                }) && p.lines == seq![removed_line(t.agent.name(), n, t.path)]
                &&& n == 0 ==> p.step is Leave && p.lines == seq![
                    t.agent.name() + ": nothing installed"@,
                ]
            }
        }),
{
}

/// Kimi's configuration is written with our rules in it, and with a copy of what was
/// there under `toml.bak`; an uninstall writes it without them.
pub proof fn law_kimi_plans(
    path: Seq<char>,
    raw: Seq<char>,
    exe: Seq<char>,
    before: TomlTree,
    text: Seq<char>,
    bare: Seq<char>,
)
    requires
        toml_read(Some(raw), path) == Ok::<TomlTree, Seq<char>>(before),
        well_formed(before),
        takes_rules(before),
        crate::toml_tree::toml_text_pretty(kimi_installed(before, exe)) == Ok::<
            Seq<char>,
            Seq<char>,
        >(text),
        crate::toml_tree::toml_text_pretty(kimi_stripped(before)) == Ok::<Seq<char>, Seq<char>>(
            bare,
        ),
    ensures
        ({
            let t = TargetView { agent: Agent::Kimi, path };
            let n = crate::commands::install::kimi::owned_rules(before);
            &&& install_plan(t, Some(raw), exe) matches Ok(p) && p.step == (StepView::Write {
                text: text + "\n"@,
                backup: Some("toml.bak"@),
            }) && p.lines == seq![installed_line("kimi"@, kimi_events().len(), path)]
            &&& n > 0 ==> (uninstall_plan(t, Some(raw)) matches Ok(p) && p.step
                == (StepView::Write { text: bare + "\n"@, backup: Some("toml.bak"@) }) && p.lines
                == seq![removed_line("kimi"@, n, path)])
            &&& n == 0 ==> (uninstall_plan(t, Some(raw)) matches Ok(p) && p.step is Leave)
        }),
{
    lemma_well_formed_sorted(before);
    lemma_kimi_fields(before, exe);
}

/// Settings that an install wrote are found to have our hooks.
pub proof fn law_installed_is_found(agent: Agent, raw: Seq<char>, before: JsonTree, exe: Seq<char>)
    requires
        uses_json(agent),
        well_formed(before),
        takes_hooks(before),
        trimmed(raw).len() > 0,
        json_parsed(raw) == Ok::<JsonTree, Seq<char>>(json_installed(agent, before, exe)),
    ensures
        found(agent, Some(raw)),
{
    crate::commands::install::law_json_install_keeps(agent, before, exe, ""@);
}

// ---------------------------------------------------------------------------
// Answering from a terminal
// ---------------------------------------------------------------------------

/// What is printed of an answer is what was answered, and of a failure what the
/// daemon said.
pub proof fn law_approve_says_what_came_of_it(allow: bool, e: Seq<char>)
    ensures
        outcome(Some(ServerView::Ack { ok: true, error: None }), true) == Ok::<
            Seq<char>,
            Seq<char>,
        >("allowed"@),
        outcome(Some(ServerView::Ack { ok: true, error: None }), false) == Ok::<
            Seq<char>,
            Seq<char>,
        >("denied"@),
        outcome(Some(ServerView::Ack { ok: false, error: Some(e) }), allow) == Err::<
            Seq<char>,
            Seq<char>,
        >(e),
        outcome(Some(ServerView::Ack { ok: false, error: None }), allow) == Err::<
            Seq<char>,
            Seq<char>,
        >("approval could not be answered"@),
        outcome(None, allow) == Err::<Seq<char>, Seq<char>>("unexpected reply from the daemon"@),
        outcome(Some(ServerView::NoDecision), allow) == Err::<Seq<char>, Seq<char>>(
            "unexpected reply from the daemon"@,
        ),
{
}

/// A line answers the approval that it names, in the sense that it says; each thing
/// that can be wrong with it is told.
pub proof fn law_answer_lines(
    line: Seq<char>,
    t: JsonTree,
    id: Seq<char>,
    n: u128,
    allow: bool,
    e: Seq<char>,
)
    ensures
        json_parsed(line) == Ok::<JsonTree, Seq<char>>(t) ==> {
            &&& text_field(t, "pendingActionId"@) == Some(id) && field(t, "allow"@) == Some(
                JsonTree::Leaf(Scalar::Bool(allow)),
            ) && uuid_parsed(id) == Some(n) ==> line_decision(line) == Ok::<
                (u128, bool),
                Seq<char>,
            >((n, allow))
            &&& text_field(t, "pendingActionId"@) == Some(id) && field(t, "allow"@) == Some(
                JsonTree::Leaf(Scalar::Bool(allow)),
            ) && uuid_parsed(id) is None ==> line_decision(line) == Err::<(u128, bool), Seq<char>>(
                "`"@ + id + "` is not a pending-action id"@,
            )
            &&& text_field(t, "pendingActionId"@) is None ==> line_decision(line) == Err::<
                (u128, bool),
                Seq<char>,
            >("approval line has no pendingActionId"@)
            &&& text_field(t, "pendingActionId"@) is Some && !(field(t, "allow"@) matches Some(
                Tree::Leaf(Scalar::Bool(_)),
            )) ==> line_decision(line) == Err::<(u128, bool), Seq<char>>(
                "approval line has no allow boolean"@,
            )
        },
        json_parsed(line) == Err::<JsonTree, Seq<char>>(e) ==> line_decision(line) == Err::<
            (u128, bool),
            Seq<char>,
        >("approval line is not JSON"@),
{
}

// ---------------------------------------------------------------------------
// Pairing, pushing, usage
// ---------------------------------------------------------------------------

/// A token is stored where it is asked to be; a blank token and a store that there
/// is not are refused.
pub proof fn law_pairing(token: Seq<char>, blank: Seq<char>, store: Seq<char>)
    requires
        token.len() > 0 && !is_white(token[0]),
        forall|i: int| 0 <= i < blank.len() ==> is_white(#[trigger] blank[i]),
        store != "keychain"@ && store != "file"@,
    ensures
        destination(token, "keychain"@) == Ok::<Backend, Seq<char>>(Backend::Keychain),
        destination(token, "file"@) == Ok::<Backend, Seq<char>>(Backend::File),
        destination(token, store) == Err::<Backend, Seq<char>>("unknown --store backend: "@ + store),
        destination(blank, "file"@) == Err::<Backend, Seq<char>>("pairing token is empty"@),
{
    crate::text::lemma_trimmed_not_blank(token);
    crate::laws::text::law_trim(blank, Seq::empty(), Seq::empty());
    assert(blank + Seq::<char>::empty() + Seq::<char>::empty() =~= blank);
    reveal_strlit("keychain");
    reveal_strlit("file");
    assert("keychain"@.len() == 8 && "file"@.len() == 4);
}

/// Gotify needs a token, the other endpoints do not, and there are no others.
pub proof fn law_push_configuration(kind: Seq<char>, has_token: bool)
    ensures
        refusal("ntfy"@, has_token) is None,
        refusal("unifiedpush"@, has_token) is None,
        refusal("up"@, has_token) is None,
        refusal("gotify"@, true) is None,
        refusal("gotify"@, false) == Some("gotify needs an application token — pass --token"@),
        kind != "ntfy"@ && kind != "gotify"@ && kind != "unifiedpush"@ && kind != "up"@ ==> refusal(
            kind,
            has_token,
        ) == Some("unknown push kind `"@ + kind + "` (ntfy|gotify|unifiedpush)"@),
{
    crate::laws::host::law_endpoint_names(kind);
}

/// A row has usage to show where its agent told a window or what is left of its
/// context; its heading says whose it is.
pub proof fn law_usage(
    row: RowView,
    label: Seq<char>,
    percent: Seq<char>,
    at: Seq<char>,
)
    ensures
        reports_usage(row) <==> row.usage.len() > 0 || row.context_remaining is Some,
        row.project is Some ==> usage_heading(row) == row.source + " · "@ + row.project->0,
        row.project is None ==> usage_heading(row) == row.source + " · "@ + "-"@,
        window_text(label, percent, None) == "  window "@ + label + ": "@ + percent + "% used"@,
        window_text(label, percent, Some(at)) == window_text(label, percent, None) + ", resets "@
            + at,
{
}

/// The configuration is shown with its type and its address, and with whether there
/// is a token; where there is none, it is said how to set one up.
pub proof fn law_push_shown(c: Config)
    ensures
        shown(Some(c))[0] == "push: "@ + c.kind.name() + " → "@ + c.url@,
        c.token is Some ==> shown(Some(c))[1] == "  token:    "@ + "set"@,
        c.token is None ==> shown(Some(c))[1] == "  token:    "@ + "(none)"@,
        shown(Some(c)).len() == 2,
        shown(None) == seq![
            "push: not configured"@,
            "  sailor-hook push --set https://ntfy.sh/<your-topic>"@,
        ],
{
}

// ---------------------------------------------------------------------------
// The status
// ---------------------------------------------------------------------------

/// The status tells the version, whether the host is paired, whether the gateway
/// runs, which agents have our hooks, and where things are kept.
pub proof fn law_status_lines(s: Status)
    ensures
        ({
            let t = status_text(s);
            &&& t.len() == 7
            &&& t[0] == "sailor-hook v"@ + s.version@
            &&& s.paired ==> t[1] == "  paired:     "@ + "yes"@
            &&& !s.paired ==> t[1] == "  paired:     "@ + "no"@
            &&& s.running ==> t[2] == "  gateway:    127.0.0.1:"@ + decimal(24543) + " ("@
                + "running"@ + ")"@
            &&& !s.running ==> t[2] == "  gateway:    127.0.0.1:"@ + decimal(24543) + " ("@
                + "not running"@ + ")"@
            &&& s.agents@.len() == 0 ==> t[3] == "  agents:     "@ + "(none installed)"@
            &&& s.agents@.len() == 1 ==> t[3] == "  agents:     "@ + s.agents@[0]@
            &&& s.agents@.len() == 2 ==> t[3] == "  agents:     "@ + (s.agents@[0]@ + ", "@
                + s.agents@[1]@)
            &&& t[4] == "  state:      "@ + s.state@
            &&& t[5] == "  config:     "@ + s.config@
            &&& t[6] == "  socket:     "@ + s.socket@
        }),
{
    let all = texts(s.agents@);
    if s.agents@.len() == 1 {
        assert(joined(all, ", "@) == all[0]);
    }
    if s.agents@.len() == 2 {
        assert(all.drop_last() =~= seq![all[0]]);
        assert(joined(all.drop_last(), ", "@) == all[0]);
        assert(joined(all, ", "@) == all[0] + ", "@ + all[1]);
    }
}

proof fn lemma_status_keys()
    ensures
        "version"@.len() == 7 && "paired"@.len() == 6 && "gateway"@.len() == 7,
        "agents_installed"@.len() == 16 && "paths"@.len() == 5,
        "version"@ != "gateway"@,
        "state"@.len() == 5 && "config"@.len() == 6 && "socket"@.len() == 6 && "lock"@.len() == 4,
        "gateway_log"@.len() == 11 && "config"@ != "socket"@,
        "host"@.len() == 4 && "port"@.len() == 4 && "running"@.len() == 7 && "host"@ != "port"@,
{
    reveal_strlit("version");
    reveal_strlit("paired");
    reveal_strlit("gateway");
    reveal_strlit("agents_installed");
    reveal_strlit("paths");
    reveal_strlit("state");
    reveal_strlit("config");
    reveal_strlit("socket");
    reveal_strlit("lock");
    reveal_strlit("gateway_log");
    reveal_strlit("host");
    reveal_strlit("port");
    reveal_strlit("running");
    assert("version"@[0] == 'v' && "gateway"@[0] == 'g');
    assert("config"@[0] == 'c' && "socket"@[0] == 's');
    assert("host"@[0] == 'h' && "port"@[0] == 'p');
}

/// The status as a document holds the same under names.
pub proof fn law_status_document(s: Status)
    ensures
        ({
            let t = status_tree(s);
            let gateway = field(t, "gateway"@)->0;
            let paths = field(t, "paths"@)->0;
            &&& text_field(t, "version"@) == Some(s.version@)
            &&& field(t, "paired"@) == Some(JsonTree::Leaf(Scalar::Bool(s.paired)))
            &&& field(t, "agents_installed"@) == Some(text_array(texts(s.agents@)))
            &&& text_field(gateway, "host"@) == Some("127.0.0.1"@)
            &&& field(gateway, "port"@) == Some(number_tree(24543))
            &&& field(gateway, "running"@) == Some(JsonTree::Leaf(Scalar::Bool(s.running)))
            &&& text_field(paths, "state"@) == Some(s.state@)
            &&& text_field(paths, "config"@) == Some(s.config@)
            &&& text_field(paths, "socket"@) == Some(s.socket@)
            &&& text_field(paths, "lock"@) == Some(path_joined(s.state@, "serve.lock"@))
            &&& text_field(paths, "gateway_log"@) == Some(path_joined(s.state@, "gateway.log"@))
        }),
{
    lemma_status_keys();
    let m0 = Seq::<(Seq<char>, JsonTree)>::empty();
    let g1 = with_key(m0, "host"@, JsonTree::Text("127.0.0.1"@));
    let g2 = with_key(g1, "port"@, number_tree(24543));
    let running = JsonTree::Leaf(Scalar::Bool(s.running));
    let g3 = with_key(g2, "running"@, running);
    lemma_with_key(m0, "host"@, JsonTree::Text("127.0.0.1"@));
    lemma_with_key(g1, "port"@, number_tree(24543));
    lemma_with_key(g2, "running"@, running);
    assert(lookup(g3, "host"@) == Some(JsonTree::Text("127.0.0.1"@)));
    assert(lookup(g3, "port"@) == Some(number_tree(24543)));
    let lock = JsonTree::Text(path_joined(s.state@, "serve.lock"@));
    let log = JsonTree::Text(path_joined(s.state@, "gateway.log"@));
    let p1 = with_key(m0, "state"@, JsonTree::Text(s.state@));
    let p2 = with_key(p1, "config"@, JsonTree::Text(s.config@));
    let p3 = with_key(p2, "socket"@, JsonTree::Text(s.socket@));
    let p4 = with_key(p3, "lock"@, lock);
    let p5 = with_key(p4, "gateway_log"@, log);
    lemma_with_key(m0, "state"@, JsonTree::Text(s.state@));
    lemma_with_key(p1, "config"@, JsonTree::Text(s.config@));
    lemma_with_key(p2, "socket"@, JsonTree::Text(s.socket@));
    lemma_with_key(p3, "lock"@, lock);
    lemma_with_key(p4, "gateway_log"@, log);
    assert(lookup(p5, "state"@) == Some(JsonTree::Text(s.state@)));
    assert(lookup(p5, "config"@) == Some(JsonTree::Text(s.config@)));
    assert(lookup(p5, "socket"@) == Some(JsonTree::Text(s.socket@)));
    assert(lookup(p5, "lock"@) == Some(lock));
    let paired = JsonTree::Leaf(Scalar::Bool(s.paired));
    let agents = text_array(texts(s.agents@));
    let m1 = with_key(m0, "version"@, JsonTree::Text(s.version@));
    let m2 = with_key(m1, "paired"@, paired);
    let m3 = with_key(m2, "gateway"@, JsonTree::Table(g3));
    let m4 = with_key(m3, "agents_installed"@, agents);
    let m5 = with_key(m4, "paths"@, JsonTree::Table(p5));
    lemma_with_key(m0, "version"@, JsonTree::Text(s.version@));
    lemma_with_key(m1, "paired"@, paired);
    lemma_with_key(m2, "gateway"@, JsonTree::Table(g3));
    lemma_with_key(m3, "agents_installed"@, agents);
    lemma_with_key(m4, "paths"@, JsonTree::Table(p5));
    assert(status_tree(s) == JsonTree::Table(m5));
    assert(lookup(m5, "version"@) == Some(JsonTree::Text(s.version@)));
    assert(lookup(m5, "paired"@) == Some(paired));
    assert(lookup(m5, "gateway"@) == Some(JsonTree::Table(g3)));
    assert(lookup(m5, "agents_installed"@) == Some(agents));
}

// ---------------------------------------------------------------------------
// The service
// ---------------------------------------------------------------------------

/// Doubling a character works piece by piece, doubles that character, and leaves
/// every other.
pub proof fn law_doubled(a: Seq<char>, b: Seq<char>, c: char)
    ensures
        doubled(a + b, c) == doubled(a, c) + doubled(b, c),
        doubled(seq![c], c) == seq![c, c],
        !a.contains(c) ==> doubled(a, c) == a,
    decreases a.len() + b.len(),
{
    reveal_with_fuel(doubled, 2);
    assert(seq![c].drop_last() =~= Seq::<char>::empty());
    assert(doubled(seq![c], c) =~= seq![c, c]);
    if b.len() > 0 {
        assert((a + b).drop_last() =~= a + b.drop_last());
        assert((a + b).last() == b.last());
        law_doubled(a, b.drop_last(), c);
        assert(doubled(a + b, c) =~= doubled(a, c) + doubled(b, c));
    } else {
        assert(a + b =~= a);
        assert(doubled(a, c) + doubled(b, c) =~= doubled(a, c));
    }
    if !a.contains(c) && a.len() > 0 {
        let d = a.drop_last();
        assert forall|i: int| 0 <= i < d.len() implies d[i] != c by {
            assert(a.contains(a[i]));
        }
        law_doubled(d, Seq::empty(), c);
        assert(a.contains(a[a.len() - 1]));
        assert(doubled(a, c) =~= a);
    } else if a.len() == 0 {
        assert(doubled(a, c) =~= a);
    }
}

/// The unit starts the program's daemon, whatever its path, with a `%` in it
/// doubled, and starts it again where it fails.
pub proof fn law_unit_starts_the_daemon(exe: Seq<char>)
    ensures
        holds(unit_text(exe), "ExecStart="@ + doubled(exe, '%') + " serve\n"@),
        !exe.contains('%') ==> holds(unit_text(exe), "ExecStart="@ + exe + " serve\n"@),
        ends(
            unit_text(exe),
            " serve\nRestart=on-failure\nRestartSec=3\n\n[Install]\nWantedBy=default.target\n"@,
        ),
{
    let head =
        "# Managed by `sailor-hook service install`; `service uninstall` removes it.\n[Unit]\nDescription=sailor-hook — AI agent events to the sailor app\nAfter=network-online.target\nWants=network-online.target\n\n[Service]\nExecStart="@;
    let tail = " serve\nRestart=on-failure\nRestartSec=3\n\n[Install]\nWantedBy=default.target\n"@;
    reveal_strlit(
        "# Managed by `sailor-hook service install`; `service uninstall` removes it.\n[Unit]\nDescription=sailor-hook — AI agent events to the sailor app\nAfter=network-online.target\nWants=network-online.target\n\n[Service]\nExecStart=",
    );
    reveal_strlit(
        " serve\nRestart=on-failure\nRestartSec=3\n\n[Install]\nWantedBy=default.target\n",
    );
    reveal_strlit("ExecStart=");
    reveal_strlit(" serve\n");
    let u = unit_text(exe);
    let mid = doubled(exe, '%');
    let pat = "ExecStart="@ + mid + " serve\n"@;
    let at = head.len() - 10;
    assert(head.subrange(at, head.len() as int) =~= "ExecStart="@);
    assert(tail.subrange(0, 7) =~= " serve\n"@);
    assert(u =~= head.take(at) + head.subrange(at, head.len() as int) + mid + tail.subrange(0, 7)
        + tail.skip(7));
    assert(u.subrange(at, at + pat.len()) =~= pat);
    assert(stands_at(u, pat, at));
    assert(u.subrange(u.len() - tail.len(), u.len() as int) =~= tail);
    law_doubled(exe, Seq::empty(), '%');
}

/// The verbs, and that any other word is none.
pub proof fn law_service_verbs(s: Seq<char>)
    ensures
        Verb::named("install"@) == Some(Verb::Install),
        Verb::named("uninstall"@) == Some(Verb::Uninstall),
        Verb::named("status"@) == Some(Verb::Status),
        Verb::named(s) is Some ==> s == "install"@ || s == "uninstall"@ || s == "status"@,
{
    reveal_strlit("install");
    reveal_strlit("uninstall");
    reveal_strlit("status");
    assert("install"@.len() == 7 && "uninstall"@.len() == 9 && "status"@.len() == 6);
}

/// An install writes the unit before systemd is told of it and starts it; an
/// uninstall stops it before its file goes, and tells systemd after.
pub proof fn law_service_steps(exe: Seq<char>, path: Seq<char>)
    ensures
        ({
            let s = steps(Verb::Install, exe, path);
            &&& s[0] == (crate::commands::service::StepView::WriteUnit { text: unit_text(exe) })
            &&& s[1] == (crate::commands::service::StepView::Say { line: "wrote "@ + path })
            &&& s[2] == (crate::commands::service::StepView::Systemctl {
                args: seq!["--user"@, "daemon-reload"@],
                needed: true,
            })
            &&& s[3] == (crate::commands::service::StepView::Systemctl {
                args: seq!["--user"@, "enable"@, "--now"@, "sailor-hook.service"@],
                needed: true,
            })
        }),
        ({
            let s = steps(Verb::Uninstall, exe, path);
            &&& s[0] == (crate::commands::service::StepView::Systemctl {
                args: seq!["--user"@, "disable"@, "--now"@, "sailor-hook.service"@],
                needed: false,
            })
            &&& s[1] is RemoveUnit
            &&& s[2] == (crate::commands::service::StepView::Systemctl {
                args: seq!["--user"@, "daemon-reload"@],
                needed: false,
            })
        }),
        steps(Verb::Status, exe, path) == seq![
            (crate::commands::service::StepView::Systemctl {
                args: seq!["--user"@, "status"@, "sailor-hook.service"@, "--no-pager"@],
                needed: true,
            }),
        ],
{
}

/// The unit's file is where systemd looks for a user's units.
pub proof fn law_unit_file(home: &str)
    requires
        home@.len() > 0 && home@.last() != '/',
    ensures
        unit_at(Some(home)) == Ok::<Seq<char>, DirError>(
            home@ + "/.config/systemd/user/sailor-hook.service"@,
        ),
        unit_at(None) == Err::<Seq<char>, DirError>(DirError::NoHome),
{
    reveal_strlit("/");
    reveal_strlit(".config");
    reveal_strlit("systemd");
    reveal_strlit("user");
    reveal_strlit("sailor-hook.service");
    reveal_strlit("/.config/systemd/user/sailor-hook.service");
    assert(".config"@[6] == 'g' && "systemd"@[6] == 'd' && "user"@[3] == 'r');
    let a = home@ + "/"@ + ".config"@;
    assert(a.last() == 'g');
    let b = a + "/"@ + "systemd"@;
    assert(b.last() == 'd');
    let c = b + "/"@ + "user"@;
    assert(c.last() == 'r');
    assert(c + "/"@ + "sailor-hook.service"@
        =~= home@ + "/.config/systemd/user/sailor-hook.service"@);
}

} // verus!
