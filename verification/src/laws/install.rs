//! Laws of the hooks that an install writes: what each of them runs, what is
//! subscribed to, and whose entries are touched.

use crate::commands::install::{
    cursor_command, cursor_list, cursor_stripped, definition, events_of, flat_entry, group,
    hook_command, in_millis, in_seconds, json_installed, json_stripped, kimi_events, lacks_version,
    lemma_cursor_installed, lemma_cursor_stripped, lemma_versioned, list_of, parks, uses_json,
};
use crate::config::Agent;
use crate::hook_laws::{
    law_install_counts, lemma_kept_events, lemma_stripped, lemma_well_formed_sorted,
};
use crate::hooks::{
    appended_all, entries_under, extended, foreign, hook_table, installed, is_owned, kept,
    kept_entries, kept_events, stripped, takes_hooks, Shape,
};
use crate::json::{number_tree, JsonTree};
use crate::laws::adapters::lemma_hook_names;
use crate::text::{decimal, holds, stands_at};
use crate::tree::{
    field, lemma_key_pos, lemma_with_key, lookup, text_field, well_formed, with_key, Tree,
};
use vstd::prelude::*;

verus! {

// ---------------------------------------------------------------------------
// What a hook runs
// ---------------------------------------------------------------------------

/// What stands between the agent's name and the end of the call.
pub open spec fn call_end(waits: bool) -> Seq<char> {
    if waits {
        " --wait-secs 240;"@
    } else {
        ";"@
    }
}

proof fn lemma_wait()
    ensures
        decimal(240) == "240"@,
{
    reveal_with_fuel(decimal, 4);
    reveal_strlit("240");
    assert(decimal(240) =~= "240"@);
}

/// A hook runs the program, if it is there, with the agent's name and, where it
/// waits for an answer, with how long it waits; where the program is gone it
/// swallows its input. The marker ends the command.
pub proof fn law_hook_command(exe: Seq<char>, agent: Seq<char>)
    ensures
        hook_command(exe, agent, false) == "if [ -x '"@ + exe + "' ]; then '"@ + exe
            + "' event --agent "@ + agent + "; else cat >/dev/null 2>&1 || :; fi # sailor-hook"@,
        hook_command(exe, agent, true) == "if [ -x '"@ + exe + "' ]; then '"@ + exe
            + "' event --agent "@ + agent
            + " --wait-secs 240; else cat >/dev/null 2>&1 || :; fi # sailor-hook"@,
{
    lemma_wait();
    reveal_strlit("if [ -x '");
    reveal_strlit("' ]; then '");
    reveal_strlit("' ");
    reveal_strlit("event --agent ");
    reveal_strlit("' event --agent ");
    reveal_strlit(" --wait-secs ");
    reveal_strlit("240");
    reveal_strlit("; else cat >/dev/null 2>&1 || :; fi ");
    reveal_strlit("# sailor-hook");
    reveal_strlit("; else cat >/dev/null 2>&1 || :; fi # sailor-hook");
    reveal_strlit(" --wait-secs 240; else cat >/dev/null 2>&1 || :; fi # sailor-hook");
    assert("' "@ + "event --agent "@ =~= "' event --agent "@);
    assert("; else cat >/dev/null 2>&1 || :; fi "@ + "# sailor-hook"@
        =~= "; else cat >/dev/null 2>&1 || :; fi # sailor-hook"@);
    assert(" --wait-secs "@ + "240"@ + "; else cat >/dev/null 2>&1 || :; fi # sailor-hook"@
        =~= " --wait-secs 240; else cat >/dev/null 2>&1 || :; fi # sailor-hook"@);
    assert(hook_command(exe, agent, false) =~= "if [ -x '"@ + exe + "' ]; then '"@ + exe
        + "' event --agent "@ + agent + "; else cat >/dev/null 2>&1 || :; fi # sailor-hook"@);
    assert(hook_command(exe, agent, true) =~= "if [ -x '"@ + exe + "' ]; then '"@ + exe
        + "' event --agent "@ + agent
        + " --wait-secs 240; else cat >/dev/null 2>&1 || :; fi # sailor-hook"@);
}

/// Whether it waits or not, an installed command calls the program by its path with
/// the agent's name, and the call ends right behind the name, or behind the 240
/// seconds that it waits.
pub proof fn law_command_names_its_agent(exe: Seq<char>, agent: Seq<char>, waits: bool)
    ensures
        holds(
            hook_command(exe, agent, waits),
            exe + "' event --agent "@ + agent + if waits {
                " --wait-secs 240;"@
            } else {
                ";"@
            },
        ),
{
    law_hook_command(exe, agent);
    reveal_strlit(" --wait-secs 240;");
    reveal_strlit(";");
    reveal_strlit("; else cat >/dev/null 2>&1 || :; fi # sailor-hook");
    reveal_strlit(" --wait-secs 240; else cat >/dev/null 2>&1 || :; fi # sailor-hook");
    let s = hook_command(exe, agent, waits);
    let pat = exe + "' event --agent "@ + agent + call_end(waits);
    let head = "if [ -x '"@ + exe + "' ]; then '"@;
    let at = head.len() as int;
    assert(s.subrange(at, at + pat.len()) =~= pat);
    assert(stands_at(s, pat, at));
}

/// The commands of two agents differ, and so do those of a hook that waits and one
/// that does not.
pub proof fn law_commands_tell_agents_apart(
    exe: Seq<char>,
    a: Seq<char>,
    b: Seq<char>,
    a_waits: bool,
    b_waits: bool,
)
    requires
        hook_command(exe, a, a_waits) == hook_command(exe, b, b_waits),
        a_waits == b_waits || !(a.contains(' ') || a.contains(';') || b.contains(' ')
            || b.contains(';')),
    ensures
        a == b,
        a_waits == b_waits,
{
    law_hook_command(exe, a);
    law_hook_command(exe, b);
    let x = hook_command(exe, a, a_waits);
    let y = hook_command(exe, b, b_waits);
    let head = "if [ -x '"@ + exe + "' ]; then '"@ + exe + "' event --agent "@;
    let n = head.len() as int;
    let short = "; else cat >/dev/null 2>&1 || :; fi # sailor-hook"@;
    let long = " --wait-secs 240; else cat >/dev/null 2>&1 || :; fi # sailor-hook"@;
    reveal_strlit("; else cat >/dev/null 2>&1 || :; fi # sailor-hook");
    reveal_strlit(" --wait-secs 240; else cat >/dev/null 2>&1 || :; fi # sailor-hook");
    assert(x =~= head + a + if a_waits {
        long
    } else {
        short
    });
    assert(y =~= head + b + if b_waits {
        long
    } else {
        short
    });
    if a_waits == b_waits {
        assert(a.len() == b.len());
    } else {
        assert(x[n + a.len()] == ' ' || x[n + a.len()] == ';');
        assert(y[n + b.len()] == ' ' || y[n + b.len()] == ';');
        if a.len() < b.len() {
            assert(y[n + a.len()] == b[a.len() as int]);
            assert(b.contains(b[a.len() as int]));
        }
        if b.len() < a.len() {
            assert(x[n + b.len()] == a[b.len() as int]);
            assert(a.contains(a[b.len() as int]));
        }
    }
    assert(x.subrange(n, n + a.len()) =~= a);
    assert(y.subrange(n, n + b.len()) =~= b);
}

/// Cursor's commands name Cursor and wait for nothing; the one that notes the
/// schema version carries the note between the call and the marker.
pub proof fn law_cursor_command(exe: Seq<char>)
    ensures
        cursor_command(exe, false) == "if [ -x '"@ + exe + "' ]; then '"@ + exe
            + "' event --agent cursor; else cat >/dev/null 2>&1 || :; fi # sailor-hook"@,
        cursor_command(exe, true) == "if [ -x '"@ + exe + "' ]; then '"@ + exe
            + "' event --agent cursor; else cat >/dev/null 2>&1 || :; fi # +version # sailor-hook"@,
{
    reveal_strlit("if [ -x '");
    reveal_strlit("' ]; then '");
    reveal_strlit("' ");
    reveal_strlit("event --agent ");
    reveal_strlit("cursor");
    reveal_strlit("; else cat >/dev/null 2>&1 || :; fi ");
    reveal_strlit("# sailor-hook");
    reveal_strlit("# +version # sailor-hook");
    reveal_strlit("' event --agent cursor; else cat >/dev/null 2>&1 || :; fi # sailor-hook");
    reveal_strlit(
        "' event --agent cursor; else cat >/dev/null 2>&1 || :; fi # +version # sailor-hook",
    );
    let call = "' "@ + "event --agent "@ + "cursor"@ + "; else cat >/dev/null 2>&1 || :; fi "@;
    assert(call + "# sailor-hook"@
        =~= "' event --agent cursor; else cat >/dev/null 2>&1 || :; fi # sailor-hook"@);
    assert(call + "# +version # sailor-hook"@
        =~= "' event --agent cursor; else cat >/dev/null 2>&1 || :; fi # +version # sailor-hook"@);
    let head = "if [ -x '"@ + exe + "' ]; then '"@ + exe;
    assert(cursor_command(exe, false) =~= head + (call + "# sailor-hook"@));
    assert(cursor_command(exe, true) =~= head + (call + "# +version # sailor-hook"@));
}

// ---------------------------------------------------------------------------
// What is subscribed to
// ---------------------------------------------------------------------------

/// The hooks that each agent gets, by the name and the matcher that the agent knows
/// them by: a tool's hooks match every tool.
pub proof fn law_subscriptions(e: (Seq<char>, Seq<char>))
    ensures
        events_of(Agent::ClaudeCode).contains(e) <==> e == ("SessionStart"@, ""@) || e == (
            "PreToolUse"@,
            "*"@,
        ) || e == ("PostToolUse"@, "*"@) || e == ("Notification"@, ""@) || e == (
            "PermissionRequest"@,
            "*"@,
        ) || e == ("Stop"@, ""@),
        events_of(Agent::Codex).contains(e) <==> e == ("SessionStart"@, ""@) || e == (
            "PreToolUse"@,
            "*"@,
        ) || e == ("PostToolUse"@, "*"@) || e == ("PermissionRequest"@, "*"@) || e == (
            "SubagentStop"@,
            ""@,
        ) || e == ("Stop"@, ""@),
        events_of(Agent::Gemini).contains(e) <==> e == ("SessionStart"@, ""@) || e == (
            "BeforeTool"@,
            "*"@,
        ) || e == ("AfterTool"@, "*"@) || e == ("Notification"@, ""@) || e == ("SessionEnd"@, ""@),
        events_of(Agent::Cursor).contains(e) <==> e == ("sessionStart"@, ""@) || e == (
            "preToolUse"@,
            "*"@,
        ) || e == ("postToolUse"@, "*"@) || e == ("postToolUseFailure"@, "*"@) || e == (
            "stop"@,
            ""@,
        ) || e == ("sessionEnd"@, ""@),
        kimi_events().contains(e) <==> e == ("SessionStart"@, ""@) || e == ("PreToolUse"@, "*"@)
            || e == ("PostToolUse"@, "*"@) || e == ("PostToolUseFailure"@, "*"@) || e == (
            "Notification"@,
            ""@,
        ) || e == ("Stop"@, ""@) || e == ("SessionEnd"@, ""@),
        events_of(Agent::Qwen).contains(e) <==> e == ("SessionStart"@, ""@) || e == (
            "PreToolUse"@,
            "*"@,
        ) || e == ("PostToolUse"@, "*"@) || e == ("PostToolUseFailure"@, "*"@) || e == (
            "PermissionRequest"@,
            "*"@,
        ) || e == ("Notification"@, ""@) || e == ("Stop"@, ""@) || e == ("SessionEnd"@, ""@),
{
    let t = events_of(Agent::ClaudeCode);
    assert(t[0] == ("SessionStart"@, ""@) && t[1] == ("PreToolUse"@, "*"@));
    assert(t[2] == ("PostToolUse"@, "*"@) && t[3] == ("Notification"@, ""@));
    assert(t[4] == ("PermissionRequest"@, "*"@) && t[5] == ("Stop"@, ""@));
    let t = events_of(Agent::Codex);
    assert(t[0] == ("SessionStart"@, ""@) && t[1] == ("PreToolUse"@, "*"@));
    assert(t[2] == ("PostToolUse"@, "*"@) && t[3] == ("PermissionRequest"@, "*"@));
    assert(t[4] == ("SubagentStop"@, ""@) && t[5] == ("Stop"@, ""@));
    let t = events_of(Agent::Gemini);
    assert(t[0] == ("SessionStart"@, ""@) && t[1] == ("BeforeTool"@, "*"@));
    assert(t[2] == ("AfterTool"@, "*"@) && t[3] == ("Notification"@, ""@));
    assert(t[4] == ("SessionEnd"@, ""@));
    let t = events_of(Agent::Cursor);
    assert(t[0] == ("sessionStart"@, ""@) && t[1] == ("preToolUse"@, "*"@));
    assert(t[2] == ("postToolUse"@, "*"@) && t[3] == ("postToolUseFailure"@, "*"@));
    assert(t[4] == ("stop"@, ""@) && t[5] == ("sessionEnd"@, ""@));
    let t = kimi_events();
    assert(t[0] == ("SessionStart"@, ""@) && t[1] == ("PreToolUse"@, "*"@));
    assert(t[2] == ("PostToolUse"@, "*"@) && t[3] == ("PostToolUseFailure"@, "*"@));
    assert(t[4] == ("Notification"@, ""@) && t[5] == ("Stop"@, ""@));
    assert(t[6] == ("SessionEnd"@, ""@));
    let t = events_of(Agent::Qwen);
    assert(t[0] == ("SessionStart"@, ""@) && t[1] == ("PreToolUse"@, "*"@));
    assert(t[2] == ("PostToolUse"@, "*"@) && t[3] == ("PostToolUseFailure"@, "*"@));
    assert(t[4] == ("PermissionRequest"@, "*"@) && t[5] == ("Notification"@, ""@));
    assert(t[6] == ("Stop"@, ""@) && t[7] == ("SessionEnd"@, ""@));
}

/// No agent is asked twice for the same event.
pub proof fn law_each_event_once(agent: Agent, i: int, j: int)
    requires
        0 <= i < j < events_of(agent).len(),
    ensures
        events_of(agent)[i].0 != events_of(agent)[j].0,
{
    lemma_hook_names();
}

/// A waiting hook may run for five minutes, in the agent's own unit, and any other
/// for as long as reports are given.
pub proof fn law_time_limits(report: u64)
    ensures
        in_seconds().limit(true) == 5 * 60,
        in_seconds().limit(false) == 10,
        in_millis(report).limit(true) == 5 * 60 * 1000,
        in_millis(report).limit(false) == report,
{
}

/// Agents without JSON settings have none that an install would change.
pub proof fn law_other_agents_have_no_json(agent: Agent, t: JsonTree, exe: Seq<char>)
    requires
        agent == Agent::OpenCode || agent == Agent::Kimi || agent == Agent::Pi,
    ensures
        !uses_json(agent),
        events_of(agent).len() == 0,
        json_installed(agent, t, exe) == t,
{
}

/// A hook waits just at the permission request of the three agents that read the
/// answer.
pub proof fn law_which_hooks_wait(agent: Seq<char>, event: Seq<char>)
    ensures
        parks(agent, event) <==> event == "PermissionRequest"@ && (agent == "claude_code"@ || agent
            == "codex"@ || agent == "qwen"@),
{
}

// ---------------------------------------------------------------------------
// What an install writes
// ---------------------------------------------------------------------------

proof fn lemma_appended_elsewhere<L>(
    m: Seq<(Seq<char>, Tree<L>)>,
    list: Seq<(Seq<char>, Tree<L>)>,
    event: Seq<char>,
)
    requires
        forall|i: int| 0 <= i < list.len() ==> (#[trigger] list[i]).0 != event,
    ensures
        lookup(appended_all(m, list), event) == lookup(m, event),
    decreases list.len(),
{
    if list.len() > 0 {
        let d = list.drop_last();
        let n = appended_all(m, d);
        assert forall|i: int| 0 <= i < d.len() implies (#[trigger] d[i]).0 != event by {
            assert(list[i].0 != event);
        }
        lemma_appended_elsewhere(m, d, event);
        assert(list[list.len() - 1].0 != event);
        match lookup(n, list.last().0) {
            Some(Tree::Array(l)) => {
                lemma_with_key(n, list.last().0, Tree::Array(l.push(list.last().1)));
            },
            _ => {
                lemma_with_key(n, list.last().0, Tree::Array(seq![list.last().1]));
            },
        }
    }
}

proof fn lemma_appended_once<L>(
    m: Seq<(Seq<char>, Tree<L>)>,
    list: Seq<(Seq<char>, Tree<L>)>,
    i: int,
)
    requires
        0 <= i < list.len(),
        forall|j: int| 0 <= j < list.len() && j != i ==> (#[trigger] list[j]).0 != list[i].0,
    ensures
        lookup(appended_all(m, list), list[i].0) == Some(
            match lookup(m, list[i].0) {
                Some(Tree::Array(l)) => Tree::Array(l.push(list[i].1)),
                _ => Tree::Array(seq![list[i].1]),
            },
        ),
    decreases list.len(),
{
    let d = list.drop_last();
    let n = appended_all(m, d);
    let (event, entry) = list.last();
    if i < list.len() - 1 {
        assert forall|j: int| 0 <= j < d.len() && j != i implies (#[trigger] d[j]).0 != d[i].0 by {
            assert(list[j].0 != list[i].0);
        }
        assert(d[i] == list[i]);
        lemma_appended_once(m, d, i);
        assert(list[list.len() - 1].0 != list[i].0);
    } else {
        assert forall|j: int| 0 <= j < d.len() implies (#[trigger] d[j]).0 != event by {
            assert(list[j].0 != list[i].0);
        }
        lemma_appended_elsewhere(m, d, event);
    }
    match lookup(n, event) {
        Some(Tree::Array(l)) => {
            lemma_with_key(n, event, Tree::Array(l.push(entry)));
        },
        _ => {
            lemma_with_key(n, event, Tree::Array(seq![entry]));
        },
    }
}

proof fn lemma_extended_once<L>(t: Tree<L>, list: Seq<(Seq<char>, Tree<L>)>, i: int)
    requires
        takes_hooks(t),
        0 <= i < list.len(),
        forall|j: int| 0 <= j < list.len() && j != i ==> (#[trigger] list[j]).0 != list[i].0,
    ensures
        entries_under(extended(t, list), list[i].0) == entries_under(t, list[i].0).push(list[i].1),
{
    let root = t->Table_0;
    let h = hook_table(root)->0;
    lemma_appended_once(h, list, i);
    lemma_with_key(root, "hooks"@, Tree::Table(appended_all(h, list)));
    if lookup(root, "hooks"@) is None {
        lemma_key_pos(h, list[i].0);
    }
    assert(Seq::<Tree<L>>::empty().push(list[i].1) =~= seq![list[i].1]);
}

proof fn lemma_field_names()
    ensures
        "type"@ != "command"@ && "timeout"@ != "command"@ && "timeout"@ != "type"@,
        "name"@ != "command"@ && "name"@ != "type"@ && "name"@ != "timeout"@,
        "matcher"@ != "hooks"@ && "matcher"@ != "command"@ && "matcher"@ != "timeout"@,
        "version"@ != "hooks"@,
{
    reveal_strlit("type");
    reveal_strlit("command");
    reveal_strlit("timeout");
    reveal_strlit("name");
    reveal_strlit("matcher");
    reveal_strlit("hooks");
    reveal_strlit("version");
    assert("command"@[0] == 'c' && "timeout"@[0] == 't' && "matcher"@[0] == 'm');
    assert("type"@[0] == 't' && "name"@[0] == 'n');
    assert("type"@.len() == 4 && "command"@.len() == 7 && "name"@.len() == 4);
    assert("version"@.len() == 7 && "hooks"@.len() == 5 && "matcher"@.len() == 7);
    assert("timeout"@.len() == 7);
}

proof fn lemma_definition_fields(
    exe: Seq<char>,
    agent: Seq<char>,
    waits: bool,
    limit: u64,
    name: Option<Seq<char>>,
)
    ensures
        ({
            let d = definition(exe, agent, waits, limit, name);
            &&& text_field(d, "type"@) == Some("command"@)
            &&& text_field(d, "command"@) == Some(hook_command(exe, agent, waits))
            &&& field(d, "timeout"@) == Some(number_tree(limit))
            &&& text_field(d, "name"@) == name
        }),
{
    lemma_field_names();
    let m0 = Seq::<(Seq<char>, JsonTree)>::empty();
    let v1 = JsonTree::Text("command"@);
    let m1 = with_key(m0, "type"@, v1);
    let v2 = JsonTree::Text(hook_command(exe, agent, waits));
    let m2 = with_key(m1, "command"@, v2);
    let v3 = number_tree(limit);
    let m3 = with_key(m2, "timeout"@, v3);
    assert(lookup(m0, "name"@) is None);
    lemma_with_key(m0, "type"@, v1);
    lemma_with_key(m1, "command"@, v2);
    lemma_with_key(m2, "timeout"@, v3);
    assert(lookup(m3, "type"@) == Some(v1));
    assert(lookup(m3, "command"@) == Some(v2));
    assert(lookup(m3, "name"@) is None);
    if let Some(n) = name {
        lemma_with_key(m3, "name"@, JsonTree::Text(n));
    }
}

proof fn lemma_group_fields(matcher: Seq<char>, hook: JsonTree)
    ensures
        text_field(group(matcher, hook), "matcher"@) == Some(matcher),
        field(group(matcher, hook), "hooks"@) == Some(JsonTree::Array(seq![hook])),
{
    lemma_field_names();
    let m0 = Seq::<(Seq<char>, JsonTree)>::empty();
    let m1 = with_key(m0, "matcher"@, JsonTree::Text(matcher));
    lemma_with_key(m0, "matcher"@, JsonTree::Text(matcher));
    lemma_with_key(m1, "hooks"@, JsonTree::Array(seq![hook]));
}

/// Under each event that an agent of the nested shape is subscribed to, an install
/// leaves what stood there and was not ours, and behind it one group with the
/// event's matcher and one hook, which runs our command. It waits for the phone
/// just at the permission request of an agent that reads the answer, and the agent
/// lets it run five minutes then and ten seconds otherwise.
pub proof fn law_install_writes_the_hook(agent: Agent, t: JsonTree, exe: Seq<char>, i: int)
    requires
        agent == Agent::ClaudeCode || agent == Agent::Codex || agent == Agent::Gemini || agent
            == Agent::Qwen,
        well_formed(t),
        takes_hooks(t),
        0 <= i < events_of(agent).len(),
    ensures
        ({
            let (event, matcher) = events_of(agent)[i];
            let under = entries_under(json_installed(agent, t, exe), event);
            let entry = under.last();
            let hook = field(entry, "hooks"@)->0->Array_0[0];
            let waits = event == "PermissionRequest"@ && agent != Agent::Gemini;
            &&& under == entries_under(json_stripped(agent, t), event).push(entry)
            &&& text_field(entry, "matcher"@) == Some(matcher)
            &&& field(entry, "hooks"@) == Some(JsonTree::Array(seq![hook]))
            &&& text_field(hook, "type"@) == Some("command"@)
            &&& text_field(hook, "command"@) == Some(hook_command(exe, agent.name(), waits))
            &&& field(hook, "timeout"@) == Some(
                number_tree(
                    if agent == Agent::ClaudeCode || agent == Agent::Codex {
                        if waits {
                            300
                        } else {
                            10
                        }
                    } else {
                        if waits {
                            300_000
                        } else {
                            10_000
                        }
                    },
                ),
            )
            &&& text_field(hook, "name"@) == if agent == Agent::Gemini {
                Some("sailor-hook"@)
            } else {
                None
            }
        }),
{
    let list = list_of(agent, t, exe);
    let s = stripped(Shape::Nested, t);
    let (event, matcher) = events_of(agent)[i];
    lemma_hook_names();
    lemma_agent_names();
    lemma_well_formed_sorted(t);
    law_install_counts(Shape::Nested, t, Seq::empty());
    assert(takes_hooks(s));
    assert forall|j: int| 0 <= j < list.len() && j != i implies (#[trigger] list[j]).0
        != list[i].0 by {
        if j < i {
            law_each_event_once(agent, j, i);
        } else {
            law_each_event_once(agent, i, j);
        }
        assert(list[j].0 == events_of(agent)[j].0);
        assert(list[i].0 == events_of(agent)[i].0);
    }
    lemma_extended_once(s, list, i);
    assert(json_installed(agent, t, exe) == extended(s, list));
    assert(list[i].0 == event);
    let under = entries_under(json_installed(agent, t, exe), event);
    assert(under.last() == list[i].1);
    let waits = parks(agent.name(), event);
    let limit: u64 = if agent == Agent::ClaudeCode || agent == Agent::Codex {
        if waits {
            300
        } else {
            10
        }
    } else {
        if waits {
            300_000
        } else {
            10_000
        }
    };
    let name = if agent == Agent::Gemini {
        Some("sailor-hook"@)
    } else {
        None
    };
    let hook = definition(exe, agent.name(), waits, limit, name);
    assert(list[i].1 == group(matcher, hook));
    lemma_definition_fields(exe, agent.name(), waits, limit, name);
    lemma_group_fields(matcher, hook);
    assert(seq![hook][0] == hook);
}

proof fn lemma_agent_names()
    ensures
        "gemini"@ != "claude_code"@ && "gemini"@ != "codex"@ && "gemini"@ != "qwen"@,
{
    reveal_strlit("gemini");
    reveal_strlit("claude_code");
    reveal_strlit("codex");
    reveal_strlit("qwen");
    assert("gemini"@.len() == 6 && "claude_code"@.len() == 11);
    assert("codex"@.len() == 5 && "qwen"@.len() == 4);
}

/// Under each of Cursor's events an install leaves what stood there and was not
/// ours, and behind it one hook that runs our command within ten seconds. The first
/// of them says so where the install wrote the schema version too.
pub proof fn law_cursor_install_writes_the_hook(t: JsonTree, exe: Seq<char>, i: int)
    requires
        well_formed(t),
        takes_hooks(t),
        0 <= i < events_of(Agent::Cursor).len(),
    ensures
        ({
            let (event, matcher) = events_of(Agent::Cursor)[i];
            let s = json_stripped(Agent::Cursor, t);
            let w = json_installed(Agent::Cursor, t, exe);
            let under = entries_under(w, event);
            let hook = under.last();
            &&& under == entries_under(s, event).push(hook)
            &&& text_field(hook, "command"@) == Some(
                cursor_command(exe, i == 0 && field(s, "version"@) is None),
            )
            &&& field(hook, "timeout"@) == Some(number_tree(10))
            &&& text_field(hook, "matcher"@) is None
            &&& field(w, "version"@) == if field(s, "version"@) is None {
                Some(number_tree(1))
            } else {
                field(s, "version"@)
            }
        }),
{
    let s = cursor_stripped(t);
    let note = lacks_version(s);
    let list = cursor_list(exe, note);
    let x = extended(s, list);
    let (event, matcher) = events_of(Agent::Cursor)[i];
    lemma_hook_names();
    lemma_field_names();
    lemma_cursor_stripped(t, list);
    lemma_cursor_installed(t, exe);
    assert forall|j: int| 0 <= j < list.len() && j != i implies (#[trigger] list[j]).0
        != list[i].0 by {
        if j < i {
            law_each_event_once(Agent::Cursor, j, i);
        } else {
            law_each_event_once(Agent::Cursor, i, j);
        }
        assert(list[j].0 == events_of(Agent::Cursor)[j].0);
        assert(list[i].0 == events_of(Agent::Cursor)[i].0);
    }
    lemma_extended_once(s, list, i);
    let w = json_installed(Agent::Cursor, t, exe);
    assert(installed(Shape::Flat, s, list) == x);
    lemma_versioned(x);
    assert(entries_under(w, event) == entries_under(x, event));
    let hook = entries_under(w, event).last();
    let noted = note && i == 0;
    assert(hook == flat_entry(exe, matcher, noted));
    reveal_strlit("");
    reveal_strlit("*");
    let m0 = Seq::<(Seq<char>, JsonTree)>::empty();
    let v1 = JsonTree::Text(cursor_command(exe, noted));
    let m1 = with_key(m0, "command"@, v1);
    assert(lookup(m0, "matcher"@) is None);
    lemma_with_key(m0, "command"@, v1);
    lemma_with_key(m1, "timeout"@, number_tree(10));
    if note {
        lemma_with_key(x->Table_0, "version"@, number_tree(1));
    }
}

// ---------------------------------------------------------------------------
// Whose entries are touched
// ---------------------------------------------------------------------------

/// A hook is ours just where its command carries our marker.
pub proof fn law_marker_tells_ours(hook: JsonTree)
    ensures
        is_owned(hook) <==> text_field(hook, "command"@) is Some && holds(
            text_field(hook, "command"@)->0,
            "# sailor-hook"@,
        ),
{
}

/// Taking ours out of a list of definitions takes out each that carries the marker,
/// and leaves the others in their order.
pub proof fn law_foreign_definitions_stay(a: Seq<JsonTree>, hook: JsonTree)
    ensures
        text_field(hook, "command"@) is Some && holds(
            text_field(hook, "command"@)->0,
            "# sailor-hook"@,
        ) ==> foreign(a.push(hook)) == foreign(a),
        text_field(hook, "command"@) is None || !holds(
            text_field(hook, "command"@)->0,
            "# sailor-hook"@,
        ) ==> foreign(a.push(hook)) == foreign(a).push(hook),
        foreign(Seq::<JsonTree>::empty()) == Seq::<JsonTree>::empty(),
{
    assert(a.push(hook).drop_last() =~= a);
}

/// The same of Cursor's entries.
pub proof fn law_foreign_flat_entries_stay(a: Seq<JsonTree>, hook: JsonTree)
    ensures
        text_field(hook, "command"@) is Some && holds(
            text_field(hook, "command"@)->0,
            "# sailor-hook"@,
        ) ==> kept_entries(Shape::Flat, a.push(hook)) == kept_entries(Shape::Flat, a),
        text_field(hook, "command"@) is None || !holds(
            text_field(hook, "command"@)->0,
            "# sailor-hook"@,
        ) ==> kept_entries(Shape::Flat, a.push(hook)) == kept_entries(Shape::Flat, a).push(hook),
{
    assert(a.push(hook).drop_last() =~= a);
}

/// A group that holds nothing of ours stays as it is.
pub proof fn law_foreign_groups_stay(a: Seq<JsonTree>, entry: JsonTree)
    requires
        !(field(entry, "hooks"@) matches Some(Tree::Array(_))),
    ensures
        kept_entries(Shape::Nested, a.push(entry)) == kept_entries(Shape::Nested, a).push(entry),
{
    assert(a.push(entry).drop_last() =~= a);
}

/// A group keeps what is not ours in it, and its other keys; a group of ours alone
/// goes.
pub proof fn law_mixed_groups(m: Seq<(Seq<char>, JsonTree)>, list: Seq<JsonTree>, key: Seq<char>)
    requires
        lookup(m, "hooks"@) == Some(JsonTree::Array(list)),
        key != "hooks"@,
    ensures
        foreign(list).len() > 0 ==> (kept(Shape::Nested, JsonTree::Table(m)) matches Some(g)
            && field(g, "hooks"@) == Some(JsonTree::Array(foreign(list))) && field(g, key)
            == lookup(m, key)),
        foreign(list).len() == 0 ==> kept(Shape::Nested, JsonTree::Table(m)) is None,
{
    lemma_with_key(m, "hooks"@, JsonTree::Array(foreign(list)));
}

/// Taking ours out of settings takes ours out of each event's entries, and touches
/// nothing else of them.
pub proof fn law_strip_by_event(shape: Shape, t: JsonTree, event: Seq<char>, key: Seq<char>)
    requires
        well_formed(t),
    ensures
        entries_under(stripped(shape, t), event) == kept_entries(shape, entries_under(t, event)),
        key != "hooks"@ ==> field(stripped(shape, t), key) == field(t, key),
{
    lemma_well_formed_sorted(t);
    lemma_stripped(shape, t);
    assert(kept_entries(shape, Seq::<JsonTree>::empty()) =~= Seq::<JsonTree>::empty());
    if let Some(Tree::Table(h)) = field(t, "hooks"@) {
        lemma_kept_events(shape, h);
        assert(lookup(kept_events(shape, h), event) == lookup(kept_events(shape, h), event));
        match lookup(h, event) {
            Some(Tree::Array(list)) => {
                if kept_entries(shape, list).len() == 0 {
                    assert(kept_entries(shape, list) =~= Seq::<JsonTree>::empty());
                }
            },
            _ => {},
        }
        if field(stripped(shape, t), "hooks"@) is None {
            lemma_key_pos(kept_events(shape, h), event);
            assert(lookup(kept_events(shape, h), event) is None);
        }
    }
}

} // verus!
