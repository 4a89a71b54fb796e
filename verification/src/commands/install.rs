//! Hook entries for the supported agents.
//!
//! - `claude_code`, `codex`, `gemini` and `qwen` share one settings shape: each event has
//!   groups, and a group has a matcher and its hook definitions.
//! - Cursor has a flat shape: an event has hook definitions.
//! - Kimi has one TOML array of rules, OpenCode a plugin file, pi an extension
//!   file: see the three submodules.
//!
//! Every file is shared with the user's own settings and with other tools: our
//! entries carry a marker, only they are ever taken out, and putting them in
//! twice is putting them in once.

use crate::config::{Agent, Target, TargetView};
use crate::hook_laws::{
    has_room, is_tidy, law_foreign_settings_come_back, law_install_counts,
    law_install_is_idempotent, law_other_keys_stay, law_strip_is_complete,
    law_uninstall_undoes_install, law_well_formed_stays, lemma_clean_stays, lemma_extended_first,
    lemma_no_owned_under, lemma_stripped_is_clean, lemma_well_formed_sorted,
};
use crate::hooks;
use crate::hooks::{
    all_ours, clamped, entries_under, extended, foreign, installed, is_owned, kept, owned_in,
    owned_total, stripped, takes_hooks, Shape, MARKER,
};
use crate::json;
use crate::json::{
    json_parsed, json_text_pretty, levels, number_tree, reads_back, Json, JsonTree,
};
use crate::text;
use crate::text::{decimal, holds};
use crate::tree;
use crate::tree::{
    entries, field, lemma_array_view, lemma_array_well_formed, lemma_sorted_extensional,
    lemma_table_view, lemma_well_formed_with_key, lemma_well_formed_without_key, lemma_with_key,
    lemma_without_key, lookup, set_key, sorted, text_field, text_node, views, well_formed,
    with_key, without_key, Node, Tree,
};
use vstd::prelude::*;

pub mod kimi;
pub mod opencode;
pub mod pi;

verus! {

/// How long the hook waits for an answer from the phone.
pub const APPROVAL_WAIT_SECS: u64 = 240;

/// How long the agent lets a waiting hook run. It outlives the wait, so that the
/// hook can still print its fallback.
pub const APPROVAL_TIMEOUT_SECS: u64 = 300;

/// How long the agent lets any other hook run.
pub const REPORT_TIMEOUT_SECS: u64 = 10;

/// Qwen measures in milliseconds.
pub const QWEN_APPROVAL_TIMEOUT_MS: u64 = 300_000;

pub const QWEN_REPORT_TIMEOUT_MS: u64 = 10_000;

/// So does Gemini.
pub const GEMINI_REPORT_TIMEOUT_MS: u64 = 10_000;

// ---------------------------------------------------------------------------
// What is subscribed to
// ---------------------------------------------------------------------------

/// The views of a table of events with their matchers.
pub open spec fn pairs(v: Seq<(&'static str, &'static str)>) -> Seq<(Seq<char>, Seq<char>)> {
    Seq::new(v.len(), |i: int| (v[i].0@, v[i].1@))
}

/// The events of `claude_code`. Tool events match every tool.
pub open spec fn claude_events() -> Seq<(Seq<char>, Seq<char>)> {
    seq![
        ("SessionStart"@, ""@),
        ("PreToolUse"@, "*"@),
        ("PostToolUse"@, "*"@),
        ("Notification"@, ""@),
        ("PermissionRequest"@, "*"@),
        ("Stop"@, ""@),
    ]
}

/// Codex's events.
pub open spec fn codex_events() -> Seq<(Seq<char>, Seq<char>)> {
    seq![
        ("SessionStart"@, ""@),
        ("PreToolUse"@, "*"@),
        ("PostToolUse"@, "*"@),
        ("PermissionRequest"@, "*"@),
        ("SubagentStop"@, ""@),
        ("Stop"@, ""@),
    ]
}

/// Gemini's events; none of them asks for permission.
pub open spec fn gemini_events() -> Seq<(Seq<char>, Seq<char>)> {
    seq![
        ("SessionStart"@, ""@),
        ("BeforeTool"@, "*"@),
        ("AfterTool"@, "*"@),
        ("Notification"@, ""@),
        ("SessionEnd"@, ""@),
    ]
}

/// Cursor's events. Its tool hook could gate, but fires on every call, so it only
/// observes.
pub open spec fn cursor_events() -> Seq<(Seq<char>, Seq<char>)> {
    seq![
        ("sessionStart"@, ""@),
        ("preToolUse"@, "*"@),
        ("postToolUse"@, "*"@),
        ("postToolUseFailure"@, "*"@),
        ("stop"@, ""@),
        ("sessionEnd"@, ""@),
    ]
}

/// Kimi's events; its permission hook only observes.
pub open spec fn kimi_events() -> Seq<(Seq<char>, Seq<char>)> {
    seq![
        ("SessionStart"@, ""@),
        ("PreToolUse"@, "*"@),
        ("PostToolUse"@, "*"@),
        ("PostToolUseFailure"@, "*"@),
        ("Notification"@, ""@),
        ("Stop"@, ""@),
        ("SessionEnd"@, ""@),
    ]
}

/// Qwen's events.
pub open spec fn qwen_events() -> Seq<(Seq<char>, Seq<char>)> {
    seq![
        ("SessionStart"@, ""@),
        ("PreToolUse"@, "*"@),
        ("PostToolUse"@, "*"@),
        ("PostToolUseFailure"@, "*"@),
        ("PermissionRequest"@, "*"@),
        ("Notification"@, ""@),
        ("Stop"@, ""@),
        ("SessionEnd"@, ""@),
    ]
}

/// The events of `claude_code` with their matchers.
pub fn claude_hooks() -> (r: Vec<(&'static str, &'static str)>)
    ensures
        pairs(r@) == claude_events(),
{
    let v = vec![
        ("SessionStart", ""),
        ("PreToolUse", "*"),
        ("PostToolUse", "*"),
        ("Notification", ""),
        ("PermissionRequest", "*"),
        ("Stop", ""),
    ];
    assert(pairs(v@) =~= claude_events());
    v
}

/// Codex's events with their matchers.
pub fn codex_hooks() -> (r: Vec<(&'static str, &'static str)>)
    ensures
        pairs(r@) == codex_events(),
{
    let v = vec![
        ("SessionStart", ""),
        ("PreToolUse", "*"),
        ("PostToolUse", "*"),
        ("PermissionRequest", "*"),
        ("SubagentStop", ""),
        ("Stop", ""),
    ];
    assert(pairs(v@) =~= codex_events());
    v
}

/// Gemini's events with their matchers.
pub fn gemini_hooks() -> (r: Vec<(&'static str, &'static str)>)
    ensures
        pairs(r@) == gemini_events(),
{
    let v = vec![
        ("SessionStart", ""),
        ("BeforeTool", "*"),
        ("AfterTool", "*"),
        ("Notification", ""),
        ("SessionEnd", ""),
    ];
    assert(pairs(v@) =~= gemini_events());
    v
}

/// Cursor's events with their matchers.
pub fn cursor_hooks() -> (r: Vec<(&'static str, &'static str)>)
    ensures
        pairs(r@) == cursor_events(),
{
    let v = vec![
        ("sessionStart", ""),
        ("preToolUse", "*"),
        ("postToolUse", "*"),
        ("postToolUseFailure", "*"),
        ("stop", ""),
        ("sessionEnd", ""),
    ];
    assert(pairs(v@) =~= cursor_events());
    v
}

/// Kimi's events with their matchers.
pub fn kimi_hooks() -> (r: Vec<(&'static str, &'static str)>)
    ensures
        pairs(r@) == kimi_events(),
{
    let v = vec![
        ("SessionStart", ""),
        ("PreToolUse", "*"),
        ("PostToolUse", "*"),
        ("PostToolUseFailure", "*"),
        ("Notification", ""),
        ("Stop", ""),
        ("SessionEnd", ""),
    ];
    assert(pairs(v@) =~= kimi_events());
    v
}

/// Qwen's events with their matchers.
pub fn qwen_hooks() -> (r: Vec<(&'static str, &'static str)>)
    ensures
        pairs(r@) == qwen_events(),
{
    let v = vec![
        ("SessionStart", ""),
        ("PreToolUse", "*"),
        ("PostToolUse", "*"),
        ("PostToolUseFailure", "*"),
        ("PermissionRequest", "*"),
        ("Notification", ""),
        ("Stop", ""),
        ("SessionEnd", ""),
    ];
    assert(pairs(v@) =~= qwen_events());
    v
}

/// An event whose hook's output the agent reads as a decision: the permission
/// request of the three agents that have one.
pub open spec fn parks(agent: Seq<char>, event: Seq<char>) -> bool {
    event == "PermissionRequest"@ && (agent == "claude_code"@ || agent == "codex"@ || agent
        == "qwen"@)
}

/// Whether the hook for an event waits for the phone.
pub fn waits_for_a_decision(agent: &str, event: &str) -> (r: bool)
    ensures
        r == parks(agent@, event@),
{
    text::same(event, "PermissionRequest") && (text::same(agent, "claude_code") || text::same(
        agent,
        "codex",
    ) || text::same(agent, "qwen"))
}

/// How long an agent lets hooks run, in the agent's own unit.
#[derive(Debug, Clone, Copy, PartialEq, Eq, Structural)]
pub struct Timeouts {
    pub approval: u64,
    pub report: u64,
}

impl Timeouts {
    /// The limit of a hook.
    pub open spec fn limit(self, waits: bool) -> u64 {
        if waits {
            self.approval
        } else {
            self.report
        }
    }

    /// The limit of a hook that waits for a decision, or of one that does not.
    pub fn of(&self, waits: bool) -> (r: u64)
        ensures
            r == self.limit(waits),
    {
        if waits {
            self.approval
        } else {
            self.report
        }
    }
}

/// The limits of the agents that count seconds.
pub open spec fn in_seconds() -> Timeouts {
    Timeouts { approval: APPROVAL_TIMEOUT_SECS, report: REPORT_TIMEOUT_SECS }
}

/// The limits of the agents that count milliseconds.
pub open spec fn in_millis(report: u64) -> Timeouts {
    Timeouts { approval: QWEN_APPROVAL_TIMEOUT_MS, report }
}

/// The limits of the agents that count seconds.
pub fn seconds_timeout() -> (r: Timeouts)
    ensures
        r == in_seconds(),
{
    Timeouts { approval: APPROVAL_TIMEOUT_SECS, report: REPORT_TIMEOUT_SECS }
}

/// The limits of the agents that count milliseconds.
pub fn ms_timeout(report_ms: u64) -> (r: Timeouts)
    ensures
        r == in_millis(report_ms),
{
    Timeouts { approval: QWEN_APPROVAL_TIMEOUT_MS, report: report_ms }
}

/// Whatever the unit, an agent lets a waiting hook run longer than the wait: the
/// hook gets to print its fallback.
pub proof fn law_hook_outlives_the_wait(report: u64)
    ensures
        in_seconds().limit(true) > APPROVAL_WAIT_SECS,
        in_millis(report).limit(true) > APPROVAL_WAIT_SECS * 1000,
{
}

// ---------------------------------------------------------------------------
// One hook
// ---------------------------------------------------------------------------

/// The arguments that the hook program is called with.
pub open spec fn hook_args(agent: Seq<char>, waits: bool) -> Seq<char> {
    if waits {
        "event --agent "@ + agent + " --wait-secs "@ + decimal(APPROVAL_WAIT_SECS as nat)
    } else {
        "event --agent "@ + agent
    }
}

/// What a hook has the shell do. Where the program is gone it swallows its input
/// and ends well, as if no hook were configured.
pub open spec fn hook_script(exe: Seq<char>, agent: Seq<char>, waits: bool) -> Seq<char> {
    "if [ -x '"@ + exe + "' ]; then '"@ + exe + "' "@ + hook_args(agent, waits)
        + "; else cat >/dev/null 2>&1 || :; fi "@
}

/// The shell command of a hook.
pub open spec fn hook_command(exe: Seq<char>, agent: Seq<char>, waits: bool) -> Seq<char> {
    hook_script(exe, agent, waits) + MARKER@
}

fn script_for(exe: &str, agent: &str, waits: bool) -> (r: String)
    ensures
        r@ == hook_script(exe@, agent@, waits),
{
    let mut args = text::concat2("event --agent ", agent);
    if waits {
        args.append(" --wait-secs ");
        args.append(text::number(APPROVAL_WAIT_SECS).as_str());
    }
    let mut out = text::concat3("if [ -x '", exe, "' ]; then '");
    out.append(exe);
    out.append("' ");
    out.append(args.as_str());
    out.append("; else cat >/dev/null 2>&1 || :; fi ");
    out
}

/// The shell command of a hook.
pub fn command_for(exe: &str, agent: &str, waits: bool) -> (r: String)
    ensures
        r@ == hook_command(exe@, agent@, waits),
        holds(r@, MARKER@),
{
    let mut out = script_for(exe, agent, waits);
    out.append(MARKER);
    proof {
        lemma_command_is_ours(exe@, agent@, waits);
    }
    out
}

/// The command of a hook carries the marker.
pub proof fn lemma_command_is_ours(exe: Seq<char>, agent: Seq<char>, waits: bool)
    ensures
        holds(hook_command(exe, agent, waits), MARKER@),
{
    let head = hook_script(exe, agent, waits);
    let s = hook_command(exe, agent, waits);
    assert(s.subrange(head.len() as int, s.len() as int) =~= MARKER@);
    assert(text::stands_at(s, MARKER@, head.len() as int));
}

/// A hook definition of the nested shape; Gemini wants a name on it.
pub open spec fn definition(
    exe: Seq<char>,
    agent: Seq<char>,
    waits: bool,
    limit: u64,
    name: Option<Seq<char>>,
) -> JsonTree {
    let plain = with_key(
        with_key(
            with_key(Seq::empty(), "type"@, JsonTree::Text("command"@)),
            "command"@,
            JsonTree::Text(hook_command(exe, agent, waits)),
        ),
        "timeout"@,
        number_tree(limit),
    );
    match name {
        Some(n) => Tree::Table(with_key(plain, "name"@, JsonTree::Text(n))),
        None => Tree::Table(plain),
    }
}

/// A group of the nested shape: a matcher and its definitions.
pub open spec fn group(matcher: Seq<char>, hook: JsonTree) -> JsonTree {
    Tree::Table(
        with_key(
            with_key(Seq::empty(), "matcher"@, JsonTree::Text(matcher)),
            "hooks"@,
            JsonTree::Array(seq![hook]),
        ),
    )
}

/// The entries that an agent of the nested shape gets.
pub open spec fn nested_list(
    exe: Seq<char>,
    agent: Seq<char>,
    events: Seq<(Seq<char>, Seq<char>)>,
    timeouts: Timeouts,
    name: Option<Seq<char>>,
) -> Seq<(Seq<char>, JsonTree)> {
    Seq::new(
        events.len(),
        |i: int|
            {
                let waits = parks(agent, events[i].0);
                (
                    events[i].0,
                    group(
                        events[i].1,
                        definition(exe, agent, waits, timeouts.limit(waits), name),
                    ),
                )
            },
    )
}

/// How the command of Cursor's first hook ends where the schema version of the
/// settings was written with it, and goes with it: with a note before the marker.
pub const VERSION_NOTE: &'static str = "# +version # sailor-hook";

/// The shell command of a hook of Cursor's.
pub open spec fn cursor_command(exe: Seq<char>, note: bool) -> Seq<char> {
    if note {
        hook_script(exe, "cursor"@, false) + VERSION_NOTE@
    } else {
        hook_command(exe, "cursor"@, false)
    }
}

/// A hook definition of the flat shape; a matcher that matches everything is left out.
pub open spec fn flat_entry(exe: Seq<char>, matcher: Seq<char>, note: bool) -> JsonTree {
    let plain = with_key(
        with_key(Seq::empty(), "command"@, JsonTree::Text(cursor_command(exe, note))),
        "timeout"@,
        number_tree(REPORT_TIMEOUT_SECS),
    );
    if matcher.len() > 0 && matcher != "*"@ {
        Tree::Table(with_key(plain, "matcher"@, JsonTree::Text(matcher)))
    } else {
        Tree::Table(plain)
    }
}

/// The entries that Cursor gets; the first notes whether the schema version is ours.
pub open spec fn cursor_list(exe: Seq<char>, note: bool) -> Seq<(Seq<char>, JsonTree)> {
    Seq::new(
        cursor_events().len(),
        |i: int|
            (cursor_events()[i].0, flat_entry(exe, cursor_events()[i].1, note && i == 0)),
    )
}

proof fn lemma_key_names()
    ensures
        "type"@ != "command"@,
        "timeout"@ != "command"@,
        "name"@ != "command"@,
        "matcher"@ != "command"@,
        "matcher"@ != "hooks"@,
        "version"@ != "hooks"@,
{
    reveal_strlit("type");
    reveal_strlit("command");
    reveal_strlit("timeout");
    reveal_strlit("name");
    reveal_strlit("matcher");
    reveal_strlit("hooks");
    reveal_strlit("version");
    assert("command"@[0] == 'c' && "timeout"@[0] == 't' && "matcher"@[0] == 'm');
    assert("type"@.len() == 4 && "command"@.len() == 7 && "name"@.len() == 4);
    assert("version"@.len() == 7 && "hooks"@.len() == 5 && "matcher"@.len() == 7);
}

proof fn lemma_definition(
    exe: Seq<char>,
    agent: Seq<char>,
    waits: bool,
    limit: u64,
    name: Option<Seq<char>>,
)
    ensures
        is_owned(definition(exe, agent, waits, limit, name)),
        well_formed(definition(exe, agent, waits, limit, name)),
{
    lemma_key_names();
    lemma_command_is_ours(exe, agent, waits);
    let m0 = Seq::<(Seq<char>, JsonTree)>::empty();
    let v1 = JsonTree::Text("command"@);
    let m1 = with_key(m0, "type"@, v1);
    let v2 = JsonTree::Text(hook_command(exe, agent, waits));
    let m2 = with_key(m1, "command"@, v2);
    let v3 = number_tree(limit);
    let m3 = with_key(m2, "timeout"@, v3);
    lemma_with_key(m0, "type"@, v1);
    lemma_with_key(m1, "command"@, v2);
    lemma_with_key(m2, "timeout"@, v3);
    lemma_well_formed_with_key(m0, "type"@, v1);
    lemma_well_formed_with_key(m1, "command"@, v2);
    lemma_well_formed_with_key(m2, "timeout"@, v3);
    assert(lookup(m3, "command"@) == Some(v2));
    if let Some(n) = name {
        lemma_with_key(m3, "name"@, JsonTree::Text(n));
        lemma_well_formed_with_key(m3, "name"@, JsonTree::Text(n));
    }
}

proof fn lemma_group(matcher: Seq<char>, hook: JsonTree)
    requires
        is_owned(hook),
        well_formed(hook),
    ensures
        kept(Shape::Nested, group(matcher, hook)) is None,
        owned_in(Shape::Nested, group(matcher, hook)) == 1,
        well_formed(group(matcher, hook)),
{
    lemma_key_names();
    let m0 = Seq::<(Seq<char>, JsonTree)>::empty();
    let m1 = with_key(m0, "matcher"@, JsonTree::Text(matcher));
    let list = seq![hook];
    lemma_with_key(m1, "hooks"@, JsonTree::Array(list));
    lemma_array_well_formed(list);
    lemma_well_formed_with_key(m0, "matcher"@, JsonTree::Text(matcher));
    lemma_well_formed_with_key(m1, "hooks"@, JsonTree::Array(list));
    assert(list.drop_last() =~= Seq::empty());
    assert(foreign(list.drop_last()).len() == 0);
    assert(foreign(list).len() == 0);
}

/// Every entry for the nested shape holds one hook, which is ours.
pub proof fn lemma_nested_list(
    exe: Seq<char>,
    agent: Seq<char>,
    events: Seq<(Seq<char>, Seq<char>)>,
    timeouts: Timeouts,
    name: Option<Seq<char>>,
)
    ensures
        all_ours(Shape::Nested, nested_list(exe, agent, events, timeouts, name)),
        forall|i: int|
            0 <= i < events.len() ==> well_formed(
                (#[trigger] nested_list(exe, agent, events, timeouts, name)[i]).1,
            ),
{
    let list = nested_list(exe, agent, events, timeouts, name);
    assert forall|i: int| 0 <= i < list.len() implies kept(
        Shape::Nested,
        (#[trigger] list[i]).1,
    ) is None && owned_in(Shape::Nested, list[i].1) == 1 && well_formed(list[i].1) by {
        let waits = parks(agent, events[i].0);
        let hook = definition(exe, agent, waits, timeouts.limit(waits), name);
        lemma_definition(exe, agent, waits, timeouts.limit(waits), name);
        lemma_group(events[i].1, hook);
    }
}

/// A command of Cursor's ends with the marker like any other, and says whether it
/// carries the note.
pub proof fn lemma_cursor_command(exe: Seq<char>, note: bool)
    ensures
        text::ends(cursor_command(exe, note), MARKER@),
        holds(cursor_command(exe, note), MARKER@),
        text::ends(cursor_command(exe, note), VERSION_NOTE@) == note,
{
    let script = hook_script(exe, "cursor"@, false);
    let c = cursor_command(exe, note);
    let v = VERSION_NOTE@;
    let m = MARKER@;
    let fi = "; else cat >/dev/null 2>&1 || :; fi "@;
    reveal_strlit("# +version # sailor-hook");
    reveal_strlit("# sailor-hook");
    reveal_strlit("; else cat >/dev/null 2>&1 || :; fi ");
    assert(v.len() == 24 && m.len() == 13 && v[9] == 'n');
    assert(v.subrange(11, 24) =~= m);
    assert(c.subrange(c.len() - 13, c.len() as int) =~= m);
    assert(text::stands_at(c, m, c.len() - 13));
    if note {
        assert(c.subrange(c.len() - 24, c.len() as int) =~= v);
    } else {
        assert(script[script.len() - 2] == fi[fi.len() - 2]);
        assert(fi[fi.len() - 2] == 'i');
        if text::ends(c, v) {
            assert(c.subrange(c.len() - 24, c.len() as int)[9] == c[c.len() - 15]);
            assert(c[c.len() - 15] == script[script.len() - 2]);
        }
    }
}

proof fn lemma_flat_entry(exe: Seq<char>, matcher: Seq<char>, note: bool)
    ensures
        kept(Shape::Flat, flat_entry(exe, matcher, note)) is None,
        owned_in(Shape::Flat, flat_entry(exe, matcher, note)) == 1,
        is_noted(flat_entry(exe, matcher, note)) == note,
        well_formed(flat_entry(exe, matcher, note)),
{
    lemma_key_names();
    lemma_cursor_command(exe, note);
    let m0 = Seq::<(Seq<char>, JsonTree)>::empty();
    let v1 = JsonTree::Text(cursor_command(exe, note));
    let m1 = with_key(m0, "command"@, v1);
    let v2 = number_tree(REPORT_TIMEOUT_SECS);
    let m2 = with_key(m1, "timeout"@, v2);
    lemma_with_key(m0, "command"@, v1);
    lemma_with_key(m1, "timeout"@, v2);
    lemma_well_formed_with_key(m0, "command"@, v1);
    lemma_well_formed_with_key(m1, "timeout"@, v2);
    lemma_with_key(m2, "matcher"@, JsonTree::Text(matcher));
    lemma_well_formed_with_key(m2, "matcher"@, JsonTree::Text(matcher));
    assert(text_field(flat_entry(exe, matcher, note), "command"@) == Some(
        cursor_command(exe, note),
    ));
}

/// Every entry for Cursor is a hook of ours, the first is the only one under its
/// event, and it alone may note the version.
pub proof fn lemma_cursor_list(exe: Seq<char>, note: bool)
    ensures
        all_ours(Shape::Flat, cursor_list(exe, note)),
        forall|i: int|
            0 <= i < cursor_list(exe, note).len() ==> well_formed(
                (#[trigger] cursor_list(exe, note)[i]).1,
            ),
        is_noted(cursor_list(exe, note)[0].1) == note,
        forall|i: int|
            0 < i < cursor_list(exe, note).len() ==> (#[trigger] cursor_list(exe, note)[i]).0
                != "sessionStart"@,
{
    let list = cursor_list(exe, note);
    assert forall|i: int| 0 <= i < list.len() implies kept(
        Shape::Flat,
        (#[trigger] list[i]).1,
    ) is None && owned_in(Shape::Flat, list[i].1) == 1 && well_formed(list[i].1) by {
        lemma_flat_entry(exe, cursor_events()[i].1, note && i == 0);
    }
    lemma_flat_entry(exe, cursor_events()[0].1, note);
    reveal_strlit("sessionStart");
    reveal_strlit("preToolUse");
    reveal_strlit("postToolUse");
    reveal_strlit("postToolUseFailure");
    reveal_strlit("stop");
    reveal_strlit("sessionEnd");
    assert forall|i: int| 0 < i < list.len() implies (#[trigger] list[i]).0 != "sessionStart"@ by {
        assert("sessionStart"@.len() == 12);
        assert(list[i].0.len() != 12);
    }
}

/// Builds a hook definition of the nested shape.
fn definition_node(
    exe: &str,
    agent: &str,
    waits: bool,
    limit: u64,
    name: Option<&str>,
) -> (r: Json)
    ensures
        r@ == definition(exe@, agent@, waits, limit, text::opt_str(name)),
{
    broadcast use lemma_table_view;

    let mut m: Vec<(String, Json)> = Vec::new();
    assert(entries(m@) =~= Seq::empty());
    set_key(&mut m, "type", text_node("command"));
    set_key(&mut m, "command", Node::Text(command_for(exe, agent, waits)));
    set_key(&mut m, "timeout", json::number(limit));
    if let Some(n) = name {
        set_key(&mut m, "name", text_node(n));
    }
    Node::Table(m)
}

/// Builds a group of the nested shape.
fn group_node(matcher: &str, hook: Json) -> (r: Json)
    ensures
        r@ == group(matcher@, hook@),
{
    broadcast use {lemma_table_view, lemma_array_view};

    let mut m: Vec<(String, Json)> = Vec::new();
    assert(entries(m@) =~= Seq::empty());
    let list = vec![hook];
    assert(views(list@) =~= seq![hook@]);
    set_key(&mut m, "matcher", text_node(matcher));
    set_key(&mut m, "hooks", Node::Array(list));
    Node::Table(m)
}

/// Builds a hook definition of the flat shape.
fn flat_node(exe: &str, matcher: &str, note: bool) -> (r: Json)
    ensures
        r@ == flat_entry(exe@, matcher@, note),
{
    broadcast use lemma_table_view;

    let mut m: Vec<(String, Json)> = Vec::new();
    assert(entries(m@) =~= Seq::empty());
    let mut command = script_for(exe, "cursor", false);
    command.append(if note {
        VERSION_NOTE
    } else {
        MARKER
    });
    set_key(&mut m, "command", Node::Text(command));
    set_key(&mut m, "timeout", json::number(REPORT_TIMEOUT_SECS));
    if !matcher.is_empty() && !text::same(matcher, "*") {
        set_key(&mut m, "matcher", text_node(matcher));
    }
    Node::Table(m)
}

// ---------------------------------------------------------------------------
// Settings
// ---------------------------------------------------------------------------

/// Takes every hook of ours out of the nested shape, with the groups, events and
/// the `hooks` table that are empty then, and says how many there were.
pub fn strip_sailor_hooks(settings: &mut Json) -> (r: usize)
    ensures
        final(settings)@ == stripped(Shape::Nested, old(settings)@),
        r == clamped(owned_total(Shape::Nested, old(settings)@)),
{
    let mut taken = json::null();
    std::mem::swap(settings, &mut taken);
    let (left, gone) = hooks::strip(taken, Shape::Nested);
    *settings = left;
    gone
}

/// A hook of ours that notes that the schema version is ours too.
pub open spec fn is_noted(hook: JsonTree) -> bool {
    is_owned(hook) && (text_field(hook, "command"@) matches Some(c) && text::ends(c, VERSION_NOTE@))
}

/// The schema version of Cursor's settings was written by an install: one of our
/// hooks says so.
pub open spec fn version_is_ours(t: JsonTree) -> bool {
    exists|j: int|
        0 <= j < entries_under(t, "sessionStart"@).len() && is_noted(
            #[trigger] entries_under(t, "sessionStart"@)[j],
        )
}

/// A settings tree without the schema version that an install writes.
pub open spec fn unversioned(t: JsonTree) -> JsonTree {
    match t {
        Tree::Table(root) => if lookup(root, "version"@) == Some(number_tree(1)) {
            Tree::Table(without_key(root, "version"@))
        } else {
            t
        },
        _ => t,
    }
}

/// Cursor's settings without our hooks, and without the schema version where an
/// install wrote it.
pub open spec fn cursor_stripped(t: JsonTree) -> JsonTree {
    if version_is_ours(t) {
        unversioned(stripped(Shape::Flat, t))
    } else {
        stripped(Shape::Flat, t)
    }
}

fn notes_version(settings: &Json) -> (r: bool)
    ensures
        r == version_is_ours(settings@),
{
    broadcast use lemma_array_view;

    let hooks = match settings.get("hooks") {
        Some(h) => h,
        None => return false,
    };
    match hooks.get("sessionStart") {
        Some(Node::Array(list)) => {
            let ghost all = entries_under(settings@, "sessionStart"@);
            assert(all == views(list@));
            let mut j: usize = 0;
            while j < list.len()
                invariant
                    j <= list@.len(),
                    all == views(list@),
                    all == entries_under(settings@, "sessionStart"@),
                    forall|k: int| 0 <= k < j ==> !is_noted(#[trigger] all[k]),
                decreases list@.len() - j,
            {
                assert(all[j as int] == list@[j as int]@);
                if hooks::is_sailor_hook(&list[j]) {
                    if let Some(c) = list[j].get_str("command") {
                        if text::ends_with(c, VERSION_NOTE) {
                            return true;
                        }
                    }
                }
                j += 1;
            }
            false
        },
        _ => false,
    }
}

fn drop_version(settings: Json) -> (r: Json)
    ensures
        r@ == unversioned(settings@),
{
    broadcast use lemma_table_view;

    match settings {
        Node::Table(root) => {
            let mut root = root;
            let ghost shown = entries(root@);
            if let Some(i) = tree::find_key(&root, "version") {
                assert(shown[i as int] == (root@[i as int].0@, root@[i as int].1@));
                if json::is_number(&root[i].1, 1) {
                    root.remove(i);
                    assert(entries(root@) =~= shown.remove(i as int));
                }
            }
            Node::Table(root)
        },
        other => other,
    }
}

/// Takes every hook of ours out of Cursor's flat shape, with the schema version
/// where an install wrote it, and says how many hooks there were.
pub fn strip_cursor_hooks(settings: &mut Json) -> (r: usize)
    ensures
        final(settings)@ == cursor_stripped(old(settings)@),
        r == clamped(owned_total(Shape::Flat, old(settings)@)),
{
    let noted = notes_version(settings);
    let mut taken = json::null();
    std::mem::swap(settings, &mut taken);
    let (left, gone) = hooks::strip(taken, Shape::Flat);
    *settings = if noted {
        drop_version(left)
    } else {
        left
    };
    gone
}

/// Whether any hook of ours stands in the nested shape.
pub fn has_sailor_hook(settings: &Json) -> (r: bool)
    ensures
        r == (owned_total(Shape::Nested, settings@) > 0),
{
    hooks::has_owned(settings, Shape::Nested)
}

/// Puts an agent's hooks into the nested shape, in place of any of ours that are
/// there, and says how many were written: none where the settings are no table,
/// or their `hooks` are something else.
pub fn install_nested_hooks(
    settings: &mut Json,
    exe: &str,
    agent: &str,
    events: &Vec<(&'static str, &'static str)>,
    timeouts: Timeouts,
    name: Option<&str>,
) -> (r: usize)
    ensures
        final(settings)@ == installed(
            Shape::Nested,
            old(settings)@,
            nested_list(exe@, agent@, pairs(events@), timeouts, text::opt_str(name)),
        ),
        r == if takes_hooks(stripped(Shape::Nested, old(settings)@)) {
            events@.len()
        } else {
            0
        },
{
    let ghost before = settings@;
    strip_sailor_hooks(settings);
    let mut list: Vec<(String, Json)> = Vec::new();
    let mut i: usize = 0;
    let ghost want = nested_list(exe@, agent@, pairs(events@), timeouts, text::opt_str(name));
    while i < events.len()
        invariant
            i <= events@.len(),
            want == nested_list(exe@, agent@, pairs(events@), timeouts, text::opt_str(name)),
            entries(list@) =~= want.take(i as int),
        decreases events@.len() - i,
    {
        let (event, matcher) = events[i];
        assert(pairs(events@)[i as int] == (event@, matcher@));
        let waits = waits_for_a_decision(agent, event);
        let hook = definition_node(exe, agent, waits, timeouts.of(waits), name);
        let ghost done = list@;
        list.push((text::owned(event), group_node(matcher, hook)));
        assert(entries(list@) =~= entries(done).push(want[i as int]));
        i += 1;
    }
    assert(entries(list@) =~= want);
    let mut taken = json::null();
    std::mem::swap(settings, &mut taken);
    let (full, could) = hooks::extend(taken, list);
    *settings = full;
    if could {
        events.len()
    } else {
        0
    }
}

/// Puts the hooks of `claude_code` in and says how many were written.
pub fn install_claude_hooks(settings: &mut Json, exe: &str) -> (r: usize)
    ensures
        final(settings)@ == json_installed(Agent::ClaudeCode, old(settings)@, exe@),
        r == written(Agent::ClaudeCode, old(settings)@),
{
    install_nested_hooks(settings, exe, "claude_code", &claude_hooks(), seconds_timeout(), None)
}

/// A settings tree with the schema version that Cursor expects.
pub open spec fn versioned(t: JsonTree) -> JsonTree {
    match t {
        Tree::Table(root) => if lookup(root, "version"@) is None {
            Tree::Table(with_key(root, "version"@, number_tree(1)))
        } else {
            t
        },
        _ => t,
    }
}

/// A settings tree has no schema version.
pub open spec fn lacks_version(t: JsonTree) -> bool {
    field(t, "version"@) is None
}

/// Cursor's settings with our hooks in them, and with the schema version: where it
/// was missing, our first hook says so. Settings that take no hooks get neither.
pub open spec fn cursor_installed(t: JsonTree, exe: Seq<char>) -> JsonTree {
    let s = cursor_stripped(t);
    if takes_hooks(s) {
        versioned(extended(s, cursor_list(exe, lacks_version(s))))
    } else {
        s
    }
}

/// Puts Cursor's hooks in, with the schema version where it is missing, and says
/// how many were written.
pub fn install_cursor_hooks(settings: &mut Json, exe: &str) -> (r: usize)
    ensures
        final(settings)@ == cursor_installed(old(settings)@, exe@),
        r == if takes_hooks(cursor_stripped(old(settings)@)) {
            cursor_events().len()
        } else {
            0
        },
{
    broadcast use lemma_table_view;

    strip_cursor_hooks(settings);
    let note = settings.get("version").is_none();
    let events = cursor_hooks();
    let mut list: Vec<(String, Json)> = Vec::new();
    let mut i: usize = 0;
    let ghost want = cursor_list(exe@, note);
    while i < events.len()
        invariant
            i <= events@.len(),
            pairs(events@) == cursor_events(),
            want == cursor_list(exe@, note),
            entries(list@) =~= want.take(i as int),
        decreases events@.len() - i,
    {
        let (event, matcher) = events[i];
        assert(pairs(events@)[i as int] == (event@, matcher@));
        let ghost done = list@;
        list.push((text::owned(event), flat_node(exe, matcher, note && i == 0)));
        assert(entries(list@) =~= entries(done).push(want[i as int]));
        i += 1;
    }
    assert(pairs(events@).len() == events@.len());
    assert(entries(list@) =~= want);
    let mut taken = json::null();
    std::mem::swap(settings, &mut taken);
    let ghost before = taken@;
    let (full, could) = hooks::extend(taken, list);
    if !could {
        assert(full@ == before);
        *settings = full;
        return 0;
    }
    *settings = match full {
        Node::Table(root) => {
            let mut root = root;
            if tree::find_key(&root, "version").is_none() {
                set_key(&mut root, "version", json::number(1));
            }
            Node::Table(root)
        },
        other => other,
    };
    events.len()
}

/// An agent's JSON settings with our hooks in them.
pub open spec fn json_installed(agent: Agent, t: JsonTree, exe: Seq<char>) -> JsonTree {
    match agent {
        Agent::ClaudeCode => installed(
            Shape::Nested,
            t,
            nested_list(exe, "claude_code"@, claude_events(), in_seconds(), None),
        ),
        Agent::Codex => installed(
            Shape::Nested,
            t,
            nested_list(exe, "codex"@, codex_events(), in_seconds(), None),
        ),
        Agent::Gemini => installed(
            Shape::Nested,
            t,
            nested_list(
                exe,
                "gemini"@,
                gemini_events(),
                in_millis(GEMINI_REPORT_TIMEOUT_MS),
                Some("sailor-hook"@),
            ),
        ),
        Agent::Qwen => installed(
            Shape::Nested,
            t,
            nested_list(exe, "qwen"@, qwen_events(), in_millis(QWEN_REPORT_TIMEOUT_MS), None),
        ),
        Agent::Cursor => cursor_installed(t, exe),
        _ => t,
    }
}

/// The shape of an agent's JSON settings.
pub open spec fn shape_of(agent: Agent) -> Shape {
    if agent == Agent::Cursor {
        Shape::Flat
    } else {
        Shape::Nested
    }
}

/// The events that an agent's JSON settings subscribe to.
pub open spec fn events_of(agent: Agent) -> Seq<(Seq<char>, Seq<char>)> {
    match agent {
        Agent::ClaudeCode => claude_events(),
        Agent::Codex => codex_events(),
        Agent::Gemini => gemini_events(),
        Agent::Qwen => qwen_events(),
        Agent::Cursor => cursor_events(),
        _ => Seq::empty(),
    }
}

/// An agent's JSON settings without our hooks.
pub open spec fn json_stripped(agent: Agent, t: JsonTree) -> JsonTree {
    if agent == Agent::Cursor {
        cursor_stripped(t)
    } else {
        stripped(Shape::Nested, t)
    }
}

/// How many hooks an install writes.
pub open spec fn written(agent: Agent, t: JsonTree) -> nat {
    if takes_hooks(json_stripped(agent, t)) {
        events_of(agent).len()
    } else {
        0
    }
}

/// An agent with JSON settings.
pub open spec fn uses_json(agent: Agent) -> bool {
    agent == Agent::ClaudeCode || agent == Agent::Codex || agent == Agent::Gemini || agent
        == Agent::Qwen || agent == Agent::Cursor
}

/// Puts an agent's hooks into its JSON settings and says how many were written.
pub fn install_json_hooks(settings: &mut Json, agent: Agent, exe: &str) -> (r: usize)
    requires
        uses_json(agent),
    ensures
        final(settings)@ == json_installed(agent, old(settings)@, exe@),
        r == written(agent, old(settings)@),
{
    match agent {
        Agent::ClaudeCode => install_claude_hooks(settings, exe),
        Agent::Codex => install_nested_hooks(
            settings,
            exe,
            "codex",
            &codex_hooks(),
            seconds_timeout(),
            None,
        ),
        Agent::Gemini => install_nested_hooks(
            settings,
            exe,
            "gemini",
            &gemini_hooks(),
            ms_timeout(GEMINI_REPORT_TIMEOUT_MS),
            Some("sailor-hook"),
        ),
        Agent::Qwen => install_nested_hooks(
            settings,
            exe,
            "qwen",
            &qwen_hooks(),
            ms_timeout(QWEN_REPORT_TIMEOUT_MS),
            None,
        ),
        _ => install_cursor_hooks(settings, exe),
    }
}

// ---------------------------------------------------------------------------
// Files
// ---------------------------------------------------------------------------

/// Settings read from what a file holds: a missing and a blank file are `{}`.
pub open spec fn settings_read(raw: Option<Seq<char>>, path: Seq<char>) -> Result<
    JsonTree,
    Seq<char>,
> {
    match raw {
        Some(s) => if text::trimmed(s).len() == 0 {
            Ok(JsonTree::Table(Seq::empty()))
        } else {
            match json_parsed(s) {
                Ok(t) => Ok(t),
                Err(e) => Err(path + " is not valid JSON: "@ + e),
            }
        },
        None => Ok(JsonTree::Table(Seq::empty())),
    }
}

/// What is written to a settings file: the document and a line feed.
pub open spec fn settings_written(t: JsonTree) -> Result<Seq<char>, Seq<char>> {
    match json_text_pretty(t) {
        Ok(s) => Ok(s + "\n"@),
        Err(e) => Err(e),
    }
}

fn empty_settings() -> (r: Json)
    ensures
        r@ == JsonTree::Table(Seq::empty()),
        well_formed(r@),
{
    broadcast use lemma_table_view;

    let m: Vec<(String, Json)> = Vec::new();
    assert(entries(m@) =~= Seq::empty());
    Node::Table(m)
}

/// Reads settings from what their file holds, if there is one. Missing and blank
/// are the same: a first install works where the agent never ran.
pub fn read_settings(raw: Option<&str>, path: &str) -> (r: Result<Json, String>)
    ensures
        match r {
            Ok(j) => settings_read(text::opt_str(raw), path@) == Ok::<JsonTree, Seq<char>>(j@)
                && well_formed(j@),
            Err(e) => settings_read(text::opt_str(raw), path@) == Err::<JsonTree, Seq<char>>(e@),
        },
{
    match raw {
        Some(s) => {
            if text::trim(s).as_str().is_empty() {
                Ok(empty_settings())
            } else {
                match json::parse(s) {
                    Ok(j) => Ok(j),
                    Err(e) => Err(text::concat3(path, " is not valid JSON: ", e.as_str())),
                }
            }
        },
        None => Ok(empty_settings()),
    }
}

/// The text of a settings file.
pub fn write_settings(settings: &Json) -> (r: Result<String, String>)
    requires
        well_formed(settings@),
    ensures
        match r {
            Ok(s) => settings_written(settings@) == Ok::<Seq<char>, Seq<char>>(s@) && (reads_back(
                settings@,
                levels(),
            ) ==> forall|path: Seq<char>| #[trigger]
                settings_read(Some(s@), path) == Ok::<JsonTree, Seq<char>>(settings@)),
            Err(e) => settings_written(settings@) == Err::<Seq<char>, Seq<char>>(e@),
        },
{
    match json::render_pretty(settings) {
        Ok(s) => {
            let out = text::concat2(s.as_str(), "\n");
            proof {
                assert(out@[0] == s@[0]);
                text::lemma_trimmed_not_blank(out@);
            }
            Ok(out)
        },
        Err(e) => Err(e),
    }
}

/// What is to be done to a file. `backup` is the extension under which what was
/// there is kept first: the file belongs to the user, and a bad merge has to be
/// recoverable.
#[derive(Debug, PartialEq)]
pub enum FileStep {
    Leave,
    Write { text: String, backup: Option<&'static str> },
    Remove,
}

/// A step as the contracts speak of it.
pub enum StepView {
    Leave,
    Write { text: Seq<char>, backup: Option<Seq<char>> },
    Remove,
}

impl View for FileStep {
    type V = StepView;

    open spec fn view(&self) -> StepView {
        match *self {
            FileStep::Leave => StepView::Leave,
            FileStep::Write { text, backup } => StepView::Write {
                text: text@,
                backup: text::opt_str(backup),
            },
            FileStep::Remove => StepView::Remove,
        }
    }
}

/// What a command does for one agent: a step on its file, and lines to print once
/// that is done.
#[derive(Debug, PartialEq)]
pub struct Plan {
    pub step: FileStep,
    pub lines: Vec<String>,
}

/// A plan as the contracts speak of it.
pub struct PlanView {
    pub step: StepView,
    pub lines: Seq<Seq<char>>,
}

impl View for Plan {
    type V = PlanView;

    open spec fn view(&self) -> PlanView {
        PlanView { step: self.step@, lines: text::texts(self.lines@) }
    }
}

/// The view of a plan or of the message of why there is none.
pub open spec fn plan_view(r: Result<Plan, String>) -> Result<PlanView, Seq<char>> {
    match r {
        Ok(p) => Ok(p@),
        Err(e) => Err(e@),
    }
}

/// The ending of a counted noun.
pub open spec fn plural(n: nat) -> Seq<char> {
    if n == 1 {
        ""@
    } else {
        "s"@
    }
}

/// The ending of a counted noun.
pub fn plural_ending(n: usize) -> (r: &'static str)
    ensures
        r@ == plural(n as nat),
{
    if n == 1 {
        ""
    } else {
        "s"
    }
}

/// The line that sums an install up.
pub open spec fn installed_line(agent: Seq<char>, n: nat, path: Seq<char>) -> Seq<char> {
    agent + ": installed "@ + decimal(n) + " hook"@ + plural(n) + " into "@ + path
}

/// The line that sums an install of a file of ours up.
pub open spec fn wrote_line(agent: Seq<char>, path: Seq<char>, n: nat, noun: Seq<char>) -> Seq<
    char,
> {
    agent + ": wrote "@ + path + " ("@ + decimal(n) + noun + plural(n) + ")"@
}

fn installed_text(agent: &str, n: usize, path: &str) -> (r: String)
    ensures
        r@ == installed_line(agent@, n as nat, path@),
{
    let mut out = text::concat2(agent, ": installed ");
    out.append(text::number(n as u64).as_str());
    out.append(" hook");
    out.append(plural_ending(n));
    out.append(" into ");
    out.append(path);
    out
}

fn wrote_text(agent: &str, path: &str, n: u64, noun: &str) -> (r: String)
    requires
        n <= usize::MAX,
    ensures
        r@ == wrote_line(agent@, path@, n as nat, noun@),
{
    let mut out = text::concat3(agent, ": wrote ", path);
    out.append(" (");
    out.append(text::number(n).as_str());
    out.append(noun);
    out.append(plural_ending(n as usize));
    out.append(")");
    out
}

/// What the user has to do before an agent runs its new hooks.
pub open spec fn notes(agent: Agent) -> Seq<Seq<char>> {
    match agent {
        Agent::Codex => seq![
            "  note: run `codex` once and trust the sailor-hook entries via `/hooks`"@,
        ],
        Agent::OpenCode => seq!["  note: restart opencode to load the plugin"@],
        Agent::Pi => seq!["  note: run `/reload` in pi (or start a new session) to load it"@],
        _ => Seq::empty(),
    }
}

/// The write of a settings file, or why it cannot be written.
pub open spec fn rewrite(
    text: Result<Seq<char>, Seq<char>>,
    backup: Seq<char>,
    lines: Seq<Seq<char>>,
) -> Result<PlanView, Seq<char>> {
    match text {
        Ok(s) => Ok(
            PlanView { step: StepView::Write { text: s, backup: Some(backup) }, lines },
        ),
        Err(e) => Err(e),
    }
}

/// What an install does for a target, from what its file holds.
pub open spec fn install_plan(t: TargetView, raw: Option<Seq<char>>, exe: Seq<char>) -> Result<
    PlanView,
    Seq<char>,
> {
    let name = t.agent.name();
    match t.agent {
        Agent::Kimi => match kimi::toml_read(raw, t.path) {
            Ok(d) => rewrite(
                kimi::toml_written(kimi::kimi_installed(d, exe)),
                "toml.bak"@,
                seq![
                    installed_line(
                        name,
                        if kimi::takes_rules(kimi::kimi_stripped(d)) {
                            kimi_events().len()
                        } else {
                            0
                        },
                        t.path,
                    ),
                ],
            ),
            Err(e) => Err(e),
        },
        Agent::OpenCode => Ok(
            PlanView {
                step: if opencode::is_current(raw) {
                    StepView::Leave
                } else {
                    StepView::Write { text: opencode::plugin_text(), backup: None }
                },
                lines: seq![
                    wrote_line(name, t.path, opencode::PLUGIN_HOOKS as nat, " hook"@),
                ] + notes(t.agent),
            },
        ),
        Agent::Pi => Ok(
            PlanView {
                step: if pi::is_current(raw) {
                    StepView::Leave
                } else {
                    StepView::Write { text: pi::extension_text(), backup: None }
                },
                lines: seq![
                    wrote_line(name, t.path, pi::EXTENSION_KINDS as nat, " event kind"@),
                ] + notes(t.agent),
            },
        ),
        _ => match settings_read(raw, t.path) {
            Ok(j) => rewrite(
                settings_written(json_installed(t.agent, j, exe)),
                "json.bak"@,
                seq![installed_line(name, written(t.agent, j), t.path)] + notes(t.agent),
            ),
            Err(e) => Err(e),
        },
    }
}

/// Settings that an install writes are read as they were meant, where they can be
/// read back at all.
pub open spec fn is_read_back(
    t: TargetView,
    raw: Option<Seq<char>>,
    exe: Seq<char>,
    plan: Result<PlanView, Seq<char>>,
) -> bool {
    match (plan, settings_read(raw, t.path)) {
        (Ok(PlanView { step: StepView::Write { text, .. }, .. }), Ok(before)) => {
            let after = json_installed(t.agent, before, exe);
            uses_json(t.agent) && reads_back(after, levels()) ==> settings_read(Some(text), t.path)
                == Ok::<JsonTree, Seq<char>>(after)
        },
        _ => true,
    }
}

pub(crate) fn push_line(lines: &mut Vec<String>, line: String)
    ensures
        text::texts(final(lines)@) == text::texts(old(lines)@).push(line@),
{
    let ghost before = lines@;
    lines.push(line);
    assert(text::texts(lines@) =~= text::texts(before).push(line@));
}

fn push_notes(lines: &mut Vec<String>, agent: Agent)
    ensures
        text::texts(final(lines)@) == text::texts(old(lines)@) + notes(agent),
{
    let ghost before = text::texts(lines@);
    match agent {
        Agent::Codex => {
            push_line(
                lines,
                text::owned(
                    "  note: run `codex` once and trust the sailor-hook entries via `/hooks`",
                ),
            );
        },
        Agent::OpenCode => {
            push_line(lines, text::owned("  note: restart opencode to load the plugin"));
        },
        Agent::Pi => {
            push_line(
                lines,
                text::owned("  note: run `/reload` in pi (or start a new session) to load it"),
            );
        },
        _ => {},
    }
    assert(text::texts(lines@) =~= before + notes(agent));
}

/// Plans the install for one target: `raw` is what its file holds, if there is
/// one, and `exe` the path of the hook program.
pub fn run(target: &Target, raw: Option<&str>, exe: &str) -> (r: Result<Plan, String>)
    ensures
        plan_view(r) == install_plan(target@, text::opt_str(raw), exe@),
        is_read_back(target@, text::opt_str(raw), exe@, plan_view(r)),
{
    let agent = target.agent;
    let path = target.path.as_str();
    let mut lines: Vec<String> = Vec::new();
    assert(text::texts(lines@) =~= Seq::empty());
    match agent {
        Agent::Kimi => {
            let mut value = match kimi::read_toml(raw, path) {
                Ok(d) => d,
                Err(e) => return Err(e),
            };
            let ghost before = value@;
            let added = kimi::install_hooks(&mut value, exe);
            proof {
                kimi::law_kimi_round_trip(before, exe@, ""@);
            }
            let text = match kimi::write_toml(&value) {
                Ok(s) => s,
                Err(e) => return Err(e),
            };
            push_line(&mut lines, installed_text(agent.id(), added, path));
            let ghost want = install_plan(target@, text::opt_str(raw), exe@);
            assert(text::texts(lines@) =~= want->Ok_0.lines);
            Ok(Plan { step: FileStep::Write { text, backup: Some("toml.bak") }, lines })
        },
        Agent::OpenCode => {
            let step = match opencode::install_plugin(raw) {
                Some(text) => FileStep::Write { text, backup: None },
                None => FileStep::Leave,
            };
            push_line(
                &mut lines,
                wrote_text(agent.id(), path, opencode::PLUGIN_HOOKS, " hook"),
            );
            push_notes(&mut lines, agent);
            let ghost want = install_plan(target@, text::opt_str(raw), exe@);
            assert(text::texts(lines@) =~= want->Ok_0.lines);
            Ok(Plan { step, lines })
        },
        Agent::Pi => {
            let step = match pi::install_extension(raw) {
                Some(text) => FileStep::Write { text, backup: None },
                None => FileStep::Leave,
            };
            push_line(
                &mut lines,
                wrote_text(agent.id(), path, pi::EXTENSION_KINDS, " event kind"),
            );
            push_notes(&mut lines, agent);
            let ghost want = install_plan(target@, text::opt_str(raw), exe@);
            assert(text::texts(lines@) =~= want->Ok_0.lines);
            Ok(Plan { step, lines })
        },
        _ => {
            let mut settings = match read_settings(raw, path) {
                Ok(j) => j,
                Err(e) => return Err(e),
            };
            let ghost before = settings@;
            let added = install_json_hooks(&mut settings, agent, exe);
            proof {
                law_json_install_keeps(agent, before, exe@, "hooks"@);
            }
            let text = match write_settings(&settings) {
                Ok(s) => s,
                Err(e) => return Err(e),
            };
            push_line(&mut lines, installed_text(agent.id(), added, path));
            push_notes(&mut lines, agent);
            let ghost want = install_plan(target@, text::opt_str(raw), exe@);
            assert(text::texts(lines@) =~= want->Ok_0.lines);
            Ok(Plan { step: FileStep::Write { text, backup: Some("json.bak") }, lines })
        },
    }
}

/// Our hooks are found in what an agent's file holds.
pub open spec fn found(agent: Agent, raw: Option<Seq<char>>) -> bool {
    match agent {
        Agent::Kimi => match kimi::toml_read(raw, ""@) {
            Ok(t) => kimi::owned_rules(t) > 0,
            Err(_) => false,
        },
        Agent::OpenCode => opencode::is_ours(raw),
        Agent::Pi => pi::is_ours(raw),
        _ => match settings_read(raw, ""@) {
            Ok(t) => owned_total(shape_of(agent), t) > 0,
            Err(_) => false,
        },
    }
}

/// Whether our hooks are in an agent's file: `raw` is what it holds, if it can be
/// read.
pub fn installed_for_agent(agent: Agent, raw: Option<&str>) -> (r: bool)
    ensures
        r == found(agent, text::opt_str(raw)),
{
    match agent {
        Agent::Kimi => kimi::is_installed(raw),
        Agent::OpenCode => opencode::is_installed(raw),
        Agent::Pi => pi::is_installed(raw),
        Agent::Cursor => match read_settings(raw, "") {
            Ok(s) => hooks::has_owned(&s, Shape::Flat),
            Err(_) => false,
        },
        _ => match read_settings(raw, "") {
            Ok(s) => has_sailor_hook(&s),
            Err(_) => false,
        },
    }
}

/// The names of those agents of a list in whose file our hooks are found.
pub open spec fn found_in(files: Seq<(Agent, Option<String>)>) -> Seq<Seq<char>>
    decreases files.len(),
{
    if files.len() == 0 {
        Seq::empty()
    } else {
        let rest = found_in(files.drop_last());
        if found(files.last().0, text::opt_text(files.last().1)) {
            rest.push(files.last().0.name())
        } else {
            rest
        }
    }
}

/// Which agents have our hooks, from what the file of each holds.
pub fn installed_agents(files: &Vec<(Agent, Option<String>)>) -> (r: Vec<String>)
    ensures
        text::texts(r@) == found_in(files@),
{
    let mut out: Vec<String> = Vec::new();
    assert(text::texts(out@) =~= found_in(files@.take(0)));
    let mut i: usize = 0;
    while i < files.len()
        invariant
            i <= files@.len(),
            text::texts(out@) == found_in(files@.take(i as int)),
        decreases files@.len() - i,
    {
        proof {
            assert(files@.take(i + 1).drop_last() =~= files@.take(i as int));
            assert(files@.take(i + 1).last() == files@[i as int]);
        }
        let agent = files[i].0;
        let raw = match &files[i].1 {
            Some(s) => Some(s.as_str()),
            None => None,
        };
        if installed_for_agent(agent, raw) {
            push_line(&mut out, text::owned(agent.id()));
        }
        i += 1;
    }
    assert(files@.take(files@.len() as int) =~= files@);
    out
}

// ---------------------------------------------------------------------------
// Laws
// ---------------------------------------------------------------------------

/// The entries that an agent's JSON settings get.
pub open spec fn list_of(agent: Agent, t: JsonTree, exe: Seq<char>) -> Seq<(Seq<char>, JsonTree)> {
    match agent {
        Agent::ClaudeCode => nested_list(
            exe,
            "claude_code"@,
            claude_events(),
            in_seconds(),
            None,
        ),
        Agent::Codex => nested_list(exe, "codex"@, codex_events(), in_seconds(), None),
        Agent::Gemini => nested_list(
            exe,
            "gemini"@,
            gemini_events(),
            in_millis(GEMINI_REPORT_TIMEOUT_MS),
            Some("sailor-hook"@),
        ),
        Agent::Qwen => nested_list(
            exe,
            "qwen"@,
            qwen_events(),
            in_millis(QWEN_REPORT_TIMEOUT_MS),
            None,
        ),
        Agent::Cursor => cursor_list(exe, lacks_version(cursor_stripped(t))),
        _ => Seq::empty(),
    }
}

proof fn lemma_list_of(agent: Agent, t: JsonTree, exe: Seq<char>)
    ensures
        all_ours(shape_of(agent), list_of(agent, t, exe)),
        list_of(agent, t, exe).len() == events_of(agent).len(),
        forall|i: int|
            0 <= i < list_of(agent, t, exe).len() ==> well_formed(
                (#[trigger] list_of(agent, t, exe)[i]).1,
            ),
{
    lemma_nested_list(exe, "claude_code"@, claude_events(), in_seconds(), None);
    lemma_nested_list(exe, "codex"@, codex_events(), in_seconds(), None);
    lemma_nested_list(
        exe,
        "gemini"@,
        gemini_events(),
        in_millis(GEMINI_REPORT_TIMEOUT_MS),
        Some("sailor-hook"@),
    );
    lemma_nested_list(exe, "qwen"@, qwen_events(), in_millis(QWEN_REPORT_TIMEOUT_MS), None);
    lemma_cursor_list(exe, lacks_version(cursor_stripped(t)));
}

pub proof fn lemma_versioned(t: JsonTree)
    requires
        well_formed(t),
    ensures
        well_formed(versioned(t)),
        versioned(stripped(Shape::Flat, t)) == stripped(Shape::Flat, versioned(t)),
        field(versioned(t), "hooks"@) == field(t, "hooks"@),
        takes_hooks(versioned(t)) == takes_hooks(t),
        forall|k: Seq<char>|
            k != "version"@ ==> #[trigger] field(versioned(t), k) == field(t, k),
        field(t, "version"@) is Some ==> versioned(t) == t,
        lacks_version(t) ==> unversioned(versioned(t)) == t,
{
    lemma_key_names();
    lemma_well_formed_sorted(t);
    if let Tree::Table(root) = t {
        lemma_with_key(root, "version"@, number_tree(1));
        let r1 = with_key(root, "version"@, number_tree(1));
        lemma_without_key(r1, "version"@);
        if lookup(root, "version"@) is None {
            let back = without_key(r1, "version"@);
            assert forall|k: Seq<char>| lookup(back, k) == lookup(root, k) by {
                if k != "version"@ {
                    assert(lookup(back, k) == lookup(r1, k));
                }
            }
            lemma_sorted_extensional(back, root);
        }
        if lookup(root, "version"@) is None {
            let one = number_tree(1);
            lemma_with_key(root, "version"@, one);
            lemma_well_formed_with_key(root, "version"@, one);
            let r2 = with_key(root, "version"@, one);
            if let Some(Tree::Table(h)) = lookup(root, "hooks"@) {
                let n = Tree::Table(hooks::kept_events(Shape::Flat, h));
                lemma_with_key(root, "hooks"@, n);
                lemma_with_key(r2, "hooks"@, n);
                lemma_without_key(root, "hooks"@);
                lemma_without_key(r2, "hooks"@);
                let a = with_key(root, "hooks"@, n);
                let b = tree::without_key(root, "hooks"@);
                lemma_with_key(a, "version"@, one);
                lemma_with_key(b, "version"@, one);
                let a2 = with_key(a, "version"@, one);
                let b2 = with_key(b, "version"@, one);
                let a3 = with_key(r2, "hooks"@, n);
                let b3 = tree::without_key(r2, "hooks"@);
                assert forall|k: Seq<char>|
                    lookup(a2, k) == lookup(a3, k) && lookup(b2, k) == lookup(b3, k) by {
                    if k == "hooks"@ {
                        assert(lookup(a2, k) == lookup(a, k));
                        assert(lookup(b2, k) == lookup(b, k));
                    } else if k == "version"@ {
                        assert(lookup(a3, k) == lookup(r2, k));
                        assert(lookup(b3, k) == lookup(r2, k));
                    } else {
                        assert(lookup(a2, k) == lookup(root, k));
                        assert(lookup(b2, k) == lookup(root, k));
                        assert(lookup(r2, k) == lookup(root, k));
                    }
                }
                lemma_sorted_extensional(a2, a3);
                lemma_sorted_extensional(b2, b3);
            }
        } else {
            law_other_keys_stay(Shape::Flat, t, Seq::empty(), "version"@);
        }
    }
}

proof fn lemma_unversioned(t: JsonTree)
    requires
        well_formed(t),
    ensures
        well_formed(unversioned(t)),
        forall|k: Seq<char>|
            k != "version"@ ==> #[trigger] field(unversioned(t), k) == field(t, k),
        field(t, "version"@) == Some(number_tree(1)) ==> lacks_version(unversioned(t)),
        field(t, "version"@) != Some(number_tree(1)) ==> unversioned(t) == t,
        (unversioned(t) is Table) == (t is Table),
        takes_hooks(unversioned(t)) == takes_hooks(t),
{
    lemma_key_names();
    lemma_well_formed_sorted(t);
    if let Tree::Table(root) = t {
        lemma_without_key(root, "version"@);
        lemma_well_formed_without_key(root, "version"@);
    }
}

/// Settings in which nothing is ours have no schema version of ours.
proof fn lemma_nothing_noted(t: JsonTree)
    requires
        owned_total(Shape::Flat, t) == 0,
    ensures
        !version_is_ours(t),
        cursor_stripped(t) == stripped(Shape::Flat, t),
{
    if version_is_ours(t) {
        let all = entries_under(t, "sessionStart"@);
        let j = choose|j: int| 0 <= j < all.len() && is_noted(#[trigger] all[j]);
        lemma_no_owned_under(t, "sessionStart"@, j);
    }
}

/// What is left of Cursor's settings.
pub proof fn lemma_cursor_stripped(t: JsonTree, list: Seq<(Seq<char>, JsonTree)>)
    requires
        well_formed(t),
    ensures
        well_formed(cursor_stripped(t)),
        stripped(Shape::Flat, cursor_stripped(t)) == cursor_stripped(t),
        owned_total(Shape::Flat, cursor_stripped(t)) == 0,
        cursor_stripped(cursor_stripped(t)) == cursor_stripped(t),
        takes_hooks(cursor_stripped(t)) == takes_hooks(t),
        has_room(t, list) ==> has_room(cursor_stripped(t), list),
        forall|k: Seq<char>|
            k != "hooks"@ && k != "version"@ ==> #[trigger] field(cursor_stripped(t), k) == field(
                t,
                k,
            ),
        field(cursor_stripped(t), "version"@) == field(t, "version"@) || (lacks_version(
            cursor_stripped(t),
        ) && field(t, "version"@) == Some(number_tree(1))),
        !takes_hooks(t) ==> cursor_stripped(t) == t,
{
    let s = stripped(Shape::Flat, t);
    let c = cursor_stripped(t);
    lemma_key_names();
    lemma_well_formed_sorted(t);
    law_well_formed_stays(Shape::Flat, t, Seq::empty());
    law_install_counts(Shape::Flat, t, Seq::empty());
    lemma_stripped_is_clean(Shape::Flat, t, list);
    lemma_unversioned(s);
    lemma_well_formed_sorted(c);
    assert(field(c, "hooks"@) == field(s, "hooks"@));
    lemma_clean_stays(Shape::Flat, c);
    lemma_nothing_noted(c);
    assert forall|k: Seq<char>| k != "hooks"@ && k != "version"@ implies #[trigger] field(c, k)
        == field(t, k) by {
        law_other_keys_stay(Shape::Flat, t, Seq::empty(), k);
    }
    law_other_keys_stay(Shape::Flat, t, Seq::empty(), "version"@);
    if !takes_hooks(t) {
        assert(owned_total(Shape::Flat, t) == 0);
        lemma_nothing_noted(t);
    }
}

/// Cursor's settings after an install, where they take hooks: the generic install
/// on what is left of them, with the schema version, which is noted where it was
/// missing.
pub proof fn lemma_cursor_installed(t: JsonTree, exe: Seq<char>)
    requires
        well_formed(t),
        takes_hooks(t),
    ensures
        ({
            let s = cursor_stripped(t);
            let list = cursor_list(exe, lacks_version(s));
            let x = installed(Shape::Flat, s, list);
            let w = cursor_installed(t, exe);
            &&& w == versioned(x)
            &&& well_formed(x)
            &&& well_formed(w)
            &&& takes_hooks(x)
            &&& field(x, "version"@) == field(s, "version"@)
            &&& field(w, "hooks"@) == field(x, "hooks"@)
            &&& version_is_ours(w) == lacks_version(s)
            &&& stripped(Shape::Flat, w) == versioned(stripped(Shape::Flat, x))
            &&& field(stripped(Shape::Flat, x), "version"@) == field(s, "version"@)
            &&& owned_total(Shape::Flat, w) == cursor_events().len()
        }),
{
    let s = cursor_stripped(t);
    let note = lacks_version(s);
    let list = cursor_list(exe, note);
    let x = installed(Shape::Flat, s, list);
    let w = cursor_installed(t, exe);
    let event = "sessionStart"@;
    lemma_key_names();
    lemma_cursor_stripped(t, list);
    lemma_cursor_list(exe, note);
    lemma_well_formed_sorted(s);
    law_well_formed_stays(Shape::Flat, s, list);
    law_install_counts(Shape::Flat, s, list);
    lemma_well_formed_sorted(x);
    law_install_counts(Shape::Flat, x, list);
    law_other_keys_stay(Shape::Flat, s, list, "version"@);
    law_other_keys_stay(Shape::Flat, x, list, "version"@);
    lemma_versioned(x);
    lemma_extended_first(s, list);
    let before = entries_under(s, event);
    let after = entries_under(w, event);
    assert(after == before.push(list[0].1));
    assert(after[before.len() as int] == list[0].1);
    if version_is_ours(w) && !note {
        let j = choose|j: int| 0 <= j < after.len() && is_noted(#[trigger] after[j]);
        assert(j < before.len());
        assert(after[j] == before[j]);
        lemma_no_owned_under(s, event, j);
    }
}

/// An uninstall keeps settings well-formed, and takes everything of ours out.
pub proof fn law_json_strip_is_complete(agent: Agent, t: JsonTree)
    requires
        uses_json(agent),
        well_formed(t),
    ensures
        well_formed(json_stripped(agent, t)),
        owned_total(shape_of(agent), json_stripped(agent, t)) == 0,
        json_stripped(agent, json_stripped(agent, t)) == json_stripped(agent, t),
{
    lemma_well_formed_sorted(t);
    lemma_cursor_stripped(t, Seq::empty());
    law_well_formed_stays(shape_of(agent), t, Seq::empty());
    law_strip_is_complete(shape_of(agent), t);
}

/// An install keeps settings well-formed, writes every hook of the agent once,
/// and touches no key but `hooks` (and, for Cursor, a missing `version`).
pub proof fn law_json_install_keeps(agent: Agent, t: JsonTree, exe: Seq<char>, key: Seq<char>)
    requires
        uses_json(agent),
        well_formed(t),
    ensures
        well_formed(json_installed(agent, t, exe)),
        takes_hooks(t) ==> owned_total(shape_of(agent), json_installed(agent, t, exe))
            == events_of(agent).len() && written(agent, t) == events_of(agent).len(),
        !takes_hooks(t) ==> json_installed(agent, t, exe) == t && written(agent, t) == 0,
        key != "hooks"@ && !(agent == Agent::Cursor && key == "version"@) ==> field(
            json_installed(agent, t, exe),
            key,
        ) == field(t, key),
        agent == Agent::Cursor && field(t, "version"@) is Some ==> field(
            json_installed(agent, t, exe),
            "version"@,
        ) == field(t, "version"@),
{
    let list = list_of(agent, t, exe);
    lemma_key_names();
    lemma_list_of(agent, t, exe);
    lemma_well_formed_sorted(t);
    if agent == Agent::Cursor {
        let s = cursor_stripped(t);
        lemma_cursor_stripped(t, list);
        if takes_hooks(t) {
            let x = installed(Shape::Flat, s, list);
            lemma_cursor_installed(t, exe);
            lemma_versioned(x);
            lemma_well_formed_sorted(s);
            if key != "hooks"@ {
                law_other_keys_stay(Shape::Flat, s, list, key);
            }
            if lacks_version(s) {
                assert(x is Table);
                lemma_with_key(x->Table_0, "version"@, number_tree(1));
            }
        }
    } else {
        law_well_formed_stays(shape_of(agent), t, list);
        law_install_counts(shape_of(agent), t, list);
        if key != "hooks"@ {
            law_other_keys_stay(shape_of(agent), t, list, key);
        }
    }
}

/// Installing an agent's hooks twice is installing them once.
pub proof fn law_json_install_is_idempotent(agent: Agent, t: JsonTree, exe: Seq<char>)
    requires
        uses_json(agent),
        well_formed(t),
    ensures
        json_installed(agent, json_installed(agent, t, exe), exe) == json_installed(agent, t, exe),
{
    let list = list_of(agent, t, exe);
    lemma_list_of(agent, t, exe);
    lemma_well_formed_sorted(t);
    if agent == Agent::Cursor {
        let s = cursor_stripped(t);
        lemma_cursor_stripped(t, list);
        if takes_hooks(t) {
            let x = installed(Shape::Flat, s, list);
            let y = stripped(Shape::Flat, x);
            let w = cursor_installed(t, exe);
            lemma_cursor_installed(t, exe);
            lemma_well_formed_sorted(s);
            lemma_well_formed_sorted(x);
            law_well_formed_stays(Shape::Flat, x, list);
            law_install_counts(Shape::Flat, x, list);
            law_install_is_idempotent(Shape::Flat, s, list);
            lemma_versioned(y);
            lemma_versioned(x);
            assert(cursor_stripped(w) == y);
            assert(extended(y, list) == x);
        }
    } else {
        law_install_is_idempotent(shape_of(agent), t, list);
    }
}

/// Uninstalling an agent's hooks leaves its settings as an uninstall would have
/// left them before the install. Settings with nothing of ours, and nothing empty
/// under `hooks`, come back as they were. The one exception is a subscribed event
/// whose value was no array, which the install replaces.
pub proof fn law_json_uninstall_undoes_install(agent: Agent, t: JsonTree, exe: Seq<char>)
    requires
        uses_json(agent),
        well_formed(t),
        has_room(t, list_of(agent, t, exe)),
    ensures
        json_stripped(agent, json_installed(agent, t, exe)) == json_stripped(agent, t),
        owned_total(shape_of(agent), json_stripped(agent, t)) == 0,
        owned_total(shape_of(agent), t) == 0 && is_tidy(shape_of(agent), t) ==> json_stripped(
            agent,
            json_installed(agent, t, exe),
        ) == t,
{
    let list = list_of(agent, t, exe);
    lemma_list_of(agent, t, exe);
    lemma_well_formed_sorted(t);
    law_json_strip_is_complete(agent, t);
    if owned_total(shape_of(agent), t) == 0 && is_tidy(shape_of(agent), t) {
        law_foreign_settings_come_back(shape_of(agent), t, list);
        if agent == Agent::Cursor {
            lemma_nothing_noted(t);
        }
    }
    if agent == Agent::Cursor {
        let s = cursor_stripped(t);
        lemma_cursor_stripped(t, list);
        if takes_hooks(t) {
            let x = installed(Shape::Flat, s, list);
            lemma_cursor_installed(t, exe);
            lemma_well_formed_sorted(s);
            law_uninstall_undoes_install(Shape::Flat, s, list);
            lemma_versioned(s);
        }
    } else {
        law_uninstall_undoes_install(shape_of(agent), t, list);
    }
}

} // verus!
