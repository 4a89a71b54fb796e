//! Takes our hook entries out of the agents' files. Only what carries the marker
//! is ever removed, so a file shared with the user's own hooks and with other
//! tools comes back as it was.

use crate::commands::install::{
    events_of, json_installed, json_stripped, kimi, law_json_install_keeps,
    law_json_strip_is_complete, law_json_uninstall_undoes_install, list_of, opencode, pi,
    plan_view, plural, plural_ending, push_line, read_settings, rewrite, settings_read,
    settings_written, shape_of, strip_cursor_hooks, strip_sailor_hooks, uses_json, write_settings,
    FileStep, Plan, PlanView, StepView,
};
use crate::config::{Agent, Target, TargetView};
use crate::hook_laws::{has_room, is_tidy};
use crate::hooks::{clamped, owned_total, takes_hooks};
use crate::json::JsonTree;
use crate::text;
use crate::text::decimal;
use crate::tree::well_formed;
use vstd::prelude::*;

verus! {

/// The plan where there is nothing to remove.
pub open spec fn nothing(agent: Agent) -> PlanView {
    PlanView { step: StepView::Leave, lines: seq![agent.name() + ": nothing installed"@] }
}

/// The line that sums an uninstall up.
pub open spec fn removed_line(agent: Seq<char>, n: nat, path: Seq<char>) -> Seq<char> {
    agent + ": removed "@ + decimal(n) + " hook"@ + plural(n) + " from "@ + path
}

/// What an uninstall does for a target, from what its file holds.
pub open spec fn uninstall_plan(t: TargetView, raw: Option<Seq<char>>) -> Result<
    PlanView,
    Seq<char>,
> {
    let name = t.agent.name();
    if raw is None {
        Ok(nothing(t.agent))
    } else {
        match t.agent {
            Agent::Kimi => match kimi::toml_read(raw, t.path) {
                Ok(d) => if kimi::owned_rules(d) == 0 {
                    Ok(nothing(t.agent))
                } else {
                    rewrite(
                        kimi::toml_written(kimi::kimi_stripped(d)),
                        "toml.bak"@,
                        seq![removed_line(name, kimi::owned_rules(d), t.path)],
                    )
                },
                Err(e) => Err(e),
            },
            Agent::OpenCode | Agent::Pi => if (t.agent == Agent::OpenCode && opencode::is_ours(raw))
                || (t.agent == Agent::Pi && pi::is_ours(raw)) {
                Ok(PlanView { step: StepView::Remove, lines: seq![name + ": removed "@ + t.path] })
            } else {
                Ok(nothing(t.agent))
            },
            _ => match settings_read(raw, t.path) {
                Ok(j) => {
                    let n = clamped(owned_total(shape_of(t.agent), j)) as nat;
                    if n == 0 {
                        Ok(nothing(t.agent))
                    } else {
                        rewrite(
                            settings_written(json_stripped(t.agent, j)),
                            "json.bak"@,
                            seq![removed_line(name, n, t.path)],
                        )
                    }
                },
                Err(e) => Err(e),
            },
        }
    }
}

fn one_line(line: String) -> (r: Vec<String>)
    ensures
        text::texts(r@) == seq![line@],
{
    let mut lines: Vec<String> = Vec::new();
    assert(text::texts(lines@) =~= Seq::empty());
    push_line(&mut lines, line);
    assert(text::texts(lines@) =~= seq![line@]);
    lines
}

fn nothing_plan(agent: Agent) -> (r: Plan)
    ensures
        r@ == nothing(agent),
{
    Plan {
        step: FileStep::Leave,
        lines: one_line(text::concat2(agent.id(), ": nothing installed")),
    }
}

fn removed_text(agent: &str, n: usize, path: &str) -> (r: String)
    ensures
        r@ == removed_line(agent@, n as nat, path@),
{
    let mut out = text::concat2(agent, ": removed ");
    out.append(text::number(n as u64).as_str());
    out.append(" hook");
    out.append(plural_ending(n));
    out.append(" from ");
    out.append(path);
    out
}

/// Plans the uninstall for one target: `raw` is what its file holds, if there is
/// one.
pub fn run(target: &Target, raw: Option<&str>) -> (r: Result<Plan, String>)
    ensures
        plan_view(r) == uninstall_plan(target@, text::opt_str(raw)),
{
    let agent = target.agent;
    let path = target.path.as_str();
    if raw.is_none() {
        return Ok(nothing_plan(agent));
    }
    match agent {
        Agent::Kimi => {
            let mut value = match kimi::read_toml(raw, path) {
                Ok(d) => d,
                Err(e) => return Err(e),
            };
            let ghost before = value@;
            let removed = kimi::strip_hooks(&mut value);
            if removed == 0 {
                return Ok(nothing_plan(agent));
            }
            proof {
                kimi::law_kimi_round_trip(before, ""@, ""@);
            }
            match kimi::write_toml(&value) {
                Ok(text) => Ok(
                    Plan {
                        step: FileStep::Write { text, backup: Some("toml.bak") },
                        lines: one_line(removed_text(agent.id(), removed, path)),
                    },
                ),
                Err(e) => Err(e),
            }
        },
        Agent::OpenCode | Agent::Pi => {
            let ours = if agent == Agent::Pi {
                pi::is_installed(raw)
            } else {
                opencode::is_installed(raw)
            };
            if ours {
                Ok(
                    Plan {
                        step: FileStep::Remove,
                        lines: one_line(text::concat3(agent.id(), ": removed ", path)),
                    },
                )
            } else {
                Ok(nothing_plan(agent))
            }
        },
        _ => {
            let mut settings = match read_settings(raw, path) {
                Ok(j) => j,
                Err(e) => return Err(e),
            };
            let ghost before = settings@;
            let removed = if agent == Agent::Cursor {
                strip_cursor_hooks(&mut settings)
            } else {
                strip_sailor_hooks(&mut settings)
            };
            if removed == 0 {
                return Ok(nothing_plan(agent));
            }
            proof {
                law_json_strip_is_complete(agent, before);
            }
            match write_settings(&settings) {
                Ok(text) => Ok(
                    Plan {
                        step: FileStep::Write { text, backup: Some("json.bak") },
                        lines: one_line(removed_text(agent.id(), removed, path)),
                    },
                ),
                Err(e) => Err(e),
            }
        },
    }
}

/// An uninstall of settings that an install wrote, and that are read as they were
/// meant, writes what an uninstall alone would have left, and says that each of our
/// hooks was removed. Settings with nothing of ours, and nothing empty under
/// `hooks`, are written as they were.
pub proof fn law_uninstall_follows_install(
    t: TargetView,
    raw: Option<Seq<char>>,
    exe: Seq<char>,
    before: JsonTree,
    written: Seq<char>,
)
    requires
        uses_json(t.agent),
        well_formed(before),
        takes_hooks(before),
        has_room(before, list_of(t.agent, before, exe)),
    ensures
        settings_read(raw, t.path) == Ok::<JsonTree, Seq<char>>(before) && settings_read(
            Some(written),
            t.path,
        ) == Ok::<JsonTree, Seq<char>>(json_installed(t.agent, before, exe)) ==> uninstall_plan(
            t,
            Some(written),
        ) == rewrite(
            settings_written(json_stripped(t.agent, before)),
            "json.bak"@,
            seq![removed_line(t.agent.name(), events_of(t.agent).len(), t.path)],
        ),
        owned_total(shape_of(t.agent), before) == 0 && is_tidy(shape_of(t.agent), before)
            ==> json_stripped(t.agent, before) == before,
{
    law_json_install_keeps(t.agent, before, exe, ""@);
    law_json_uninstall_undoes_install(t.agent, before, exe);
}

/// An uninstall writes or removes only a file in which our hooks are found.
pub proof fn law_uninstall_touches_only_ours(t: TargetView, raw: Option<Seq<char>>)
    ensures
        uninstall_plan(t, raw) matches Ok(p) ==> (p.step is Leave || raw is Some && match t.agent {
            Agent::Kimi => kimi::toml_read(raw, t.path) matches Ok(d) && kimi::owned_rules(d) > 0,
            Agent::OpenCode => opencode::is_ours(raw),
            Agent::Pi => pi::is_ours(raw),
            _ => settings_read(raw, t.path) matches Ok(j) && owned_total(shape_of(t.agent), j) > 0,
        }),
{
}

} // verus!
