//! OpenCode's plugin: one self-contained TypeScript file in the global plugin
//! directory. It is written only where the file does not carry our marker and our
//! call already.

use crate::text;
use crate::text::{holds, stands_at};
use vstd::prelude::*;

verus! {

/// What marks the plugin file as ours.
pub const PLUGIN_MARKER: &'static str = "// sailor-hook — managed by `sailor-hook install`";

/// The call that a current plugin makes.
pub const AGENT_SHIM: &'static str = "sailor-hook\", \"event\", \"--agent\"";

/// How many hooks the plugin subscribes to.
pub const PLUGIN_HOOKS: u64 = 5;

/// The plugin from the marker to the call.
pub const PLUGIN_HEAD: &'static str = r#". Do not edit; run
// `sailor-hook uninstall --agent opencode` to remove.
//
// Reports opencode agent activity to the sailor host daemon. Uses the typed
// tool hooks plus the generic event stream (opencode's `permission.ask`
// plugin hook is declared in the SDK but never triggered — see
// anomalyco/opencode#7006/#9229 — so approvals surface as events only).
// Fails soft: a missing binary or daemon must never stall the agent.

const AGENT = "opencode";

function forward(payload: {
	hook_event_name: string;
	session_id?: string;
	cwd?: string;
	tool_name?: string;
	message?: string;
}): void {
	try {
		const proc = Bun.spawn({
			cmd: [""#;

/// The plugin up to its report of a new session.
pub const PLUGIN_CREATED: &'static str = r#", AGENT],
			stdin: "pipe",
			stdout: "ignore",
			stderr: "ignore",
		});
		proc.stdin.write(JSON.stringify(payload) + "\n");
		proc.stdin.end();
	} catch {
		// ignore: no binary, no room — never fail the agent
	}
}

function str(v: unknown): string | undefined {
	return typeof v === "string" && v.length > 0 ? v : undefined;
}

export default async function sailorHooks(ctx: {
	directory?: string;
}): Promise<{
	event?: (input: { event: { type: string; data?: Record<string, unknown> } }) => Promise<void>;
	"tool.execute.before"?: (input: {
		tool: string;
		sessionID: string;
		callID: string;
	}) => Promise<void>;
	"tool.execute.after"?: (input: {
		tool: string;
		sessionID: string;
		callID: string;
	}) => Promise<void>;
}> {
	const cwd = str(ctx.directory);
	return {
		event: async ({ event }) => {
			const data = event.data ?? {};
			const sessionID = str(data.sessionID) ?? str(data.session_id);
			switch (event.type) {
				case "session.created":
					forward({ "#;

/// The plugin up to its report of an idle session.
pub const PLUGIN_IDLE: &'static str = r#", session_id: sessionID, cwd });
					break;
				case "session.idle":
					forward({ "#;

/// The plugin up to its report of a permission that is asked for.
pub const PLUGIN_ASKED: &'static str = r#", session_id: sessionID, cwd });
					break;
				case "permission.asked":
				case "permission.v2.asked":
					forward({
						"#;

/// The plugin up to its report of a tool that starts.
pub const PLUGIN_BEFORE: &'static str = r#",
						session_id: sessionID,
						cwd,
						message: str(data.action) ?? str(data.tool),
					});
					break;
				case "permission.replied":
				case "permission.v2.replied":
					forward({
						hook_event_name: "permission.replied",
						session_id: sessionID,
						cwd,
						message: str(data.reply),
					});
					break;
				default:
					break;
			}
		},
		"tool.execute.before": async ({ tool, sessionID }) => {
			forward({ "#;

/// The plugin up to its report of a tool that has run.
pub const PLUGIN_AFTER: &'static str = r#", session_id: sessionID, cwd, tool_name: tool });
		},
		"tool.execute.after": async ({ tool, sessionID }) => {
			forward({ "#;

/// The plugin after its last report.
pub const PLUGIN_TAIL: &'static str = r#", session_id: sessionID, cwd, tool_name: tool });
		},
	};
}
"#;

/// What names an event in a report.
pub open spec fn reported(kind: Seq<char>) -> Seq<char> {
    "hook_event_name: \""@ + kind + "\""@
}

/// Appends what names an event in a report.
pub fn push_reported(out: &mut String, kind: &str)
    ensures
        final(out)@ == old(out)@ + reported(kind@),
{
    let ghost before = out@;
    out.append("hook_event_name: \"");
    out.append(kind);
    out.append("\"");
    assert(out@ =~= before + reported(kind@));
}

/// The plugin.
pub open spec fn plugin_text() -> Seq<char> {
    PLUGIN_MARKER@ + PLUGIN_HEAD@ + AGENT_SHIM@ + PLUGIN_CREATED@ + reported("session.created"@)
        + PLUGIN_IDLE@ + reported("session.idle"@) + PLUGIN_ASKED@ + reported("permission.asked"@)
        + PLUGIN_BEFORE@ + reported("tool.execute.before"@) + PLUGIN_AFTER@ + reported(
        "tool.execute.after"@,
    ) + PLUGIN_TAIL@
}

/// The plugin.
pub fn plugin() -> (r: String)
    ensures
        r@ == plugin_text(),
{
    let mut out = text::concat3(PLUGIN_MARKER, PLUGIN_HEAD, AGENT_SHIM);
    out.append(PLUGIN_CREATED);
    push_reported(&mut out, "session.created");
    out.append(PLUGIN_IDLE);
    push_reported(&mut out, "session.idle");
    out.append(PLUGIN_ASKED);
    push_reported(&mut out, "permission.asked");
    out.append(PLUGIN_BEFORE);
    push_reported(&mut out, "tool.execute.before");
    out.append(PLUGIN_AFTER);
    push_reported(&mut out, "tool.execute.after");
    out.append(PLUGIN_TAIL);
    out
}

/// A file that is a current plugin of ours.
pub open spec fn is_current(raw: Option<Seq<char>>) -> bool {
    match raw {
        Some(s) => holds(s, PLUGIN_MARKER@) && holds(s, AGENT_SHIM@),
        None => false,
    }
}

/// A file that is a plugin of ours.
pub open spec fn is_ours(raw: Option<Seq<char>>) -> bool {
    match raw {
        Some(s) => holds(s, PLUGIN_MARKER@),
        None => false,
    }
}

/// What is to be written over what the file holds: nothing where it is current.
pub fn install_plugin(raw: Option<&str>) -> (r: Option<String>)
    ensures
        r is None <==> is_current(text::opt_str(raw)),
        r matches Some(s) ==> s@ == plugin_text(),
{
    if let Some(s) = raw {
        if text::contains(s, PLUGIN_MARKER) && text::contains(s, AGENT_SHIM) {
            return None;
        }
    }
    Some(plugin())
}

/// Whether the file is a plugin of ours; only then may it be removed.
pub fn is_installed(raw: Option<&str>) -> (r: bool)
    ensures
        r == is_ours(text::opt_str(raw)),
{
    match raw {
        Some(s) => text::contains(s, PLUGIN_MARKER),
        None => false,
    }
}

/// What an install writes is found again, by the next install and by an uninstall.
pub proof fn law_plugin_is_current()
    ensures
        is_current(Some(plugin_text())),
        is_ours(Some(plugin_text())),
{
    let p = plugin_text();
    let before = PLUGIN_MARKER@ + PLUGIN_HEAD@;
    assert(p.subrange(0, PLUGIN_MARKER@.len() as int) =~= PLUGIN_MARKER@);
    assert(stands_at(p, PLUGIN_MARKER@, 0));
    assert(p.subrange(before.len() as int, (before + AGENT_SHIM@).len() as int) =~= AGENT_SHIM@);
    assert(stands_at(p, AGENT_SHIM@, before.len() as int));
}

} // verus!
