//! pi's extension: one TypeScript file in pi's global extensions directory. It is
//! written only where it differs from what the file holds.

use crate::commands::install::opencode::{push_reported, reported};
use crate::text;
use crate::text::{holds, stands_at};
use vstd::prelude::*;

verus! {

/// What marks the extension file as ours.
pub const EXTENSION_MARKER: &'static str = "sailor-hook — managed by";

/// How many kinds of event the extension reports.
pub const EXTENSION_KINDS: u64 = 6;

/// The extension from the marker to its report of a new session.
pub const EXTENSION_STARTED: &'static str = r#" `sailor-hook install --agent pi`.
// Do not edit; run `sailor-hook uninstall --agent pi` to remove.
//
// Reports pi agent activity to the sailor host daemon (the phone's agent
// inbox). Same contract as the other agents' hooks: fire `sailor-hook event
// --agent pi` with a normalized payload on stdin; the daemon's `pi` adapter
// maps it onto the five inbox categories. pi's hooks are observers — there
// is no decision channel, so approvals never park (Herdr's native pane
// state covers blocked/working/done).
//
// Also reports context usage: `ctx.getContextUsage()` is one of the few
// sources of real context data in the agent landscape, so the rings get
// fed from it on `agent_settled`.
//
// Fails soft everywhere: a missing binary, an absent daemon, or a dead
// spawn must never stall the agent.

import { execSync, spawn } from "node:child_process";

const AGENT = "pi";

/** Resolve `sailor-hook` once: PATH first (spawn error tells us), then the
 * usual cargo install location. */
let sailorHookBin: string | undefined;

function resolveBin(): string | undefined {
	if (sailorHookBin !== undefined) return sailorHookBin;
	const candidates = [
		"sailor-hook",
		`${process.env.HOME ?? ""}/.cargo/bin/sailor-hook`,
	];
	for (const candidate of candidates) {
		try {
			// command -v is authoritative about PATH resolution; for the
			// explicit path we only need it to exist.
			if (
				candidate === "sailor-hook"
					? !!runSync("command -v sailor-hook")
					: candidate.length > 0
			) {
				sailorHookBin = candidate;
				return candidate;
			}
		} catch {
			// try the next candidate
		}
	}
	sailorHookBin = "";
	return undefined;
}

function runSync(command: string): string | undefined {
	try {
		return execSync(command, { encoding: "utf8", timeout: 2000 }).trim() || undefined;
	} catch {
		return undefined;
	}
}

function forward(payload: Record<string, unknown>): void {
	const bin = resolveBin();
	if (!bin) return;
	try {
		const child = spawn(bin, ["event", "--agent", AGENT], {
			stdio: ["pipe", "ignore", "ignore"],
		});
		child.on("error", () => {
			// ENOENT or a dead daemon side — never fail the agent.
		});
		child.stdin.write(`${JSON.stringify(payload)}\n`);
		child.stdin.end();
	} catch {
		// ignore
	}
}

type SailorPayload = {
	hook_event_name: string;
	session_id?: string;
	cwd?: string;
	tool_name?: string;
	context_usage?: number;
};

function str(v: unknown): string | undefined {
	return typeof v === "string" && v.length > 0 ? v : undefined;
}

/** Context fraction used, from ctx.getContextUsage() and the active model's
 * window. Returns undefined when either side is missing. */
function contextUsage(ctx: any): number | undefined {
	try {
		const usage = ctx?.getContextUsage?.();
		const tokens = typeof usage?.tokens === "number" ? usage.tokens : undefined;
		const window = ctx?.model?.contextWindow;
		if (tokens === undefined || typeof window !== "number" || window <= 0) {
			return undefined;
		}
		return Math.min(1, Math.max(0, tokens / window));
	} catch {
		return undefined;
	}
}

export default function (pi: any) {
	let sessionActive = false;

	pi.on("session_start", (_event: unknown, ctx: any) => {
		sessionActive = true;
		const payload: SailorPayload = {
			"#;

/// The extension up to its report of work that starts.
pub const EXTENSION_WORKING: &'static str = r#",
			session_id: str(ctx?.sessionManager?.getSessionId?.()),
			cwd: str(ctx?.cwd),
		};
		forward(payload);
	});

	pi.on("agent_start", (_event: unknown, ctx: any) => {
		if (!sessionActive) return;
		forward({
			"#;

/// The extension up to its report of a tool that starts.
pub const EXTENSION_RUNNING: &'static str = r#",
			session_id: str(ctx?.sessionManager?.getSessionId?.()),
			cwd: str(ctx?.cwd),
		});
	});

	pi.on("tool_execution_start", (event: any, ctx: any) => {
		if (!sessionActive) return;
		forward({
			"#;

/// The extension up to its report of a tool that has run.
pub const EXTENSION_FINISHED: &'static str = r#",
			session_id: str(ctx?.sessionManager?.getSessionId?.()),
			cwd: str(ctx?.cwd),
			tool_name: str(event?.toolName),
		});
	});

	pi.on("tool_execution_end", (event: any, ctx: any) => {
		if (!sessionActive) return;
		forward({
			"#;

/// The extension up to its report of a turn that ends.
pub const EXTENSION_ENDED: &'static str = r#",
			session_id: str(ctx?.sessionManager?.getSessionId?.()),
			cwd: str(ctx?.cwd),
			tool_name: str(event?.toolName),
		});
	});

	// agent_end = the turn finished (a retry may still follow); agent_settled
	// = definitively idle. Both mean "task complete" to the inbox, and the
	// settled event is where the context usage rides.
	pi.on("agent_end", (_event: unknown, ctx: any) => {
		if (!sessionActive) return;
		forward({
			"#;

/// The extension up to its report of a turn that is settled.
pub const EXTENSION_SETTLED: &'static str = r#",
			session_id: str(ctx?.sessionManager?.getSessionId?.()),
			cwd: str(ctx?.cwd),
		});
	});

	pi.on("agent_settled", (_event: unknown, ctx: any) => {
		if (!sessionActive) return;
		const payload: SailorPayload = {
			"#;

/// The extension after its last report.
pub const EXTENSION_TAIL: &'static str = r#",
			session_id: str(ctx?.sessionManager?.getSessionId?.()),
			cwd: str(ctx?.cwd),
		};
		const usage = contextUsage(ctx);
		if (usage !== undefined) {
			payload.context_usage = usage;
		}
		forward(payload);
	});

	// /reload, /new, /resume rebind the runtime — the row stays; only a real
	// quit is worth nothing (the inbox ages rows out on its own).
	pi.on("session_shutdown", () => {
		sessionActive = false;
	});
}
"#;

/// The extension.
pub open spec fn extension_text() -> Seq<char> {
    "// "@ + EXTENSION_MARKER@ + EXTENSION_STARTED@ + reported("session_start"@)
        + EXTENSION_WORKING@ + reported("agent_start"@) + EXTENSION_RUNNING@ + reported(
        "tool_execution_start"@,
    ) + EXTENSION_FINISHED@ + reported("tool_execution_end"@) + EXTENSION_ENDED@ + reported(
        "agent_end"@,
    ) + EXTENSION_SETTLED@ + reported("agent_settled"@) + EXTENSION_TAIL@
}

/// The extension.
pub fn extension() -> (r: String)
    ensures
        r@ == extension_text(),
{
    let mut out = text::concat3("// ", EXTENSION_MARKER, EXTENSION_STARTED);
    push_reported(&mut out, "session_start");
    out.append(EXTENSION_WORKING);
    push_reported(&mut out, "agent_start");
    out.append(EXTENSION_RUNNING);
    push_reported(&mut out, "tool_execution_start");
    out.append(EXTENSION_FINISHED);
    push_reported(&mut out, "tool_execution_end");
    out.append(EXTENSION_ENDED);
    push_reported(&mut out, "agent_end");
    out.append(EXTENSION_SETTLED);
    push_reported(&mut out, "agent_settled");
    out.append(EXTENSION_TAIL);
    out
}

/// A file that is an extension of ours.
pub open spec fn is_ours(raw: Option<Seq<char>>) -> bool {
    match raw {
        Some(s) => holds(s, EXTENSION_MARKER@),
        None => false,
    }
}

/// A file that holds the extension as it is today.
pub open spec fn is_current(raw: Option<Seq<char>>) -> bool {
    raw == Some(extension_text())
}

/// What is to be written over what the file holds: nothing where that is the
/// extension already.
pub fn install_extension(raw: Option<&str>) -> (r: Option<String>)
    ensures
        r is None <==> is_current(text::opt_str(raw)),
        r matches Some(s) ==> s@ == extension_text(),
{
    let wanted = extension();
    match raw {
        Some(s) if text::same(s, wanted.as_str()) => None,
        _ => Some(wanted),
    }
}

/// Whether the file is an extension of ours; only then may it be removed.
pub fn is_installed(raw: Option<&str>) -> (r: bool)
    ensures
        r == is_ours(text::opt_str(raw)),
{
    match raw {
        Some(s) => text::contains(s, EXTENSION_MARKER),
        None => false,
    }
}

/// What an install writes is found again: the next install leaves it alone, and an
/// uninstall removes it.
pub proof fn law_extension_is_ours()
    ensures
        is_ours(Some(extension_text())),
        is_current(Some(extension_text())),
{
    let p = extension_text();
    let before = "// "@;
    assert(p.subrange(before.len() as int, (before + EXTENSION_MARKER@).len() as int)
        =~= EXTENSION_MARKER@);
    assert(stands_at(p, EXTENSION_MARKER@, before.len() as int));
}

} // verus!
