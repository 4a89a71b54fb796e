//! Laws of the plugin and the extension: what they report is what is understood.

use crate::adapters::category_of;
use crate::commands::install::{opencode, pi};
use crate::config::Agent;
use crate::events::Category;
use crate::laws::adapters::lemma_hook_names;
use crate::text::{holds, stands_at};
use vstd::prelude::*;

verus! {

proof fn lemma_in_the_middle(a: Seq<char>, b: Seq<char>, c: Seq<char>)
    ensures
        holds(a + b + c, b),
{
    let n = a.len() as int;
    assert((a + b + c).subrange(n, n + b.len()) =~= b);
    assert(stands_at(a + b + c, b, n));
}

/// OpenCode's plugin reports a new session, an idle one, a permission that is asked
/// for, and a tool before and after it runs, each under a name that is understood.
pub proof fn law_plugin_reports_what_is_understood()
    ensures
        holds(opencode::plugin_text(), "hook_event_name: \""@ + "session.created"@ + "\""@),
        holds(opencode::plugin_text(), "hook_event_name: \""@ + "session.idle"@ + "\""@),
        holds(opencode::plugin_text(), "hook_event_name: \""@ + "permission.asked"@ + "\""@),
        holds(opencode::plugin_text(), "hook_event_name: \""@ + "tool.execute.before"@ + "\""@),
        holds(opencode::plugin_text(), "hook_event_name: \""@ + "tool.execute.after"@ + "\""@),
        category_of(Agent::OpenCode, "session.created"@) == Some(Category::SessionStarted),
        category_of(Agent::OpenCode, "session.idle"@) == Some(Category::TaskComplete),
        category_of(Agent::OpenCode, "permission.asked"@) == Some(Category::ApprovalRequired),
        category_of(Agent::OpenCode, "tool.execute.before"@) == Some(Category::ToolRunning),
        category_of(Agent::OpenCode, "tool.execute.after"@) == Some(Category::ToolFinished),
        opencode::PLUGIN_HOOKS == 5,
{
    lemma_hook_names();
    let p = opencode::plugin_text();
    let created = opencode::reported("session.created"@);
    let idle = opencode::reported("session.idle"@);
    let asked = opencode::reported("permission.asked"@);
    let before = opencode::reported("tool.execute.before"@);
    let after = opencode::reported("tool.execute.after"@);
    let h0 = opencode::PLUGIN_MARKER@ + opencode::PLUGIN_HEAD@ + opencode::AGENT_SHIM@
        + opencode::PLUGIN_CREATED@;
    let h1 = h0 + created + opencode::PLUGIN_IDLE@;
    let h2 = h1 + idle + opencode::PLUGIN_ASKED@;
    let h3 = h2 + asked + opencode::PLUGIN_BEFORE@;
    let h4 = h3 + before + opencode::PLUGIN_AFTER@;
    let t4 = opencode::PLUGIN_TAIL@;
    let t3 = opencode::PLUGIN_AFTER@ + after + t4;
    let t2 = opencode::PLUGIN_BEFORE@ + before + t3;
    let t1 = opencode::PLUGIN_ASKED@ + asked + t2;
    let t0 = opencode::PLUGIN_IDLE@ + idle + t1;
    assert(p =~= h0 + created + t0);
    assert(p =~= h1 + idle + t1);
    assert(p =~= h2 + asked + t2);
    assert(p =~= h3 + before + t3);
    assert(p =~= h4 + after + t4);
    lemma_in_the_middle(h0, created, t0);
    lemma_in_the_middle(h1, idle, t1);
    lemma_in_the_middle(h2, asked, t2);
    lemma_in_the_middle(h3, before, t3);
    lemma_in_the_middle(h4, after, t4);
}

/// Pi's extension reports a new session, the start of work, a tool before and after it
/// runs, and the end of a turn and that it is settled, each under a name that is
/// understood.
pub proof fn law_extension_reports_what_is_understood()
    ensures
        holds(pi::extension_text(), "hook_event_name: \""@ + "session_start"@ + "\""@),
        holds(pi::extension_text(), "hook_event_name: \""@ + "agent_start"@ + "\""@),
        holds(pi::extension_text(), "hook_event_name: \""@ + "tool_execution_start"@ + "\""@),
        holds(pi::extension_text(), "hook_event_name: \""@ + "tool_execution_end"@ + "\""@),
        holds(pi::extension_text(), "hook_event_name: \""@ + "agent_end"@ + "\""@),
        holds(pi::extension_text(), "hook_event_name: \""@ + "agent_settled"@ + "\""@),
        category_of(Agent::Pi, "session_start"@) == Some(Category::SessionStarted),
        category_of(Agent::Pi, "agent_start"@) == Some(Category::ToolRunning),
        category_of(Agent::Pi, "tool_execution_start"@) == Some(Category::ToolRunning),
        category_of(Agent::Pi, "tool_execution_end"@) == Some(Category::ToolFinished),
        category_of(Agent::Pi, "agent_end"@) == Some(Category::TaskComplete),
        category_of(Agent::Pi, "agent_settled"@) == Some(Category::TaskComplete),
        pi::EXTENSION_KINDS == 6,
{
    lemma_hook_names();
    let p = pi::extension_text();
    let started = opencode::reported("session_start"@);
    let working = opencode::reported("agent_start"@);
    let running = opencode::reported("tool_execution_start"@);
    let finished = opencode::reported("tool_execution_end"@);
    let ended = opencode::reported("agent_end"@);
    let settled = opencode::reported("agent_settled"@);
    let h0 = "// "@ + pi::EXTENSION_MARKER@ + pi::EXTENSION_STARTED@;
    let h1 = h0 + started + pi::EXTENSION_WORKING@;
    let h2 = h1 + working + pi::EXTENSION_RUNNING@;
    let h3 = h2 + running + pi::EXTENSION_FINISHED@;
    let h4 = h3 + finished + pi::EXTENSION_ENDED@;
    let h5 = h4 + ended + pi::EXTENSION_SETTLED@;
    let t5 = pi::EXTENSION_TAIL@;
    let t4 = pi::EXTENSION_SETTLED@ + settled + t5;
    let t3 = pi::EXTENSION_ENDED@ + ended + t4;
    let t2 = pi::EXTENSION_FINISHED@ + finished + t3;
    let t1 = pi::EXTENSION_RUNNING@ + running + t2;
    let t0 = pi::EXTENSION_WORKING@ + working + t1;
    assert(p =~= h0 + started + t0);
    assert(p =~= h1 + working + t1);
    assert(p =~= h2 + running + t2);
    assert(p =~= h3 + finished + t3);
    assert(p =~= h4 + ended + t4);
    assert(p =~= h5 + settled + t5);
    lemma_in_the_middle(h0, started, t0);
    lemma_in_the_middle(h1, working, t1);
    lemma_in_the_middle(h2, running, t2);
    lemma_in_the_middle(h3, finished, t3);
    lemma_in_the_middle(h4, ended, t4);
    lemma_in_the_middle(h5, settled, t5);
}

} // verus!
