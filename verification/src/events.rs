//! What an agent reports: the five kinds of event that every agent's hooks are
//! reduced to.

use crate::context::{opt_context, Context, ContextView};
use crate::ids;
use crate::text;
use crate::text::opt_text;
use vstd::prelude::*;

verus! {

/// The kind of an event.
#[derive(Debug, Clone, Copy, PartialEq, Eq, Structural)]
pub enum Category {
    ApprovalRequired,
    TaskComplete,
    SessionStarted,
    ToolRunning,
    ToolFinished,
}

/// How much of a usage allowance is gone. `used` is a fraction between zero and
/// one, held as the bits of a single-precision number; `resets_at` is in
/// nanoseconds since the epoch.
#[derive(Debug, PartialEq)]
pub struct UsageWindow {
    pub label: String,
    pub used: u32,
    pub resets_at: Option<i128>,
}

/// A usage window as the contracts speak of it.
pub struct UsageView {
    pub label: Seq<char>,
    pub used: u32,
    pub resets_at: Option<i128>,
}

impl View for UsageWindow {
    type V = UsageView;

    open spec fn view(&self) -> UsageView {
        UsageView { label: self.label@, used: self.used, resets_at: self.resets_at }
    }
}

/// The views of a list of windows.
pub open spec fn usage_views(v: Seq<UsageWindow>) -> Seq<UsageView> {
    Seq::new(v.len(), |i: int| v[i]@)
}

/// A copy of a list of windows.
pub fn copy_usage(v: &Vec<UsageWindow>) -> (r: Vec<UsageWindow>)
    ensures
        usage_views(r@) == usage_views(v@),
{
    let mut out: Vec<UsageWindow> = Vec::new();
    let mut i: usize = 0;
    while i < v.len()
        invariant
            i <= v@.len(),
            out@.len() == i,
            forall|k: int| 0 <= k < i ==> (#[trigger] out@[k])@ == v@[k]@,
        decreases v@.len() - i,
    {
        let w = &v[i];
        out.push(UsageWindow { label: w.label.clone(), used: w.used, resets_at: w.resets_at });
        i += 1;
    }
    assert(usage_views(out@) =~= usage_views(v@));
    out
}

/// One event. Times are in nanoseconds since the epoch, and `context_remaining`
/// is a fraction held as the bits of a single-precision number.
#[derive(Debug, PartialEq)]
pub struct Event {
    pub category: Category,
    pub source: String,
    pub session_id: u128,
    pub host_id: String,
    pub project: Option<String>,
    pub title: String,
    pub message: String,
    pub event_id: u128,
    pub pending_action_id: Option<u128>,
    pub expires_at: Option<i128>,
    pub usage: Vec<UsageWindow>,
    pub context_remaining: Option<u32>,
    pub terminal: Option<Context>,
}

/// An event as the contracts speak of it.
pub struct EventView {
    pub category: Category,
    pub source: Seq<char>,
    pub session_id: u128,
    pub host_id: Seq<char>,
    pub project: Option<Seq<char>>,
    pub title: Seq<char>,
    pub message: Seq<char>,
    pub event_id: u128,
    pub pending_action_id: Option<u128>,
    pub expires_at: Option<i128>,
    pub usage: Seq<UsageView>,
    pub context_remaining: Option<u32>,
    pub terminal: Option<ContextView>,
}

impl View for Event {
    type V = EventView;

    open spec fn view(&self) -> EventView {
        EventView {
            category: self.category,
            source: self.source@,
            session_id: self.session_id,
            host_id: self.host_id@,
            project: opt_text(self.project),
            title: self.title@,
            message: self.message@,
            event_id: self.event_id,
            pending_action_id: self.pending_action_id,
            expires_at: self.expires_at,
            usage: usage_views(self.usage@),
            context_remaining: self.context_remaining,
            terminal: opt_context(self.terminal),
        }
    }
}

/// An event with nothing but its kind, its source, its title and its identifiers.
pub open spec fn bare_event(
    category: Category,
    source: Seq<char>,
    title: Seq<char>,
    session_id: u128,
    event_id: u128,
) -> EventView {
    EventView {
        category,
        source,
        session_id,
        host_id: Seq::empty(),
        project: None,
        title,
        message: Seq::empty(),
        event_id,
        pending_action_id: None,
        expires_at: None,
        usage: Seq::empty(),
        context_remaining: None,
        terminal: None,
    }
}

impl Event {
    /// An event with the given identifiers.
    pub fn with_ids(
        category: Category,
        source: &str,
        title: &str,
        session_id: u128,
        event_id: u128,
    ) -> (r: Event)
        ensures
            r@ == bare_event(category, source@, title@, session_id, event_id),
    {
        let usage: Vec<UsageWindow> = Vec::new();
        assert(usage_views(usage@) =~= Seq::empty());
        let host_id = String::new();
        let message = String::new();
        assert(host_id@ =~= Seq::empty() && message@ =~= Seq::empty());
        Event {
            category,
            source: text::owned(source),
            session_id,
            host_id,
            project: None,
            title: text::owned(title),
            message,
            event_id,
            pending_action_id: None,
            expires_at: None,
            usage,
            context_remaining: None,
            terminal: None,
        }
    }

    /// An event with fresh random identifiers.
    pub fn new(category: Category, source: &str, title: &str) -> (r: Event)
        ensures
            r@ == bare_event(category, source@, title@, r.session_id, r.event_id),
            ids::is_random(r.session_id),
            ids::is_random(r.event_id),
    {
        let session_id = ids::new_id();
        let event_id = ids::new_id();
        Event::with_ids(category, source, title, session_id, event_id)
    }
}

} // verus!
