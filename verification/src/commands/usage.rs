//! The usage that agents reported.

use crate::inbox::{Row, RowView};
use crate::text;
use crate::text::opt_str;
use vstd::prelude::*;

verus! {

/// What is printed where no row has any usage.
pub const NO_USAGE: &'static str =
    "no usage data (agents report it on their hook events; Qwen's Stop hook does today)";

/// A row whose agent reported usage.
pub open spec fn reports_usage(row: RowView) -> bool {
    row.usage.len() > 0 || row.context_remaining is Some
}

/// Whether a row's agent reported usage.
pub fn has_usage(row: &Row) -> (r: bool)
    ensures
        r == reports_usage(row@),
{
    row.usage.len() > 0 || row.context_remaining.is_some()
}

/// The line above a row's usage.
pub open spec fn usage_heading(row: RowView) -> Seq<char> {
    row.source + " · "@ + match row.project {
        Some(p) => p,
        None => "-"@,
    }
}

/// The line above a row's usage.
pub fn heading(row: &Row) -> (r: String)
    ensures
        r@ == usage_heading(row@),
{
    let project = match &row.project {
        Some(p) => p.as_str(),
        None => "-",
    };
    text::concat3(row.source.as_str(), " · ", project)
}

/// The line for what is left of the context, as a percentage.
pub fn context_line(percent: &str) -> (r: String)
    ensures
        r@ == "  context: "@ + percent@ + "% remaining"@,
{
    text::concat3("  context: ", percent, "% remaining")
}

/// The line for a usage window.
pub open spec fn window_text(
    label: Seq<char>,
    percent: Seq<char>,
    resets: Option<Seq<char>>,
) -> Seq<char> {
    let used = "  window "@ + label + ": "@ + percent + "% used"@;
    match resets {
        Some(at) => used + ", resets "@ + at,
        None => used,
    }
}

/// The line for a usage window: its label, how much of it is used, as a percentage,
/// and the time at which it starts anew.
pub fn window_line(label: &str, percent: &str, resets: Option<&str>) -> (r: String)
    ensures
        r@ == window_text(label@, percent@, opt_str(resets)),
{
    let mut line = text::concat3("  window ", label, ": ");
    line.append(percent);
    line.append("% used");
    if let Some(at) = resets {
        line.append(", resets ");
        line.append(at);
    }
    line
}

} // verus!
