//! The directories that agents worked in lately, from what they keep on disk.

use crate::config::{first_word, first_word_of};
use crate::json;
use crate::json::{json_parsed, Json, JsonTree};
use crate::paths::{dotted, hidden, join_path, path_joined};
use crate::text;
use crate::text::{lemma_precedes_irreflexive, lemma_precedes_total, lemma_precedes_transitive};
use crate::text::{opt_text, precedes, replaced2, texts, trimmed};
use crate::tree::{entries, field, lemma_array_view, lemma_table_view, text_field, views, Node, Tree};
use vstd::prelude::*;

verus! {

/// A directory that an agent worked in.
#[derive(Debug, PartialEq, Eq)]
pub struct RecentCwd {
    pub path: String,
    /// The agent.
    pub source: &'static str,
    /// When it was last used, in seconds since 1970, where that is known.
    pub last_used: Option<u64>,
}

/// A directory as the contracts speak of it.
pub struct Used {
    pub path: Seq<char>,
    pub source: Seq<char>,
    pub last_used: Option<u64>,
}

impl View for RecentCwd {
    type V = Used;

    open spec fn view(&self) -> Used {
        Used { path: self.path@, source: self.source@, last_used: self.last_used }
    }
}

/// The views of a list of directories.
pub open spec fn uses(v: Seq<RecentCwd>) -> Seq<Used> {
    Seq::new(v.len(), |i: int| v[i]@)
}

// ---------------------------------------------------------------------------
// Merging
// ---------------------------------------------------------------------------

/// One use is later than another; one at an unknown time is earlier than any.
pub open spec fn later(a: Option<u64>, b: Option<u64>) -> bool {
    match (a, b) {
        (Some(x), Some(y)) => x > y,
        (Some(_), None) => true,
        _ => false,
    }
}

fn is_later(a: Option<u64>, b: Option<u64>) -> (r: bool)
    ensures
        r == later(a, b),
{
    match (a, b) {
        (Some(x), Some(y)) => x > y,
        (Some(_), None) => true,
        _ => false,
    }
}

/// The latest use of a path, the first of them where there are several.
pub open spec fn latest(list: Seq<Used>, path: Seq<char>) -> Option<Used>
    decreases list.len(),
{
    if list.len() == 0 {
        None
    } else {
        let e = list.last();
        match latest(list.drop_last(), path) {
            Some(cur) => if e.path == path && later(e.last_used, cur.last_used) {
                Some(e)
            } else {
                Some(cur)
            },
            None => if e.path == path {
                Some(e)
            } else {
                None
            },
        }
    }
}

/// One entry stands before another: the later use first, and of two at the same
/// time, the one whose path comes first.
pub open spec fn stands_before(a: Used, b: Used) -> bool {
    later(a.last_used, b.last_used) || (a.last_used == b.last_used && precedes(a.path, b.path))
}

/// Each entry stands before those behind it.
pub open spec fn latest_first(s: Seq<Used>) -> bool {
    forall|i: int, j: int| 0 <= i < j < s.len() ==> stands_before(#[trigger] s[i], #[trigger] s[j])
}

/// `out` holds the latest use of each path, the latest first.
pub open spec fn is_merged(list: Seq<Used>, out: Seq<Used>) -> bool {
    &&& latest_first(out)
    &&& forall|u: Used| #[trigger] out.contains(u) <==> latest(list, u.path) == Some(u)
}

proof fn lemma_latest_path(list: Seq<Used>, path: Seq<char>)
    ensures
        latest(list, path) matches Some(u) ==> u.path == path,
    decreases list.len(),
{
    if list.len() > 0 {
        lemma_latest_path(list.drop_last(), path);
    }
}

proof fn lemma_stands_before(a: Used, b: Used, c: Used)
    requires
        stands_before(a, b),
        stands_before(b, c),
    ensures
        stands_before(a, c),
{
    if a.last_used == b.last_used && b.last_used == c.last_used {
        lemma_precedes_transitive(a.path, b.path, c.path);
    }
}

/// An entry that is no later than what is there changes nothing.
proof fn lemma_no_later(list: Seq<Used>, out: Seq<Used>, e: Used, at: int)
    requires
        is_merged(list, out),
        0 <= at < out.len(),
        out[at].path == e.path,
        !later(e.last_used, out[at].last_used),
    ensures
        is_merged(list.push(e), out),
{
    let more = list.push(e);
    assert(more.drop_last() =~= list);
    assert(out.contains(out[at]));
    assert forall|u: Used| #[trigger] out.contains(u) <==> latest(more, u.path) == Some(u) by {
        assert(out.contains(u) <==> latest(list, u.path) == Some(u));
        assert(out.contains(out[at]) <==> latest(list, out[at].path) == Some(out[at]));
    }
}

/// An entry that is later than what is there, or for a path of which nothing is
/// there, takes its place.
proof fn lemma_put_in(list: Seq<Used>, out: Seq<Used>, rest: Seq<Used>, e: Used, at: int)
    requires
        is_merged(list, out),
        latest_first(rest),
        forall|u: Used| #[trigger] rest.contains(u) <==> out.contains(u) && u.path != e.path,
        latest(list, e.path) matches Some(cur) ==> later(e.last_used, cur.last_used),
        0 <= at <= rest.len(),
        forall|j: int| 0 <= j < at ==> stands_before(#[trigger] rest[j], e),
        at < rest.len() ==> stands_before(e, rest[at]),
    ensures
        is_merged(list.push(e), rest.insert(at, e)),
{
    let more = list.push(e);
    let r = rest.insert(at, e);
    assert(more.drop_last() =~= list);
    assert forall|i: int, j: int| 0 <= i < j < r.len() implies stands_before(
        #[trigger] r[i],
        #[trigger] r[j],
    ) by {
        if j < at {
            assert(r[i] == rest[i] && r[j] == rest[j]);
        } else if j == at {
            assert(r[i] == rest[i]);
        } else if i == at {
            assert(r[j] == rest[j - 1]);
            if j - 1 > at {
                assert(stands_before(rest[at], rest[j - 1]));
                lemma_stands_before(e, rest[at], rest[j - 1]);
            }
        } else if i < at {
            assert(r[i] == rest[i] && r[j] == rest[j - 1]);
        } else {
            assert(r[i] == rest[i - 1] && r[j] == rest[j - 1]);
        }
    }
    assert forall|u: Used| #[trigger] r.contains(u) <==> latest(more, u.path) == Some(u) by {
        assert(r[at] == e);
        lemma_latest_path(list, u.path);
        assert(out.contains(u) <==> latest(list, u.path) == Some(u));
        assert(rest.contains(u) <==> out.contains(u) && u.path != e.path);
        if r.contains(u) {
            let k = choose|k: int| 0 <= k < r.len() && r[k] == u;
            if k < at {
                assert(rest[k] == u);
            } else if k > at {
                assert(rest[k - 1] == u);
            }
            assert(u == e || rest.contains(u));
        }
        if rest.contains(u) {
            let k = choose|k: int| 0 <= k < rest.len() && rest[k] == u;
            if k < at {
                assert(r[k] == u);
            } else {
                assert(r[k + 1] == u);
            }
        }
    }
}

/// Where a path stands.
fn find_path(out: &Vec<RecentCwd>, path: &str) -> (r: Option<usize>)
    ensures
        match r {
            Some(at) => at < out@.len() && out@[at as int].path@ == path@,
            None => forall|j: int| 0 <= j < out@.len() ==> (#[trigger] uses(out@)[j]).path != path@,
        },
{
    let mut i: usize = 0;
    while i < out.len()
        invariant
            i <= out@.len(),
            forall|j: int| 0 <= j < i ==> (#[trigger] uses(out@)[j]).path != path@,
        decreases out@.len() - i,
    {
        if text::same(out[i].path.as_str(), path) {
            return Some(i);
        }
        i += 1;
    }
    None
}

/// Where an entry belongs.
fn find_place(out: &Vec<RecentCwd>, e: &RecentCwd) -> (r: usize)
    requires
        latest_first(uses(out@)),
        forall|j: int| 0 <= j < out@.len() ==> (#[trigger] uses(out@)[j]).path != e.path@,
    ensures
        r <= out@.len(),
        forall|j: int| 0 <= j < r ==> stands_before(#[trigger] uses(out@)[j], e@),
        r < out@.len() ==> stands_before(e@, uses(out@)[r as int]),
{
    let mut at: usize = 0;
    while at < out.len() && (is_later(out[at].last_used, e.last_used) || (!is_later(
        e.last_used,
        out[at].last_used,
    ) && text::before(out[at].path.as_str(), e.path.as_str())))
        invariant
            at <= out@.len(),
            forall|j: int| 0 <= j < at ==> stands_before(#[trigger] uses(out@)[j], e@),
        decreases out@.len() - at,
    {
        assert(uses(out@)[at as int] == out@[at as int]@);
        at += 1;
    }
    proof {
        if at < out@.len() {
            assert(uses(out@)[at as int] == out@[at as int]@);
            lemma_precedes_total(out@[at as int].path@, e.path@);
        }
    }
    at
}

/// Puts an entry into a merged list.
fn add_use(out: &mut Vec<RecentCwd>, e: RecentCwd, Ghost(list): Ghost<Seq<Used>>)
    requires
        is_merged(list, uses(old(out)@)),
    ensures
        is_merged(list.push(e@), uses(final(out)@)),
{
    let ghost before = uses(out@);
    let ghost u = e@;
    match find_path(out, e.path.as_str()) {
        Some(k) => {
            proof {
                assert(before[k as int] == out@[k as int]@);
                assert(before.contains(before[k as int]));
            }
            if !is_later(e.last_used, out[k].last_used) {
                proof {
                    lemma_no_later(list, before, u, k as int);
                }
                return;
            }
            out.remove(k);
            proof {
                let rest = uses(out@);
                assert(rest =~= before.remove(k as int));
                lemma_one_gone(list, before, k as int);
            }
        },
        None => {
            proof {
                lemma_latest_path(list, u.path);
                if let Some(cur) = latest(list, u.path) {
                    assert(before.contains(cur) <==> latest(list, cur.path) == Some(cur));
                    let j = choose|j: int| 0 <= j < before.len() && before[j] == cur;
                    assert(before[j].path == u.path);
                }
                assert forall|v: Used| #[trigger] before.contains(v) implies v.path != u.path by {
                    let j = choose|j: int| 0 <= j < before.len() && before[j] == v;
                    assert(before[j].path != u.path);
                }
            }
        },
    }
    let ghost rest = uses(out@);
    assert forall|j: int| 0 <= j < rest.len() implies (#[trigger] rest[j]).path != u.path by {
        assert(rest.contains(rest[j]));
    }
    let at = find_place(out, &e);
    out.insert(at, e);
    proof {
        assert(uses(out@) =~= rest.insert(at as int, u));
        lemma_put_in(list, before, rest, u, at as int);
    }
}

/// A merged list without one entry has the other paths.
proof fn lemma_one_gone(list: Seq<Used>, out: Seq<Used>, k: int)
    requires
        is_merged(list, out),
        0 <= k < out.len(),
    ensures
        latest_first(out.remove(k)),
        forall|u: Used| #[trigger]
            out.remove(k).contains(u) <==> out.contains(u) && u.path != out[k].path,
{
    let rest = out.remove(k);
    assert forall|i: int, j: int| 0 <= i < j < rest.len() implies stands_before(
        #[trigger] rest[i],
        #[trigger] rest[j],
    ) by {
        let oi = if i < k {
            i
        } else {
            i + 1
        };
        let oj = if j < k {
            j
        } else {
            j + 1
        };
        assert(rest[i] == out[oi] && rest[j] == out[oj]);
    }
    assert forall|u: Used| #[trigger] rest.contains(u) <==> out.contains(u) && u.path
        != out[k].path by {
        if rest.contains(u) {
            let i = choose|i: int| 0 <= i < rest.len() && rest[i] == u;
            let oi = if i < k {
                i
            } else {
                i + 1
            };
            assert(out[oi] == u);
            if u.path == out[k].path {
                law_each_path_once(list, out, oi, k);
            }
        }
        if out.contains(u) && u.path != out[k].path {
            let i = choose|i: int| 0 <= i < out.len() && out[i] == u;
            if i < k {
                assert(rest[i] == u);
            } else {
                assert(rest[i - 1] == u);
            }
        }
    }
}

/// Merges lists of directories: each path once, by its latest use, the latest
/// first, and those at an unknown time last.
pub fn merge_recent(entries: Vec<RecentCwd>) -> (r: Vec<RecentCwd>)
    ensures
        is_merged(uses(entries@), uses(r@)),
{
    let ghost all = uses(entries@);
    let mut out: Vec<RecentCwd> = Vec::new();
    assert(uses(out@) =~= Seq::empty());
    assert(all.take(0) =~= Seq::empty());
    for e in it: entries
        invariant
            all == uses(entries@),
            it.seq() == entries@,
            is_merged(all.take(it.index() as int), uses(out@)),
    {
        let ghost i = it.index() as int;
        let ghost so_far = all.take(i);
        assert(all.take(i + 1) =~= so_far.push(e@));
        add_use(&mut out, e, Ghost(so_far));
    }
    assert(all.take(all.len() as int) =~= all);
    out
}

/// No path stands twice in a merged list.
pub proof fn law_each_path_once(list: Seq<Used>, out: Seq<Used>, i: int, j: int)
    requires
        is_merged(list, out),
        0 <= i < out.len(),
        0 <= j < out.len(),
        out[i].path == out[j].path,
    ensures
        i == j,
{
    assert(out.contains(out[i]) && out.contains(out[j]));
    lemma_precedes_irreflexive(out[i].path);
    if i < j {
        assert(stands_before(out[i], out[j]));
    } else if j < i {
        assert(stands_before(out[j], out[i]));
    }
}

/// No path is lost by merging, and what is kept of it is no earlier than any other
/// use of it.
pub proof fn law_nothing_is_lost(list: Seq<Used>, out: Seq<Used>, i: int)
    requires
        is_merged(list, out),
        0 <= i < list.len(),
    ensures
        exists|j: int|
            0 <= j < out.len() && (#[trigger] out[j]).path == list[i].path && !later(
                list[i].last_used,
                out[j].last_used,
            ),
{
    lemma_latest(list, i);
    let u = latest(list, list[i].path)->0;
    lemma_latest_path(list, list[i].path);
    assert(out.contains(u) <==> latest(list, u.path) == Some(u));
    let j = choose|j: int| 0 <= j < out.len() && out[j] == u;
    assert(out[j].path == list[i].path);
}

proof fn lemma_latest(list: Seq<Used>, i: int)
    requires
        0 <= i < list.len(),
    ensures
        latest(list, list[i].path) matches Some(u) && !later(list[i].last_used, u.last_used),
    decreases list.len(),
{
    if i < list.len() - 1 {
        lemma_latest(list.drop_last(), i);
        assert(list.drop_last()[i] == list[i]);
    }
}

// ---------------------------------------------------------------------------
// The transcripts of `claude_code`
// ---------------------------------------------------------------------------

/// The keys of a table.
pub open spec fn keys(m: Seq<(Seq<char>, JsonTree)>) -> Seq<Seq<char>> {
    Seq::new(m.len(), |i: int| m[i].0)
}

/// The projects that the settings of `claude_code` tell of.
pub open spec fn projects_in(t: JsonTree) -> Seq<Seq<char>> {
    match field(t, "projects"@) {
        Some(Tree::Table(m)) => keys(m),
        _ => Seq::empty(),
    }
}

/// The projects that the settings of `claude_code` tell of, once parsed.
pub fn projects_of(settings: &Json) -> (r: Vec<String>)
    ensures
        texts(r@) == projects_in(settings@),
{
    let mut out: Vec<String> = Vec::new();
    assert(texts(out@) =~= Seq::empty());
    match settings.get("projects") {
        Some(Node::Table(m)) => {
            proof {
                lemma_table_view(*m);
            }
            let mut i: usize = 0;
            while i < m.len()
                invariant
                    i <= m@.len(),
                    out@.len() == i,
                    forall|k: int| 0 <= k < i ==> (#[trigger] out@[k])@ == m@[k].0@,
                decreases m@.len() - i,
            {
                out.push(m[i].0.clone());
                i += 1;
            }
            assert(texts(out@) =~= keys(entries(m@)));
            out
        },
        _ => out,
    }
}

/// The projects that the text of the settings of `claude_code` tells of, none where
/// it is no JSON.
pub fn parse_claude_projects(claude_json: &str) -> (r: Vec<String>)
    ensures
        texts(r@) == match json_parsed(claude_json@) {
            Ok(t) => projects_in(t),
            Err(_) => Seq::empty(),
        },
{
    match json::parse(claude_json) {
        Ok(j) => projects_of(&j),
        Err(_) => {
            let none: Vec<String> = Vec::new();
            assert(texts(none@) =~= Seq::empty());
            none
        },
    }
}

/// The name of the directory that `claude_code` keeps for a project: its path with
/// `-` for each `/` and each `.`.
pub fn encode_claude_project_dir(path: &str) -> (r: String)
    ensures
        r@ == replaced2(path@, '/', '.', '-'),
{
    text::replace2(path, '/', '.', '-')
}

/// The directory that `claude_code` keeps for a project; its age is the age of the
/// project's last use.
pub fn claude_project_dir(home: &str, path: &str) -> (r: String)
    ensures
        r@ == path_joined(
            path_joined(path_joined(home@, hidden(first_word("claude_code"@))), "projects"@),
            replaced2(path@, '/', '.', '-'),
        ),
{
    let name = first_word_of("claude_code");
    let dir = join_path(home, dotted(name.as_str()).as_str());
    let projects = join_path(dir.as_str(), "projects");
    join_path(projects.as_str(), encode_claude_project_dir(path).as_str())
}

/// Where `claude_code` keeps its settings.
pub fn claude_settings(home: &str) -> (r: String)
    ensures
        r@ == path_joined(home@, hidden(first_word("claude_code"@)) + ".json"@),
{
    let mut name = dotted(first_word_of("claude_code").as_str());
    name.append(".json");
    join_path(home, name.as_str())
}

// ---------------------------------------------------------------------------
// Codex
// ---------------------------------------------------------------------------

/// How deep the sessions of Codex lie below their directory.
pub const SESSION_DEPTH: usize = 4;

/// Where Codex keeps its sessions.
pub fn codex_sessions(home: &str) -> (r: String)
    ensures
        r@ == path_joined(path_joined(home@, ".codex"@), "sessions"@),
{
    let codex = join_path(home, ".codex");
    join_path(codex.as_str(), "sessions")
}

/// The first text under a key `cwd` in a document: a table's own before those
/// further down, and those in the order of the document.
pub open spec fn cwd_in(t: JsonTree) -> Option<Seq<char>>
    decreases t,
{
    match t {
        Tree::Table(m) => match text_field(t, "cwd"@) {
            Some(s) => Some(s),
            None => cwd_in_values(m),
        },
        Tree::Array(list) => cwd_in_items(list),
        _ => None,
    }
}

/// The first `cwd` in the values of a table.
pub open spec fn cwd_in_values(m: Seq<(Seq<char>, JsonTree)>) -> Option<Seq<char>>
    decreases m,
{
    if m.len() == 0 {
        None
    } else {
        match cwd_in(m[0].1) {
            Some(s) => Some(s),
            None => cwd_in_values(m.subrange(1, m.len() as int)),
        }
    }
}

/// The first `cwd` in the items of an array.
pub open spec fn cwd_in_items(list: Seq<JsonTree>) -> Option<Seq<char>>
    decreases list,
{
    if list.len() == 0 {
        None
    } else {
        match cwd_in(list[0]) {
            Some(s) => Some(s),
            None => cwd_in_items(list.subrange(1, list.len() as int)),
        }
    }
}

/// The first `cwd` in a document.
pub fn find_cwd(value: &Json) -> (r: Option<String>)
    ensures
        opt_text(r) == cwd_in(value@),
    decreases value,
{
    match value {
        Node::Table(m) => {
            proof {
                lemma_table_view(*m);
            }
            if let Some(cwd) = value.get_str("cwd") {
                return Some(text::owned(cwd));
            }
            let ghost all = entries(m@);
            let mut i: usize = 0;
            assert(all.subrange(0, all.len() as int) =~= all);
            while i < m.len()
                invariant
                    i <= m@.len(),
                    *value == Node::Table(*m),
                    all == entries(m@),
                    value@ == Tree::Table(all),
                    text_field(value@, "cwd"@) is None,
                    cwd_in_values(all) == cwd_in_values(all.subrange(i as int, all.len() as int)),
                decreases m@.len() - i,
            {
                proof {
                    let v2 = *value;
                    assert(decreases_to!(v2 => v2->Table_0));
                    assert(decreases_to!(m@ => m@[i as int]));
                    assert(decreases_to!(m@[i as int] => m@[i as int].1));
                    let rest = all.subrange(i as int, all.len() as int);
                    assert(rest[0].1 == m@[i as int].1@);
                    assert(rest.subrange(1, rest.len() as int) =~= all.subrange(
                        i + 1,
                        all.len() as int,
                    ));
                }
                if let Some(cwd) = find_cwd(&m[i].1) {
                    return Some(cwd);
                }
                i += 1;
            }
            None
        },
        Node::Array(list) => {
            proof {
                lemma_array_view(*list);
            }
            let ghost all = views(list@);
            let mut i: usize = 0;
            assert(all.subrange(0, all.len() as int) =~= all);
            while i < list.len()
                invariant
                    i <= list@.len(),
                    *value == Node::Array(*list),
                    all == views(list@),
                    value@ == Tree::Array(all),
                    cwd_in_items(all) == cwd_in_items(all.subrange(i as int, all.len() as int)),
                decreases list@.len() - i,
            {
                proof {
                    let v2 = *value;
                    assert(decreases_to!(v2 => v2->Array_0));
                    assert(decreases_to!(list@ => list@[i as int]));
                    let rest = all.subrange(i as int, all.len() as int);
                    assert(rest[0] == list@[i as int]@);
                    assert(rest.subrange(1, rest.len() as int) =~= all.subrange(
                        i + 1,
                        all.len() as int,
                    ));
                }
                if let Some(cwd) = find_cwd(&list[i]) {
                    return Some(cwd);
                }
                i += 1;
            }
            None
        },
        _ => None,
    }
}

/// What the text of a document gives.
pub open spec fn line_cwd(line: Seq<char>) -> Option<Seq<char>> {
    match json_parsed(line) {
        Ok(t) => cwd_in(t),
        Err(_) => None,
    }
}

/// The first `cwd` in a line of JSON, wherever in it.
pub fn extract_cwd(json_line: &str) -> (r: Option<String>)
    ensures
        opt_text(r) == line_cwd(json_line@),
{
    match json::parse(json_line) {
        Ok(j) => find_cwd(&j),
        Err(_) => None,
    }
}

/// The directory that the first line of a session's file tells of; a blank line
/// tells of none.
pub fn session_cwd(first_line: &str) -> (r: Option<String>)
    ensures
        opt_text(r) == if trimmed(first_line@).len() == 0 {
            None
        } else {
            line_cwd(trimmed(first_line@))
        },
{
    let line = text::trim(first_line);
    if line.as_str().is_empty() {
        None
    } else {
        extract_cwd(line.as_str())
    }
}

} // verus!
