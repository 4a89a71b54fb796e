//! Changes and files of a git repository: reading git's output, and keeping file
//! reads inside the work tree.

use crate::text;
use crate::text::{
    after_prefix, before_suffix, begins, cut_once, holds, in_order, line_seq, lower, opt_text,
    pieces, same_texts, texts,
};
use vstd::prelude::*;

verus! {

/// The most of a file that is sent to the phone, in bytes.
pub const MAX_UNTRACKED_BYTES: usize = 1_048_576;

/// What happened to a file.
#[derive(Debug, Clone, Copy, PartialEq, Eq, Structural)]
pub enum ChangeStatus {
    Added,
    Modified,
    Deleted,
    Renamed,
    Untracked,
}

impl ChangeStatus {
    /// The name under which a status is sent, as the contracts speak of it.
    pub open spec fn name(self) -> Seq<char> {
        match self {
            ChangeStatus::Added => "added"@,
            ChangeStatus::Modified => "modified"@,
            ChangeStatus::Deleted => "deleted"@,
            ChangeStatus::Renamed => "renamed"@,
            ChangeStatus::Untracked => "untracked"@,
        }
    }

    /// The name under which a status is sent.
    pub fn as_str(&self) -> (r: &'static str)
        ensures
            r@ == self.name(),
    {
        match self {
            ChangeStatus::Added => "added",
            ChangeStatus::Modified => "modified",
            ChangeStatus::Deleted => "deleted",
            ChangeStatus::Renamed => "renamed",
            ChangeStatus::Untracked => "untracked",
        }
    }
}

/// One changed file. An untracked one has its contents in place of a patch.
#[derive(Debug, PartialEq)]
pub struct Change {
    pub name: String,
    pub prev_name: Option<String>,
    pub status: ChangeStatus,
    pub patch: String,
    pub contents: Option<String>,
}

/// A changed file as the contracts speak of it.
pub struct ChangeView {
    pub name: Seq<char>,
    pub prev_name: Option<Seq<char>>,
    pub status: ChangeStatus,
    pub patch: Seq<char>,
    pub contents: Option<Seq<char>>,
}

impl View for Change {
    type V = ChangeView;

    open spec fn view(&self) -> ChangeView {
        ChangeView {
            name: self.name@,
            prev_name: opt_text(self.prev_name),
            status: self.status,
            patch: self.patch@,
            contents: opt_text(self.contents),
        }
    }
}

/// The views of a list of changes.
pub open spec fn change_views(v: Seq<Change>) -> Seq<ChangeView> {
    Seq::new(v.len(), |i: int| v[i]@)
}

// ---------------------------------------------------------------------------
// Reading a diff
// ---------------------------------------------------------------------------

/// The old name in a header: without its `a/`, and without the quotes that git puts
/// round an unusual one.
pub open spec fn old_name_in(s: Seq<char>) -> Seq<char> {
    match after_prefix(s, "\"a/"@) {
        Some(q) => match before_suffix(q, "\""@) {
            Some(name) => name,
            None => s,
        },
        None => match after_prefix(s, "a/"@) {
            Some(name) => name,
            None => s,
        },
    }
}

/// A header whose new name git put in quotes, as it does with an unusual one: what
/// stands before the new name, and the text between `"b/` and the closing quote.
pub open spec fn quoted_cut(rest: Seq<char>) -> Option<(Seq<char>, Seq<char>)> {
    match cut_once(rest, " \"b/"@) {
        Some((old_side, q)) => match before_suffix(q, "\""@) {
            Some(name) => Some((old_side, name)),
            None => None,
        },
        None => None,
    }
}

/// The old and the new name in a `diff --git a/<old> b/<new>` line. A line that
/// cannot be taken apart gives its rest for both: no file is left out for its name.
pub open spec fn header_names(line: Seq<char>) -> Option<(Seq<char>, Seq<char>)> {
    match after_prefix(line, "diff --git "@) {
        Some(rest) => Some(
            match quoted_cut(rest) {
                Some((old_side, name)) => (old_name_in(old_side), name),
                None => match cut_once(rest, " b/"@) {
                    Some((old_side, name)) => (old_name_in(old_side), name),
                    None => (rest, rest),
                },
            },
        ),
        None => None,
    }
}

/// What happened to the file of a chunk.
pub open spec fn chunk_status(chunk: Seq<char>) -> ChangeStatus {
    if holds(lower(chunk), "new file mode"@) {
        ChangeStatus::Added
    } else if holds(lower(chunk), "deleted file mode"@) {
        ChangeStatus::Deleted
    } else if holds(lower(chunk), "rename from"@) {
        ChangeStatus::Renamed
    } else {
        ChangeStatus::Modified
    }
}

/// The change that a chunk of a diff tells of.
pub open spec fn chunk_change(chunk: Seq<char>) -> Option<ChangeView> {
    if line_seq(chunk).len() == 0 {
        None
    } else {
        match header_names(line_seq(chunk)[0]) {
            Some((old_name, new_name)) => Some(
                ChangeView {
                    name: new_name,
                    prev_name: if old_name != new_name {
                        Some(old_name)
                    } else {
                        None
                    },
                    status: chunk_status(chunk),
                    patch: chunk,
                    contents: None,
                },
            ),
            None => None,
        }
    }
}

/// The chunks of a diff, one for each file: each starts at a `diff --git ` line,
/// and what comes before the first is no part of any.
pub open spec fn chunks(lines: Seq<Seq<char>>) -> Seq<Seq<char>>
    decreases lines.len(),
{
    if lines.len() == 0 {
        Seq::empty()
    } else {
        let rest = chunks(lines.drop_last());
        if begins(lines.last(), "diff --git "@) {
            rest.push(lines.last())
        } else if rest.len() > 0 {
            rest.drop_last().push(rest.last() + "\n"@ + lines.last())
        } else {
            rest
        }
    }
}

/// The changes that a list of chunks tells of.
pub open spec fn changes_in(chunks: Seq<Seq<char>>) -> Seq<ChangeView>
    decreases chunks.len(),
{
    if chunks.len() == 0 {
        Seq::empty()
    } else {
        let rest = changes_in(chunks.drop_last());
        match chunk_change(chunks.last()) {
            Some(c) => rest.push(c),
            None => rest,
        }
    }
}

/// The changes that a diff tells of.
pub open spec fn diff_changes(patch: Seq<char>) -> Seq<ChangeView> {
    changes_in(chunks(line_seq(patch)))
}

fn bare_old_name(s: &str) -> (r: String)
    ensures
        r@ == old_name_in(s@),
{
    match text::strip_prefix(s, "\"a/") {
        Some(q) => match text::strip_suffix(q.as_str(), "\"") {
            Some(name) => name,
            None => text::owned(s),
        },
        None => match text::strip_prefix(s, "a/") {
            Some(name) => name,
            None => text::owned(s),
        },
    }
}

fn cut_quoted(rest: &str) -> (r: Option<(String, String)>)
    ensures
        text::opt_pair(r) == quoted_cut(rest@),
{
    match text::split_once(rest, " \"b/") {
        Some((old_side, q)) => match text::strip_suffix(q.as_str(), "\"") {
            Some(name) => Some((old_side, name)),
            None => None,
        },
        None => None,
    }
}

/// The names in a `diff --git a/<old> b/<new>` line.
pub fn parse_diffgit_header(line: &str) -> (r: Option<(String, String)>)
    ensures
        text::opt_pair(r) == header_names(line@),
{
    match text::strip_prefix(line, "diff --git ") {
        Some(rest) => match cut_quoted(rest.as_str()) {
            Some((old_side, name)) => Some((bare_old_name(old_side.as_str()), name)),
            None => match text::split_once(rest.as_str(), " b/") {
                Some((old_side, name)) => Some((bare_old_name(old_side.as_str()), name)),
                None => Some((rest.clone(), rest)),
            },
        },
        None => None,
    }
}

fn status_of(chunk: &str) -> (r: ChangeStatus)
    ensures
        r == chunk_status(chunk@),
{
    let small = text::lower_string(chunk);
    let s = small.as_str();
    if text::contains(s, "new file mode") {
        ChangeStatus::Added
    } else if text::contains(s, "deleted file mode") {
        ChangeStatus::Deleted
    } else if text::contains(s, "rename from") {
        ChangeStatus::Renamed
    } else {
        ChangeStatus::Modified
    }
}

/// The change that a chunk of a diff tells of.
pub fn parse_chunk(chunk: &str) -> (r: Option<Change>)
    ensures
        match r {
            Some(c) => chunk_change(chunk@) == Some(c@),
            None => chunk_change(chunk@) is None,
        },
{
    let lines = text::lines(chunk);
    if lines.len() == 0 {
        return None;
    }
    assert(texts(lines@)[0] == lines@[0]@);
    match parse_diffgit_header(lines[0].as_str()) {
        Some((old_name, new_name)) => {
            let renamed = !text::same(old_name.as_str(), new_name.as_str());
            Some(
                Change {
                    name: new_name,
                    prev_name: if renamed {
                        Some(old_name)
                    } else {
                        None
                    },
                    status: status_of(chunk),
                    patch: text::owned(chunk),
                    contents: None,
                },
            )
        },
        None => None,
    }
}

fn split_chunks(lines: &Vec<String>) -> (r: Vec<String>)
    ensures
        texts(r@) == chunks(texts(lines@)),
{
    let mut out: Vec<String> = Vec::new();
    let ghost all = texts(lines@);
    let mut i: usize = 0;
    assert(all.take(0) =~= Seq::empty());
    assert(texts(out@) =~= Seq::empty());
    while i < lines.len()
        invariant
            i <= lines@.len(),
            all == texts(lines@),
            texts(out@) == chunks(all.take(i as int)),
        decreases lines@.len() - i,
    {
        let ghost before = texts(out@);
        let line = lines[i].as_str();
        proof {
            assert(all.take(i + 1).drop_last() =~= all.take(i as int));
            assert(all.take(i + 1).last() == line@);
        }
        if text::starts_with(line, "diff --git ") {
            out.push(text::owned(line));
            assert(texts(out@) =~= before.push(line@));
        } else if out.len() > 0 {
            let last = out.len() - 1;
            let longer = text::concat3(out[last].as_str(), "\n", line);
            assert(before.last() == out@[last as int]@);
            out.set(last, longer);
            assert(texts(out@) =~= before.drop_last().push(longer@));
        }
        i += 1;
    }
    assert(all.take(all.len() as int) =~= all);
    out
}

/// The changes that the output of `git diff` tells of, one for each file.
pub fn parse_diff(patch: &str) -> (r: Vec<Change>)
    ensures
        change_views(r@) == diff_changes(patch@),
{
    let lines = text::lines(patch);
    let parts = split_chunks(&lines);
    let ghost all = texts(parts@);
    let mut out: Vec<Change> = Vec::new();
    let mut i: usize = 0;
    assert(all.take(0) =~= Seq::empty());
    assert(change_views(out@) =~= Seq::empty());
    while i < parts.len()
        invariant
            i <= parts@.len(),
            all == texts(parts@),
            change_views(out@) == changes_in(all.take(i as int)),
        decreases parts@.len() - i,
    {
        let ghost before = change_views(out@);
        proof {
            assert(all.take(i + 1).drop_last() =~= all.take(i as int));
            assert(all.take(i + 1).last() == parts@[i as int]@);
        }
        if let Some(change) = parse_chunk(parts[i].as_str()) {
            let ghost c = change@;
            out.push(change);
            assert(change_views(out@) =~= before.push(c));
        }
        i += 1;
    }
    assert(all.take(all.len() as int) =~= all);
    out
}

// ---------------------------------------------------------------------------
// Collecting
// ---------------------------------------------------------------------------

/// The git commands whose output tells of the changes that are asked for: a commit
/// wins over the staged and the unstaged ones.
pub open spec fn diff_commands(staged: bool, unstaged: bool, commit: Option<Seq<char>>) -> Seq<
    Seq<Seq<char>>,
> {
    match commit {
        Some(c) => seq![seq!["diff"@, "--no-color"@, c]],
        None => (if staged {
            seq![seq!["diff"@, "--cached"@, "--no-color"@, "--"@]]
        } else {
            Seq::empty()
        }) + (if unstaged {
            seq![seq!["diff"@, "--no-color"@, "--"@]]
        } else {
            Seq::empty()
        }),
    }
}

/// The views of a list of commands.
pub open spec fn command_views(v: Seq<Vec<String>>) -> Seq<Seq<Seq<char>>> {
    Seq::new(v.len(), |i: int| texts(v[i]@))
}

/// The git commands whose output tells of the changes that are asked for.
pub fn diff_args(staged: bool, unstaged: bool, commit: Option<&str>) -> (r: Vec<Vec<String>>)
    ensures
        command_views(r@) == diff_commands(staged, unstaged, text::opt_str(commit)),
{
    let mut out: Vec<Vec<String>> = Vec::new();
    if let Some(c) = commit {
        let args = vec![text::owned("diff"), text::owned("--no-color"), text::owned(c)];
        assert(texts(args@) =~= seq!["diff"@, "--no-color"@, c@]);
        out.push(args);
        assert(command_views(out@) =~= seq![seq!["diff"@, "--no-color"@, c@]]);
        return out;
    }
    if staged {
        let args = vec![
            text::owned("diff"),
            text::owned("--cached"),
            text::owned("--no-color"),
            text::owned("--"),
        ];
        assert(texts(args@) =~= seq!["diff"@, "--cached"@, "--no-color"@, "--"@]);
        out.push(args);
    }
    if unstaged {
        let args = vec![text::owned("diff"), text::owned("--no-color"), text::owned("--")];
        assert(texts(args@) =~= seq!["diff"@, "--no-color"@, "--"@]);
        out.push(args);
    }
    assert(command_views(out@) =~= diff_commands(staged, unstaged, text::opt_str(commit)));
    out
}

/// A file may be sent to the phone: it could be read, and is not too large.
pub open spec fn may_ship(size: Option<usize>) -> bool {
    size matches Some(n) && n <= MAX_UNTRACKED_BYTES
}

/// Whether a file of that size may be sent to the phone; `None` for one that
/// could not be read.
pub fn ships(size: Option<usize>) -> (r: bool)
    ensures
        r == may_ship(size),
{
    match size {
        Some(n) => n <= MAX_UNTRACKED_BYTES,
        None => false,
    }
}

/// An untracked file, with its size in bytes and what it holds as text; a file
/// that could not be read has no size.
#[derive(Debug)]
pub struct UntrackedFile {
    pub name: String,
    pub size: Option<usize>,
    pub text: String,
}

/// An untracked file as a change: one that may not be sent is listed without what
/// it holds.
pub open spec fn untracked_view(f: UntrackedFile) -> ChangeView {
    ChangeView {
        name: f.name@,
        prev_name: None,
        status: ChangeStatus::Untracked,
        patch: Seq::empty(),
        contents: Some(
            if may_ship(f.size) {
                f.text@
            } else {
                Seq::empty()
            },
        ),
    }
}

/// The changes in a list of git outputs, in order.
pub open spec fn patches_changes(patches: Seq<Seq<char>>) -> Seq<ChangeView>
    decreases patches.len(),
{
    if patches.len() == 0 {
        Seq::empty()
    } else {
        patches_changes(patches.drop_last()) + diff_changes(patches.last())
    }
}

/// The changes that a request is answered with: those of the git outputs, then the
/// untracked files.
pub fn collect_changes(patches: &Vec<String>, untracked: &Vec<UntrackedFile>) -> (r: Vec<Change>)
    ensures
        change_views(r@) == patches_changes(texts(patches@)) + Seq::new(
            untracked@.len(),
            |i: int| untracked_view(untracked@[i]),
        ),
{
    let mut out: Vec<Change> = Vec::new();
    let ghost all = texts(patches@);
    let mut i: usize = 0;
    assert(all.take(0) =~= Seq::empty());
    assert(change_views(out@) =~= Seq::empty());
    while i < patches.len()
        invariant
            i <= patches@.len(),
            all == texts(patches@),
            change_views(out@) == patches_changes(all.take(i as int)),
        decreases patches@.len() - i,
    {
        let ghost before = change_views(out@);
        proof {
            assert(all.take(i + 1).drop_last() =~= all.take(i as int));
            assert(all.take(i + 1).last() == patches@[i as int]@);
        }
        let mut more = parse_diff(patches[i].as_str());
        let ghost had = out@;
        let ghost new = more@;
        out.append(&mut more);
        assert(out@ =~= had + new);
        assert(change_views(out@) =~= before + change_views(new));
        i += 1;
    }
    assert(all.take(all.len() as int) =~= all);
    let ghost known = change_views(out@);
    let mut k: usize = 0;
    while k < untracked.len()
        invariant
            k <= untracked@.len(),
            change_views(out@) =~= known + Seq::new(
                k as nat,
                |j: int| untracked_view(untracked@[j]),
            ),
        decreases untracked@.len() - k,
    {
        let f = &untracked[k];
        let contents = if ships(f.size) {
            f.text.clone()
        } else {
            String::new()
        };
        let ghost had = change_views(out@);
        let change = Change {
            name: f.name.clone(),
            prev_name: None,
            status: ChangeStatus::Untracked,
            patch: String::new(),
            contents: Some(contents),
        };
        proof {
            assert(change.patch@ =~= Seq::empty());
            assert(contents@ =~= untracked_view(untracked@[k as int]).contents->0);
            assert(change@ == untracked_view(untracked@[k as int]));
        }
        let ghost c = change@;
        out.push(change);
        assert(change_views(out@) =~= had.push(c));
        k += 1;
    }
    out
}

// ---------------------------------------------------------------------------
// Browsing
// ---------------------------------------------------------------------------

/// The git commands whose output tells of the files that are asked for: those of a
/// commit, or of the work tree. The work tree takes two: the files that git tracks
/// with the untracked ones that it does not ignore, and those that it tracks and
/// that are gone.
pub open spec fn list_commands(commit: Option<Seq<char>>) -> Seq<Seq<Seq<char>>> {
    match commit {
        Some(c) => seq![seq!["ls-tree"@, "-r"@, "--name-only"@, c]],
        None => seq![
            seq!["ls-files"@, "--cached"@, "--others"@, "--exclude-standard"@],
            seq!["ls-files"@, "--deleted"@],
        ],
    }
}

/// The git commands whose output tells of the files that are asked for.
pub fn list_args(commit: Option<&str>) -> (r: Vec<Vec<String>>)
    ensures
        command_views(r@) == list_commands(text::opt_str(commit)),
{
    let mut out: Vec<Vec<String>> = Vec::new();
    if let Some(c) = commit {
        let args = vec![
            text::owned("ls-tree"),
            text::owned("-r"),
            text::owned("--name-only"),
            text::owned(c),
        ];
        assert(texts(args@) =~= seq!["ls-tree"@, "-r"@, "--name-only"@, c@]);
        out.push(args);
    } else {
        let present = vec![
            text::owned("ls-files"),
            text::owned("--cached"),
            text::owned("--others"),
            text::owned("--exclude-standard"),
        ];
        assert(texts(present@)
            =~= seq!["ls-files"@, "--cached"@, "--others"@, "--exclude-standard"@]);
        out.push(present);
        let gone = vec![text::owned("ls-files"), text::owned("--deleted")];
        assert(texts(gone@) =~= seq!["ls-files"@, "--deleted"@]);
        out.push(gone);
    }
    assert(command_views(out@) =~= list_commands(text::opt_str(commit)));
    out
}

/// The files of the work tree, each once, in order. `listed` is what git tracks and
/// what is untracked and not ignored, `deleted` what it tracks and is gone, both as
/// git lists them.
pub fn list_files(listed: &str, deleted: &str) -> (r: Vec<String>)
    ensures
        in_order(texts(r@)),
        texts(r@).no_duplicates(),
        forall|f: Seq<char>| #[trigger]
            texts(r@).contains(f) <==> line_seq(listed@).contains(f) && !line_seq(
                deleted@,
            ).contains(f),
{
    let known = text::lines(listed);
    let gone = text::lines(deleted);
    let ghost all = line_seq(listed@);
    let ghost out = line_seq(deleted@);
    let mut files: Vec<String> = Vec::new();
    let mut i: usize = 0;
    assert(all.take(0) =~= Seq::empty());
    while i < known.len()
        invariant
            i <= known@.len(),
            all == texts(known@),
            out == texts(gone@),
            texts(files@).no_duplicates(),
            forall|f: Seq<char>| #[trigger]
                texts(files@).contains(f) <==> all.take(i as int).contains(f) && !out.contains(f),
        decreases known@.len() - i,
    {
        let ghost before = texts(files@);
        let ghost name = known@[i as int]@;
        proof {
            assert(all.take(i + 1) =~= all.take(i as int).push(name));
            assert forall|f: Seq<char>| #[trigger]
                all.take(i + 1).contains(f) <==> all.take(i as int).contains(f) || f == name by {
                lemma_push_contains(all.take(i as int), name, f);
            }
        }
        if !text::list_holds(&files, known[i].as_str()) && !text::list_holds(
            &gone,
            known[i].as_str(),
        ) {
            files.push(known[i].clone());
            proof {
                assert(texts(files@) =~= before.push(name));
                assert forall|f: Seq<char>| #[trigger]
                    texts(files@).contains(f) <==> before.contains(f) || f == name by {
                    lemma_push_contains(before, name, f);
                }
            }
        }
        i += 1;
    }
    assert(all.take(all.len() as int) =~= all);
    let r = text::sort(&files);
    proof {
        lemma_same_texts(texts(files@), texts(r@));
    }
    r
}

proof fn lemma_push_contains(s: Seq<Seq<char>>, x: Seq<char>, f: Seq<char>)
    ensures
        s.push(x).contains(f) <==> s.contains(f) || f == x,
{
    let p = s.push(x);
    if s.contains(f) {
        let i = choose|i: int| 0 <= i < s.len() && s[i] == f;
        assert(p[i] == f);
    }
    if f == x {
        assert(p[s.len() as int] == f);
    }
    if p.contains(f) {
        let i = choose|i: int| 0 <= i < p.len() && p[i] == f;
        if i < s.len() {
            assert(s[i] == f);
        }
    }
}

/// Lists with the same texts hold the same, and neither or both hold one twice.
proof fn lemma_same_texts(a: Seq<Seq<char>>, b: Seq<Seq<char>>)
    requires
        a.no_duplicates(),
        same_texts(a, b),
    ensures
        b.no_duplicates(),
        forall|f: Seq<char>| #[trigger] b.contains(f) <==> a.contains(f),
{
    broadcast use vstd::seq_lib::group_to_multiset_ensures;

    a.lemma_multiset_has_no_duplicates();
    b.lemma_multiset_has_no_duplicates_conv();
    assert forall|f: Seq<char>| #[trigger] b.contains(f) <==> a.contains(f) by {
        assert(a.to_multiset().count(f) == b.to_multiset().count(f));
    }
}

/// The files of a commit, as git lists them.
pub fn list_commit_files(output: &str) -> (r: Vec<String>)
    ensures
        texts(r@) == line_seq(output@),
{
    text::lines(output)
}

/// The name of a file at a commit, as git takes it.
pub fn blob_name(commit: &str, rel: &str) -> (r: String)
    ensures
        r@ == commit@ + ":"@ + rel@,
{
    text::concat3(commit, ":", rel)
}

/// The components of a resolved path.
pub open spec fn components(path: Seq<char>) -> Seq<Seq<char>> {
    pieces(path, '/').filter(|p: Seq<char>| p.len() > 0)
}

/// An absolute, resolved path is inside another: its components begin with those.
pub open spec fn is_inside(root: Seq<char>, path: Seq<char>) -> bool {
    &&& begins(root, "/"@)
    &&& begins(path, "/"@)
    &&& components(root).is_prefix_of(components(path))
}

/// Why a file is not read.
#[derive(Debug, Clone, Copy, PartialEq, Eq, Structural)]
pub enum PathRefusal {
    Missing,
    Escapes,
    Empty,
}

/// Why a path is refused, if it is: `canonical` is where it leads once every link
/// and every `..` is followed, if it leads anywhere.
pub open spec fn refusal(root: Seq<char>, canonical: Option<Seq<char>>) -> Option<PathRefusal> {
    match canonical {
        None => Some(PathRefusal::Missing),
        Some(path) => if !is_inside(root, path) {
            Some(PathRefusal::Escapes)
        } else if components(path).len() == 0 {
            Some(PathRefusal::Empty)
        } else {
            None
        },
    }
}

impl PathRefusal {
    /// The message for the user.
    pub fn message(&self, rel: &str) -> (r: String)
        ensures
            r@ == match *self {
                PathRefusal::Missing => "no such file: "@ + rel@,
                PathRefusal::Escapes => "path escapes repo root: "@ + rel@,
                PathRefusal::Empty => "empty path"@,
            },
    {
        match self {
            PathRefusal::Missing => text::concat2("no such file: ", rel),
            PathRefusal::Escapes => text::concat2("path escapes repo root: ", rel),
            PathRefusal::Empty => text::owned("empty path"),
        }
    }
}

/// The components of a resolved path.
fn path_components(path: &str) -> (r: Vec<String>)
    ensures
        texts(r@) == components(path@),
{
    let parts = text::split_char(path, '/');
    let ghost all = texts(parts@);
    let ghost keep = |p: Seq<char>| p.len() > 0;
    let mut out: Vec<String> = Vec::new();
    let mut i: usize = 0;
    assert(texts(out@) =~= Seq::empty());
    proof {
        reveal(Seq::filter);
        assert(all.take(0).filter(keep) =~= Seq::empty());
    }
    while i < parts.len()
        invariant
            i <= parts@.len(),
            all == texts(parts@),
            keep == (|p: Seq<char>| p.len() > 0),
            texts(out@) == all.take(i as int).filter(keep),
        decreases parts@.len() - i,
    {
        let ghost before = texts(out@);
        proof {
            assert(all.take(i + 1).drop_last() =~= all.take(i as int));
            assert(all.take(i + 1).last() == parts@[i as int]@);
            reveal(Seq::filter);
        }
        if !parts[i].as_str().is_empty() {
            out.push(parts[i].clone());
            assert(texts(out@) =~= before.push(parts@[i as int]@));
        }
        i += 1;
    }
    assert(all.take(all.len() as int) =~= all);
    out
}

fn inside(root: &str, path: &str) -> (r: bool)
    ensures
        r == is_inside(root@, path@),
{
    if !text::starts_with(root, "/") || !text::starts_with(path, "/") {
        return false;
    }
    let a = path_components(root);
    let b = path_components(path);
    assert(texts(a@).len() == a@.len() && texts(b@).len() == b@.len());
    if a.len() > b.len() {
        return false;
    }
    let mut i: usize = 0;
    while i < a.len()
        invariant
            i <= a@.len() <= b@.len(),
            texts(a@).take(i as int) =~= texts(b@).take(i as int),
            texts(a@) == components(root@),
            texts(b@) == components(path@),
            texts(a@).len() == a@.len(),
            texts(b@).len() == b@.len(),
        decreases a@.len() - i,
    {
        assert(texts(a@)[i as int] == a@[i as int]@);
        assert(texts(b@)[i as int] == b@[i as int]@);
        if !text::same(a[i].as_str(), b[i].as_str()) {
            proof {
                if components(root@).is_prefix_of(components(path@)) {
                    assert(texts(b@).subrange(0, a@.len() as int)[i as int] == texts(a@)[i as int]);
                }
            }
            return false;
        }
        assert(texts(a@).take(i + 1) =~= texts(a@).take(i as int).push(a@[i as int]@));
        assert(texts(b@).take(i + 1) =~= texts(b@).take(i as int).push(b@[i as int]@));
        i += 1;
    }
    assert(texts(a@).take(a@.len() as int) =~= texts(a@));
    assert(texts(b@).subrange(0, a@.len() as int) =~= texts(b@).take(a@.len() as int));
    true
}

/// Lets a path through only where it stays inside the work tree.
pub fn resolve_in(root: &str, canonical: Option<&str>) -> (r: Result<String, PathRefusal>)
    ensures
        match r {
            Ok(path) => refusal(root@, text::opt_str(canonical)) is None && canonical is Some
                && path@ == canonical->0@,
            Err(e) => refusal(root@, text::opt_str(canonical)) == Some(e),
        },
{
    match canonical {
        None => Err(PathRefusal::Missing),
        Some(path) => {
            if !inside(root, path) {
                return Err(PathRefusal::Escapes);
            }
            let parts = path_components(path);
            assert(texts(parts@).len() == parts@.len());
            if parts.len() == 0 {
                return Err(PathRefusal::Empty);
            }
            Ok(text::owned(path))
        },
    }
}

/// A file that is to be read from the work tree: one that does not exist is found
/// to be none, and is no error.
pub fn file_found(r: Result<String, PathRefusal>) -> (found: Result<Option<String>, PathRefusal>)
    ensures
        match r {
            Ok(path) => found matches Ok(Some(p)) && p@ == path@,
            Err(PathRefusal::Missing) => found matches Ok(None),
            Err(e) => found == Err::<Option<String>, PathRefusal>(e),
        },
{
    match r {
        Ok(path) => Ok(Some(path)),
        Err(PathRefusal::Missing) => Ok(None),
        Err(e) => Err(e),
    }
}

// ---------------------------------------------------------------------------
// Laws
// ---------------------------------------------------------------------------

/// Every change that is read from git's output shows a part of that output which
/// starts at a `diff --git ` line.
pub proof fn law_patches_start_at_a_header(lines: Seq<Seq<char>>, i: int)
    requires
        0 <= i < chunks(lines).len(),
    ensures
        begins(chunks(lines)[i], "diff --git "@),
    decreases lines.len(),
{
    let rest = chunks(lines.drop_last());
    let head = "diff --git "@;
    if begins(lines.last(), head) {
        if i < rest.len() {
            law_patches_start_at_a_header(lines.drop_last(), i);
        }
    } else if rest.len() > 0 {
        law_patches_start_at_a_header(lines.drop_last(), i);
        if i == rest.len() - 1 {
            let longer = rest.last() + "\n"@ + lines.last();
            assert(longer.subrange(0, head.len() as int) =~= rest.last().subrange(
                0,
                head.len() as int,
            ));
        }
    }
}

/// The first line of a text that starts at a header does so too.
proof fn lemma_first_line(chunk: Seq<char>)
    requires
        begins(chunk, "diff --git "@),
    ensures
        line_seq(chunk).len() > 0,
        begins(line_seq(chunk)[0], "diff --git "@),
{
    let head = "diff --git "@;
    reveal_strlit("diff --git ");
    assert(head.len() == 11 && head[10] == ' ');
    assert forall|i: int| 0 <= i < 11 implies chunk[i] == head[i] by {
        assert(chunk.subrange(0, 11)[i] == chunk[i]);
    }
    let p = text::pos(chunk, '\n');
    text::lemma_pos(chunk, '\n');
    let line = line_seq(chunk)[0];
    if p < chunk.len() {
        assert(p >= 11);
        assert(line == text::chomped(chunk.take(p)));
        assert(chunk.take(p).last() == chunk[p - 1]);
    }
    assert(line.len() >= 11);
    assert(line.subrange(0, 11) =~= head);
}

proof fn lemma_changes_in(parts: Seq<Seq<char>>)
    requires
        forall|i: int| 0 <= i < parts.len() ==> begins(#[trigger] parts[i], "diff --git "@),
    ensures
        changes_in(parts).len() == parts.len(),
        forall|i: int| 0 <= i < parts.len() ==> (#[trigger] changes_in(parts)[i]).patch == parts[i],
    decreases parts.len(),
{
    if parts.len() > 0 {
        lemma_first_line(parts.last());
        lemma_changes_in(parts.drop_last());
        assert forall|i: int| 0 <= i < parts.len() implies (#[trigger] changes_in(parts)[i]).patch
            == parts[i] by {
            if i < parts.len() - 1 {
                assert(parts.drop_last()[i] == parts[i]);
            }
        }
    }
}

/// Every file of a diff is shown, whatever its name: there is a change for each
/// chunk, and its patch is that chunk.
pub proof fn law_every_chunk_is_shown(patch: Seq<char>)
    ensures
        diff_changes(patch).len() == chunks(line_seq(patch)).len(),
        forall|i: int|
            0 <= i < diff_changes(patch).len() ==> (#[trigger] diff_changes(patch)[i]).patch
                == chunks(line_seq(patch))[i],
{
    let parts = chunks(line_seq(patch));
    assert forall|i: int| 0 <= i < parts.len() implies begins(
        #[trigger] parts[i],
        "diff --git "@,
    ) by {
        law_patches_start_at_a_header(line_seq(patch), i);
    }
    lemma_changes_in(parts);
}

/// A path is let through only inside the work tree, and only where it leads
/// somewhere.
pub proof fn law_reads_stay_inside(root: Seq<char>, canonical: Option<Seq<char>>)
    ensures
        refusal(root, canonical) is None ==> canonical is Some && is_inside(root, canonical->0),
{
}

} // verus!
