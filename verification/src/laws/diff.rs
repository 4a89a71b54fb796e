//! Laws of diffs: the names in a header, the state of a file, and the changes that
//! a whole diff tells of.

use crate::diff::{
    changes_in, chunk_change, chunk_status, chunks, diff_changes, diff_commands, header_names,
    patches_changes, untracked_view, ChangeStatus, ChangeView, UntrackedFile,
};
use crate::laws::text::{law_cut_is_at_the_first, law_lines, law_search_misses_nothing};
use crate::text::{
    begins, holds, joined, lemma_found_from, lemma_pos, line_seq, lower, pos, stands_at,
};
use vstd::prelude::*;

verus! {

/// The header of a file's diff tells the two names in full, directories and
/// blanks and all.
pub proof fn law_header_tells_both_names(old_name: Seq<char>, new_name: Seq<char>)
    requires
        !holds(old_name, " b/"@),
        !old_name.contains('"'),
        !new_name.contains('"'),
    ensures
        header_names("diff --git a/"@ + old_name + " b/"@ + new_name) == Some(
            (old_name, new_name),
        ),
{
    let line = "diff --git a/"@ + old_name + " b/"@ + new_name;
    let rest = "a/"@ + old_name + " b/"@ + new_name;
    reveal_strlit("diff --git a/");
    reveal_strlit("diff --git ");
    reveal_strlit("a/");
    reveal_strlit("\"a/");
    reveal_strlit(" b/");
    reveal_strlit(" \"b/");
    assert("diff --git a/"@ =~= "diff --git "@ + "a/"@);
    assert(line.subrange(0, 11) =~= "diff --git "@);
    assert(line.skip(11) =~= rest);
    let side = "a/"@ + old_name;
    assert(rest =~= side + " b/"@ + new_name);
    assert forall|i: int| 0 <= i < rest.len() implies rest[i] != '"' by {
        if i < 2 {
        } else if i < 2 + old_name.len() {
            assert(old_name.contains(old_name[i - 2]));
        } else if i < 5 + old_name.len() {
        } else {
            assert(new_name.contains(new_name[i - 5 - old_name.len()]));
        }
    }
    assert forall|j: int| 0 <= j && j + 4 <= rest.len() implies #[trigger] rest.subrange(j, j + 4)
        != " \"b/"@ by {
        assert(rest.subrange(j, j + 4)[1] == rest[j + 1]);
        assert(" \"b/"@[1] == '"');
    }
    law_search_misses_nothing(rest, " \"b/"@);
    assert forall|j: int| 0 <= j < side.len() implies #[trigger] (side + " b/"@
        + new_name).subrange(j, j + 3) != " b/"@ by {
        let part = rest.subrange(j, j + 3);
        if part == " b/"@ {
            assert(part[0] == rest[j] && part[1] == rest[j + 1] && part[2] == rest[j + 2]);
            assert(rest[j] == ' ' && rest[j + 1] == 'b' && rest[j + 2] == '/');
            if j >= 2 && j + 3 <= side.len() {
                assert(old_name.subrange(j - 2, j + 1) =~= part);
                assert(stands_at(old_name, " b/"@, j - 2));
            }
        }
    }
    law_cut_is_at_the_first(side, " b/"@, new_name);
    assert(side.subrange(0, 2) =~= "a/"@);
    assert(side.skip(2) =~= old_name);
    if begins(side, "\"a/"@) {
        assert(side.subrange(0, 3)[0] == side[0]);
    }
}

/// A name that git put in quotes is told without them.
pub proof fn law_quoted_header_tells_both_names(old_name: Seq<char>, new_name: Seq<char>)
    requires
        !old_name.contains('"'),
        !new_name.contains('"'),
    ensures
        header_names("diff --git \"a/"@ + old_name + "\" \"b/"@ + new_name + "\""@) == Some(
            (old_name, new_name),
        ),
{
    let line = "diff --git \"a/"@ + old_name + "\" \"b/"@ + new_name + "\""@;
    let side = "\"a/"@ + old_name + "\""@;
    let q = new_name + "\""@;
    let rest = side + " \"b/"@ + q;
    reveal_strlit("diff --git \"a/");
    reveal_strlit("diff --git ");
    reveal_strlit("\"a/");
    reveal_strlit("\"");
    reveal_strlit(" \"b/");
    reveal_strlit("\" \"b/");
    assert(line.subrange(0, 11) =~= "diff --git "@);
    assert(line.skip(11) =~= rest);
    assert forall|j: int| 0 <= j < side.len() implies #[trigger] (side + " \"b/"@ + q).subrange(
        j,
        j + 4,
    ) != " \"b/"@ by {
        let part = rest.subrange(j, j + 4);
        if part == " \"b/"@ {
            assert(part[0] == rest[j] && part[1] == rest[j + 1]);
            assert(rest[j] == ' ' && rest[j + 1] == '"');
            if j + 1 < side.len() - 1 {
                assert(old_name.contains(old_name[j + 1 - 3]));
            } else if j + 1 == side.len() - 1 {
                assert(part[2] == rest[j + 2]);
                assert(rest[j + 2] == ' ');
            }
        }
    }
    law_cut_is_at_the_first(side, " \"b/"@, q);
    assert(q.subrange(q.len() - 1, q.len() as int) =~= "\""@);
    assert(q.take(q.len() - 1) =~= new_name);
    assert(side.subrange(0, 3) =~= "\"a/"@);
    let inner = side.skip(3);
    assert(inner =~= old_name + "\""@);
    assert(inner.subrange(inner.len() - 1, inner.len() as int) =~= "\""@);
    assert(inner.take(inner.len() - 1) =~= old_name);
}

/// A header without the usual `a/` tells the old name as it stands there.
pub proof fn law_bare_old_name(old_name: Seq<char>, new_name: Seq<char>)
    requires
        !holds(old_name, " b/"@),
        !begins(old_name, "a/"@),
        !old_name.contains('"'),
        !new_name.contains('"'),
    ensures
        header_names("diff --git "@ + old_name + " b/"@ + new_name) == Some((old_name, new_name)),
{
    let line = "diff --git "@ + old_name + " b/"@ + new_name;
    let rest = old_name + " b/"@ + new_name;
    let n = old_name.len() as int;
    reveal_strlit("diff --git ");
    reveal_strlit("\"a/");
    reveal_strlit(" b/");
    reveal_strlit(" \"b/");
    assert(line.subrange(0, 11) =~= "diff --git "@);
    assert(line.skip(11) =~= rest);
    assert forall|i: int| 0 <= i < rest.len() implies rest[i] != '"' by {
        if i < n {
            assert(old_name.contains(old_name[i]));
        } else if i >= n + 3 {
            assert(new_name.contains(new_name[i - n - 3]));
        }
    }
    assert forall|j: int| 0 <= j && j + 4 <= rest.len() implies #[trigger] rest.subrange(j, j + 4)
        != " \"b/"@ by {
        assert(rest.subrange(j, j + 4)[1] == rest[j + 1]);
        assert(" \"b/"@[1] == '"');
    }
    law_search_misses_nothing(rest, " \"b/"@);
    assert forall|j: int| 0 <= j < n implies #[trigger] (old_name + " b/"@ + new_name).subrange(
        j,
        j + 3,
    ) != " b/"@ by {
        let part = rest.subrange(j, j + 3);
        if part == " b/"@ {
            assert(part[0] == rest[j] && part[1] == rest[j + 1] && part[2] == rest[j + 2]);
            assert(rest[j] == ' ' && rest[j + 1] == 'b' && rest[j + 2] == '/');
            if j + 3 <= n {
                assert(old_name.subrange(j, j + 3) =~= part);
                assert(stands_at(old_name, " b/"@, j));
            }
        }
    }
    law_cut_is_at_the_first(old_name, " b/"@, new_name);
    if begins(old_name, "\"a/"@) {
        assert(old_name.subrange(0, 3)[0] == old_name[0]);
        assert(old_name.contains(old_name[0]));
    }
}

/// A header that cannot be taken apart gives what follows it for both names, so that
/// no file is left out; a line that is no header gives none.
pub proof fn law_odd_headers(rest: Seq<char>, other: Seq<char>)
    requires
        !rest.contains('"'),
        !holds(rest, " b/"@),
        !begins(other, "diff --git "@),
    ensures
        header_names("diff --git "@ + rest) == Some((rest, rest)),
        header_names(other) is None,
{
    let line = "diff --git "@ + rest;
    reveal_strlit("diff --git ");
    reveal_strlit(" \"b/");
    assert(line.subrange(0, 11) =~= "diff --git "@);
    assert(line.skip(11) =~= rest);
    assert forall|j: int| 0 <= j && j + 4 <= rest.len() implies #[trigger] rest.subrange(j, j + 4)
        != " \"b/"@ by {
        assert(rest.subrange(j, j + 4)[1] == rest[j + 1]);
        assert(" \"b/"@[1] == '"');
        assert(rest.contains(rest[j + 1]));
    }
    law_search_misses_nothing(rest, " \"b/"@);
    lemma_found_from(rest, " b/"@, 0);
}

/// The change of a file has the name that its header gives after `b/`, in full, and
/// the one after `a/` as its earlier name just where the two differ.
pub proof fn law_change_has_the_names(
    old_name: Seq<char>,
    new_name: Seq<char>,
    body: Seq<char>,
)
    requires
        !holds(old_name, " b/"@),
        !old_name.contains('"') && !old_name.contains('\n') && !old_name.contains('\r'),
        !new_name.contains('"') && !new_name.contains('\n') && !new_name.contains('\r'),
    ensures
        ({
            let header = "diff --git a/"@ + old_name + " b/"@ + new_name;
            forall|chunk: Seq<char>|
                chunk == header || chunk == header + seq!['\n'] + body ==> {
                    &&& #[trigger] chunk_change(chunk) is Some
                    &&& chunk_change(chunk)->0.name == new_name
                    &&& chunk_change(chunk)->0.prev_name == if old_name == new_name {
                        None
                    } else {
                        Some(old_name)
                    }
                    &&& chunk_change(chunk)->0.patch == chunk
                    &&& chunk_change(chunk)->0.contents is None
                }
        }),
{
    let header = "diff --git a/"@ + old_name + " b/"@ + new_name;
    law_header_tells_both_names(old_name, new_name);
    reveal_strlit("diff --git a/");
    reveal_strlit(" b/");
    let n = header.len() as int;
    assert forall|i: int| 0 <= i < n implies header[i] != '\n' && header[i] != '\r' by {
        if i < 13 {
        } else if i < 13 + old_name.len() {
            assert(old_name.contains(old_name[i - 13]));
        } else if i < 16 + old_name.len() {
        } else {
            assert(new_name.contains(new_name[i - 16 - old_name.len()]));
        }
    }
    law_lines(header, body);
}

/// Git's extended header lines say what happened to a file: a new one was added, a
/// deleted one removed, one that has another name now renamed, and any other
/// modified.
pub proof fn law_extended_header_tells_the_state(a: Seq<char>, b: Seq<char>)
    ensures
        chunk_status(a + "\nnew file mode "@ + b) == ChangeStatus::Added,
        !holds(lower(a + "\ndeleted file mode "@ + b), "new file mode"@) ==> chunk_status(
            a + "\ndeleted file mode "@ + b,
        ) == ChangeStatus::Deleted,
        !holds(lower(a + "\nrename from "@ + b), "new file mode"@) && !holds(
            lower(a + "\nrename from "@ + b),
            "deleted file mode"@,
        ) ==> chunk_status(a + "\nrename from "@ + b) == ChangeStatus::Renamed,
        !holds(lower(a), "file mode"@) && !holds(lower(a), "rename from"@) ==> chunk_status(a)
            == ChangeStatus::Modified,
{
    let n = a.len() as int;
    reveal_strlit("\nnew file mode ");
    reveal_strlit("new file mode");
    reveal_strlit("\ndeleted file mode ");
    reveal_strlit("deleted file mode");
    reveal_strlit("\nrename from ");
    reveal_strlit("rename from");
    reveal_strlit("file mode");
    let s = lower(a + "\nnew file mode "@ + b);
    assert(s.subrange(n + 1, n + 14) =~= "new file mode"@);
    assert(stands_at(s, "new file mode"@, n + 1));
    let s = lower(a + "\ndeleted file mode "@ + b);
    assert(s.subrange(n + 1, n + 18) =~= "deleted file mode"@);
    assert(stands_at(s, "deleted file mode"@, n + 1));
    let s = lower(a + "\nrename from "@ + b);
    assert(s.subrange(n + 1, n + 12) =~= "rename from"@);
    assert(stands_at(s, "rename from"@, n + 1));
    let s = lower(a);
    if holds(s, "new file mode"@) {
        let i = choose|i: int| #[trigger] stands_at(s, "new file mode"@, i);
        assert(s.subrange(i + 4, i + 13) =~= s.subrange(i, i + 13).subrange(4, 13));
        assert("new file mode"@.subrange(4, 13) =~= "file mode"@);
        assert(stands_at(s, "file mode"@, i + 4));
    }
    if holds(s, "deleted file mode"@) {
        let i = choose|i: int| #[trigger] stands_at(s, "deleted file mode"@, i);
        assert(s.subrange(i + 8, i + 17) =~= s.subrange(i, i + 17).subrange(8, 17));
        assert("deleted file mode"@.subrange(8, 17) =~= "file mode"@);
        assert(stands_at(s, "file mode"@, i + 8));
    }
}

/// The lines of a file, from its header to the next, are its patch, none left out
/// and in order.
pub proof fn law_patch_is_all_of_its_lines(lines: Seq<Seq<char>>)
    requires
        lines.len() > 0,
        begins(lines[0], "diff --git "@),
        forall|i: int| 1 <= i < lines.len() ==> !begins(#[trigger] lines[i], "diff --git "@),
    ensures
        chunks(lines) == seq![joined(lines, "\n"@)],
    decreases lines.len(),
{
    let init = lines.drop_last();
    if lines.len() == 1 {
        assert(chunks(init) =~= Seq::<Seq<char>>::empty());
        assert(chunks(lines) =~= seq![lines[0]]);
    } else {
        assert forall|i: int| 1 <= i < init.len() implies !begins(
            #[trigger] init[i],
            "diff --git "@,
        ) by {
            assert(init[i] == lines[i]);
        }
        assert(init[0] == lines[0]);
        law_patch_is_all_of_its_lines(init);
        assert(!begins(lines[lines.len() - 1], "diff --git "@));
        assert(chunks(lines) =~= seq![joined(init, "\n"@) + "\n"@ + lines.last()]);
    }
}

/// What comes before the first header belongs to no file.
pub proof fn law_lines_before_a_header_are_dropped(lines: Seq<Seq<char>>)
    requires
        forall|i: int| 0 <= i < lines.len() ==> !begins(#[trigger] lines[i], "diff --git "@),
    ensures
        chunks(lines) == Seq::<Seq<char>>::empty(),
    decreases lines.len(),
{
    if lines.len() > 0 {
        let init = lines.drop_last();
        assert forall|i: int| 0 <= i < init.len() implies !begins(
            #[trigger] init[i],
            "diff --git "@,
        ) by {
            assert(init[i] == lines[i]);
        }
        law_lines_before_a_header_are_dropped(init);
        assert(!begins(lines[lines.len() - 1], "diff --git "@));
    }
}

proof fn lemma_chunks_add(a: Seq<Seq<char>>, b: Seq<Seq<char>>)
    requires
        b.len() > 0 ==> begins(b[0], "diff --git "@),
    ensures
        chunks(a + b) == chunks(a) + chunks(b),
        b.len() > 0 ==> chunks(b).len() > 0,
    decreases b.len(),
{
    if b.len() == 0 {
        assert(a + b =~= a);
        assert(chunks(a) + chunks(b) =~= chunks(a));
    } else {
        let init = b.drop_last();
        assert((a + b).drop_last() =~= a + init);
        assert((a + b).last() == b.last());
        if init.len() > 0 {
            assert(init[0] == b[0]);
        }
        lemma_chunks_add(a, init);
        if begins(b.last(), "diff --git "@) {
            assert(chunks(a + b) =~= chunks(a) + chunks(b));
        } else {
            assert(init.len() > 0);
            assert((chunks(a) + chunks(init)).drop_last() =~= chunks(a) + chunks(init).drop_last());
            assert((chunks(a) + chunks(init)).last() == chunks(init).last());
            assert(chunks(a + b) =~= chunks(a) + chunks(b));
        }
    }
}

proof fn lemma_changes_add(a: Seq<Seq<char>>, b: Seq<Seq<char>>)
    ensures
        changes_in(a + b) == changes_in(a) + changes_in(b),
    decreases b.len(),
{
    if b.len() == 0 {
        assert(a + b =~= a);
        assert(changes_in(a) + changes_in(b) =~= changes_in(a));
    } else {
        assert((a + b).drop_last() =~= a + b.drop_last());
        assert((a + b).last() == b.last());
        lemma_changes_add(a, b.drop_last());
        assert(changes_in(a + b) =~= changes_in(a) + changes_in(b));
    }
}

proof fn lemma_lines_add(a: Seq<char>, b: Seq<char>)
    requires
        a.len() > 0 ==> a.last() == '\n',
    ensures
        line_seq(a + b) == line_seq(a) + line_seq(b),
    decreases a.len(),
{
    if a.len() == 0 {
        assert(a + b =~= b);
        assert(line_seq(a) + line_seq(b) =~= line_seq(b));
    } else {
        lemma_pos(a, '\n');
        lemma_pos(a + b, '\n');
        let p = pos(a, '\n');
        let q = pos(a + b, '\n');
        assert(a[a.len() - 1] == '\n');
        assert(p < a.len());
        assert((a + b)[p] == '\n');
        assert(q <= p);
        assert((a + b)[q] == a[q]);
        assert(q == p);
        assert((a + b).take(p) =~= a.take(p));
        assert((a + b).skip(p + 1) =~= a.skip(p + 1) + b);
        if a.skip(p + 1).len() > 0 {
            assert(a.skip(p + 1).last() == a.last());
        }
        lemma_lines_add(a.skip(p + 1), b);
        assert(line_seq(a + b) =~= line_seq(a) + line_seq(b));
    }
}

/// The changes of two diffs, one after the other, are those of the first and then
/// those of the second: no file runs into the next.
pub proof fn law_diffs_add_up(a: Seq<char>, b: Seq<char>)
    requires
        a.len() > 0 ==> a.last() == '\n',
        b.len() > 0 ==> line_seq(b).len() > 0 && begins(line_seq(b)[0], "diff --git "@),
    ensures
        diff_changes(a + b) == diff_changes(a) + diff_changes(b),
{
    lemma_lines_add(a, b);
    lemma_chunks_add(line_seq(a), line_seq(b));
    lemma_changes_add(chunks(line_seq(a)), chunks(line_seq(b)));
}

/// The changes of a list of outputs are those of each, in order.
pub proof fn law_outputs_add_up(patches: Seq<Seq<char>>, last: Seq<char>)
    ensures
        patches_changes(patches.push(last)) == patches_changes(patches) + diff_changes(last),
        patches_changes(Seq::empty()) == Seq::<ChangeView>::empty(),
{
    assert(patches.push(last).drop_last() =~= patches);
}

/// Staged changes are asked of git's index, unstaged ones of the working tree, and
/// a commit is asked for alone; nothing is asked where nothing is wanted.
pub proof fn law_what_git_is_asked(commit: Seq<char>, staged: bool, unstaged: bool)
    ensures
        diff_commands(staged, unstaged, Some(commit)) == seq![seq!["diff"@, "--no-color"@, commit]],
        diff_commands(false, false, None) == Seq::<Seq<Seq<char>>>::empty(),
        diff_commands(true, false, None) == seq![
            seq!["diff"@, "--cached"@, "--no-color"@, "--"@],
        ],
        diff_commands(false, true, None) == seq![seq!["diff"@, "--no-color"@, "--"@]],
        diff_commands(true, true, None) == diff_commands(true, false, None) + diff_commands(
            false,
            true,
            None,
        ),
{
    assert(diff_commands(false, false, None) =~= Seq::<Seq<Seq<char>>>::empty());
    assert(diff_commands(true, false, None) =~= seq![
        seq!["diff"@, "--cached"@, "--no-color"@, "--"@],
    ]);
    assert(diff_commands(false, true, None) =~= seq![seq!["diff"@, "--no-color"@, "--"@]]);
}

/// An untracked file is listed under its name; what it holds goes along up to one
/// mebibyte.
pub proof fn law_untracked_files(f: UntrackedFile)
    ensures
        untracked_view(f).name == f.name@,
        untracked_view(f).prev_name is None,
        untracked_view(f).status == ChangeStatus::Untracked,
        untracked_view(f).patch.len() == 0,
        f.size is Some && f.size->0 <= 1024 * 1024 ==> untracked_view(f).contents == Some(f.text@),
        f.size is None || f.size->0 > 1024 * 1024 ==> untracked_view(f).contents == Some(
            Seq::<char>::empty(),
        ),
{
}

/// Git quotes each of the two names by itself: either may be in quotes and the other
/// not.
pub proof fn law_half_quoted_headers(old_name: Seq<char>, new_name: Seq<char>)
    requires
        !old_name.contains('"'),
        !new_name.contains('"'),
    ensures
        header_names("diff --git a/"@ + old_name + " \"b/"@ + new_name + "\""@) == Some(
            (old_name, new_name),
        ),
        !holds(old_name, " b/"@) ==> header_names(
            "diff --git \"a/"@ + old_name + "\" b/"@ + new_name,
        ) == Some((old_name, new_name)),
{
    lemma_new_name_quoted(old_name, new_name);
    if !holds(old_name, " b/"@) {
        lemma_old_name_quoted(old_name, new_name);
    }
}

proof fn lemma_new_name_quoted(old_name: Seq<char>, new_name: Seq<char>)
    requires
        !old_name.contains('"'),
        !new_name.contains('"'),
    ensures
        header_names("diff --git a/"@ + old_name + " \"b/"@ + new_name + "\""@) == Some(
            (old_name, new_name),
        ),
{
    let line = "diff --git a/"@ + old_name + " \"b/"@ + new_name + "\""@;
    let side = "a/"@ + old_name;
    let q = new_name + "\""@;
    let rest = side + " \"b/"@ + q;
    reveal_strlit("diff --git a/");
    reveal_strlit("diff --git ");
    reveal_strlit("a/");
    reveal_strlit("\"a/");
    reveal_strlit("\"");
    reveal_strlit(" \"b/");
    assert(line.subrange(0, 11) =~= "diff --git "@);
    assert(line.skip(11) =~= rest);
    assert forall|j: int| 0 <= j < side.len() implies #[trigger] (side + " \"b/"@ + q).subrange(
        j,
        j + 4,
    ) != " \"b/"@ by {
        let part = rest.subrange(j, j + 4);
        if part == " \"b/"@ {
            assert(part[0] == rest[j] && part[1] == rest[j + 1]);
            assert(rest[j] == ' ' && rest[j + 1] == '"');
            if j + 1 < side.len() {
                assert(old_name.contains(old_name[j + 1 - 2]));
            }
        }
    }
    law_cut_is_at_the_first(side, " \"b/"@, q);
    assert(q.subrange(q.len() - 1, q.len() as int) =~= "\""@);
    assert(q.take(q.len() - 1) =~= new_name);
    assert(side.subrange(0, 2) =~= "a/"@);
    assert(side.skip(2) =~= old_name);
    if begins(side, "\"a/"@) {
        assert(side.subrange(0, 3)[0] == side[0]);
    }
}

proof fn lemma_old_name_quoted(old_name: Seq<char>, new_name: Seq<char>)
    requires
        !old_name.contains('"'),
        !new_name.contains('"'),
        !holds(old_name, " b/"@),
    ensures
        header_names("diff --git \"a/"@ + old_name + "\" b/"@ + new_name) == Some(
            (old_name, new_name),
        ),
{
    let line = "diff --git \"a/"@ + old_name + "\" b/"@ + new_name;
    let side = "\"a/"@ + old_name + "\""@;
    let rest = side + " b/"@ + new_name;
    reveal_strlit("diff --git \"a/");
    reveal_strlit("diff --git ");
    reveal_strlit("\"a/");
    reveal_strlit("\"");
    reveal_strlit(" b/");
    reveal_strlit("\" b/");
    reveal_strlit(" \"b/");
    let n = side.len() as int;
    assert(line.subrange(0, 11) =~= "diff --git "@);
    assert(line.skip(11) =~= rest);
    assert forall|j: int| 0 <= j && j + 4 <= rest.len() implies #[trigger] rest.subrange(j, j + 4)
        != " \"b/"@ by {
        let part = rest.subrange(j, j + 4);
        if part == " \"b/"@ {
            assert(part[0] == rest[j] && part[1] == rest[j + 1] && part[2] == rest[j + 2]);
            assert(rest[j] == ' ' && rest[j + 1] == '"' && rest[j + 2] == 'b');
            if 3 <= j + 1 < n - 1 {
                assert(old_name.contains(old_name[j + 1 - 3]));
            } else if j + 1 == n - 1 {
                assert(rest[j + 2] == ' ');
            } else if j + 1 >= n + 3 {
                assert(new_name.contains(new_name[j + 1 - n - 3]));
            }
        }
    }
    law_search_misses_nothing(rest, " \"b/"@);
    assert forall|j: int| 0 <= j < side.len() implies #[trigger] (side + " b/"@
        + new_name).subrange(j, j + 3) != " b/"@ by {
        let part = rest.subrange(j, j + 3);
        if part == " b/"@ {
            assert(part[0] == rest[j] && part[1] == rest[j + 1] && part[2] == rest[j + 2]);
            assert(rest[j] == ' ' && rest[j + 1] == 'b' && rest[j + 2] == '/');
            if j >= 3 && j + 3 <= n - 1 {
                assert(old_name.subrange(j - 3, j) =~= part);
                assert(stands_at(old_name, " b/"@, j - 3));
            }
        }
    }
    law_cut_is_at_the_first(side, " b/"@, new_name);
    assert(side.subrange(0, 3) =~= "\"a/"@);
    let inner = side.skip(3);
    assert(inner =~= old_name + "\""@);
    assert(inner.subrange(inner.len() - 1, inner.len() as int) =~= "\""@);
    assert(inner.take(inner.len() - 1) =~= old_name);
}

/// The state of a file does not depend on the case in which its header is written.
pub proof fn law_state_ignores_case(chunk: Seq<char>)
    ensures
        chunk_status(lower(chunk)) == chunk_status(chunk),
{
    assert(lower(lower(chunk)) =~= lower(chunk));
}

} // verus!
