//! Laws of what the phone is answered: documents that say what was found, files that
//! stay inside their repository, and the trees that all of it is written in.

use crate::diff::{
    components, is_inside, list_commands, refusal, ChangeStatus, ChangeView, PathRefusal,
};
use crate::json::{number_tree, text_array, JsonTree};
use crate::laws::text::law_pieces;
use crate::preview::DevServer;
use crate::replies::{
    change_tree, change_trees, changes_tree, dev_server_tree, dev_server_trees, failed, file_tree,
    files_tree, missing, previews_tree, with_text, ReplyView,
};
use crate::text::{begins, lemma_pos, opt_text, pieces, pos};
use crate::tree::{
    field, lemma_key_pos_is, lemma_with_key, lemma_without_key, lookup, sorted, text_field,
    with_key, without_key, Tree,
};
use vstd::prelude::*;

verus! {

// ---------------------------------------------------------------------------
// Trees
// ---------------------------------------------------------------------------

/// A table has under a key what its first entry with that key holds.
pub proof fn law_lookup(
    before: Seq<(Seq<char>, JsonTree)>,
    key: Seq<char>,
    value: JsonTree,
    after: Seq<(Seq<char>, JsonTree)>,
)
    requires
        forall|i: int| 0 <= i < before.len() ==> (#[trigger] before[i]).0 != key,
    ensures
        field(JsonTree::Table(before + seq![(key, value)] + after), key) == Some(value),
        field(JsonTree::Table(before), key) is None,
{
    let m = before + seq![(key, value)] + after;
    let n = before.len() as int;
    assert forall|j: int| 0 <= j < n implies (#[trigger] m[j]).0 != key by {
        assert(m[j] == before[j]);
    }
    assert(m[n] == (key, value));
    lemma_key_pos_is(m, key, n);
    lemma_key_pos_is(before, key, n);
}

/// Only a text is read as a text, and only a table has fields.
pub proof fn law_text_field(t: JsonTree, key: Seq<char>, s: Seq<char>, list: Seq<JsonTree>)
    ensures
        text_field(t, key) == Some(s) <==> field(t, key) == Some(JsonTree::Text(s)),
        field(JsonTree::Array(list), key) is None,
        field(JsonTree::Text(s), key) is None,
{
}

/// Setting a key sets it and leaves every other; taking it away takes it alone.
pub proof fn law_set_and_remove(
    m: Seq<(Seq<char>, JsonTree)>,
    key: Seq<char>,
    value: JsonTree,
    other: Seq<char>,
)
    requires
        other != key,
    ensures
        lookup(with_key(m, key, value), key) == Some(value),
        lookup(with_key(m, key, value), other) == lookup(m, other),
        sorted(m) ==> sorted(with_key(m, key, value)),
        sorted(m) ==> lookup(without_key(m, key), key) is None,
        sorted(m) ==> lookup(without_key(m, key), other) == lookup(m, other),
{
    lemma_with_key(m, key, value);
    if sorted(m) {
        lemma_without_key(m, key);
    }
}

// ---------------------------------------------------------------------------
// Paths inside a repository
// ---------------------------------------------------------------------------

/// The pieces of two texts with the character between them are those of the first
/// and then those of the second.
pub proof fn law_pieces_add(a: Seq<char>, c: char, b: Seq<char>)
    ensures
        pieces(a + seq![c] + b, c) == pieces(a, c) + pieces(b, c),
    decreases a.len(),
{
    lemma_pos(a, c);
    let p = pos(a, c);
    if p >= a.len() {
        if a.contains(c) {
            let j = choose|j: int| 0 <= j < a.len() && a[j] == c;
        }
        law_pieces(a, c, b);
    } else {
        let head = a.take(p);
        let tail = a.skip(p + 1);
        if head.contains(c) {
            let j = choose|j: int| 0 <= j < head.len() && head[j] == c;
            assert(a[j] == c);
        }
        assert(a =~= head + seq![c] + tail);
        assert(a + seq![c] + b =~= head + seq![c] + (tail + seq![c] + b));
        law_pieces(head, c, tail);
        law_pieces(head, c, tail + seq![c] + b);
        law_pieces_add(tail, c, b);
        assert(seq![head] + (pieces(tail, c) + pieces(b, c)) =~= seq![head] + pieces(tail, c)
            + pieces(b, c));
    }
}

proof fn lemma_components_add(a: Seq<char>, b: Seq<char>)
    ensures
        components(a + seq!['/'] + b) == components(a) + components(b),
{
    law_pieces_add(a, '/', b);
    Seq::filter_distributes_over_add(
        pieces(a, '/'),
        pieces(b, '/'),
        |p: Seq<char>| p.len() > 0,
    );
}

proof fn lemma_one_component(name: Seq<char>)
    requires
        !name.contains('/'),
    ensures
        name.len() > 0 ==> components(name) == seq![name],
        name.len() == 0 ==> components(name) == Seq::<Seq<char>>::empty(),
{
    law_pieces(name, '/', Seq::empty());
    reveal(Seq::filter);
    let one = seq![name];
    let keep = |p: Seq<char>| p.len() > 0;
    assert(one.drop_last() =~= Seq::<Seq<char>>::empty());
    assert(one.drop_last().filter(keep) =~= Seq::<Seq<char>>::empty());
    assert(one.filter(keep) =~= if name.len() > 0 {
        seq![name]
    } else {
        Seq::empty()
    });
}

/// A path below a directory is inside it, however deep; a neighbour whose name only
/// begins alike is not.
pub proof fn law_inside(dir: Seq<char>, name: Seq<char>, rest: Seq<char>, more: Seq<char>)
    requires
        dir.len() == 0 || dir[0] == '/',
        name.len() > 0 && !name.contains('/'),
        more.len() > 0 && !more.contains('/'),
    ensures
        ({
            let root = dir + seq!['/'] + name;
            &&& is_inside(root, root)
            &&& is_inside(root, root + seq!['/'] + rest)
            &&& !is_inside(root, dir + seq!['/'] + (name + more))
            &&& dir.len() > 0 ==> !is_inside(root, dir)
        }),
{
    let root = dir + seq!['/'] + name;
    let below = root + seq!['/'] + rest;
    let beside = dir + seq!['/'] + (name + more);
    reveal_strlit("/");
    assert("/"@ =~= seq!['/']);
    assert(root[0] == '/' && below[0] == '/');
    assert(root.subrange(0, 1) =~= "/"@);
    assert(below.subrange(0, 1) =~= "/"@);
    lemma_components_add(dir, name);
    lemma_components_add(root, rest);
    lemma_components_add(dir, name + more);
    lemma_one_component(name);
    assert(!(name + more).contains('/')) by {
        if (name + more).contains('/') {
            let j = choose|j: int| 0 <= j < (name + more).len() && (name + more)[j] == '/';
            if j < name.len() {
                assert(name.contains(name[j]));
            } else {
                assert(more.contains(more[j - name.len()]));
            }
        }
    }
    lemma_one_component(name + more);
    let a = components(root);
    let b = components(below);
    assert(a.is_prefix_of(b)) by {
        assert(b.subrange(0, a.len() as int) =~= a);
    }
    assert(a.is_prefix_of(a)) by {
        assert(a.subrange(0, a.len() as int) =~= a);
    }
    let c = components(beside);
    if a.is_prefix_of(c) {
        let n = components(dir).len() as int;
        assert(a[n] == name && c[n] == name + more);
        assert(a =~= c);
        assert((name + more).len() > name.len());
    }
    assert(components(dir).len() < a.len());
}

/// Only what exists inside the repository is read: a path that leads nowhere is
/// missing, and one that leads outside escapes.
pub proof fn law_what_is_read(root: Seq<char>, path: Seq<char>)
    ensures
        refusal(root, None) == Some(PathRefusal::Missing),
        !is_inside(root, path) ==> refusal(root, Some(path)) == Some(PathRefusal::Escapes),
        is_inside(root, path) && components(path).len() > 0 ==> refusal(root, Some(path)) is None,
        is_inside(root, path) && components(path).len() == 0 ==> refusal(root, Some(path)) == Some(
            PathRefusal::Empty,
        ),
{
}

/// The files of a commit are asked of its tree; those of the work tree are the ones
/// that git knows or does not ignore, and those that are gone are asked for apart.
pub proof fn law_what_git_lists(commit: Seq<char>)
    ensures
        list_commands(Some(commit)) == seq![seq!["ls-tree"@, "-r"@, "--name-only"@, commit]],
        list_commands(None) == seq![
            seq!["ls-files"@, "--cached"@, "--others"@, "--exclude-standard"@],
            seq!["ls-files"@, "--deleted"@],
        ],
{
}

// ---------------------------------------------------------------------------
// Documents
// ---------------------------------------------------------------------------

/// What was not found is answered 404, and what failed 500, each with its reason.
pub proof fn law_refusals(why: Seq<char>)
    ensures
        missing(why) == (ReplyView::Refusal { status: 404, body: why }),
        failed(why) == (ReplyView::Refusal { status: 500, body: why }),
{
}

proof fn lemma_with_text(m: Seq<(Seq<char>, JsonTree)>, key: Seq<char>, value: Option<Seq<char>>)
    ensures
        value is Some ==> lookup(with_text(m, key, value), key) == Some(JsonTree::Text(value->0)),
        value is None ==> with_text(m, key, value) == m,
        forall|k: Seq<char>| k != key ==> lookup(with_text(m, key, value), k) == lookup(m, k),
{
    if let Some(s) = value {
        lemma_with_key(m, key, JsonTree::Text(s));
    }
}

proof fn lemma_change_keys()
    ensures
        "name"@.len() == 4 && "prev_name"@.len() == 9 && "status"@.len() == 6,
        "patch"@.len() == 5 && "contents"@.len() == 8 && "repo"@.len() == 4,
        "changes"@.len() == 7 && "total"@.len() == 5 && "file"@.len() == 4,
        "files"@.len() == 5 && "servers"@.len() == 7 && "port"@.len() == 4,
        "process"@.len() == 7 && "bind"@.len() == 4,
        "repo"@ != "file"@ && "port"@ != "bind"@ && "port"@ != "name"@ && "bind"@ != "name"@,
{
    reveal_strlit("name");
    reveal_strlit("prev_name");
    reveal_strlit("status");
    reveal_strlit("patch");
    reveal_strlit("contents");
    reveal_strlit("repo");
    reveal_strlit("changes");
    reveal_strlit("total");
    reveal_strlit("file");
    reveal_strlit("files");
    reveal_strlit("servers");
    reveal_strlit("port");
    reveal_strlit("process");
    reveal_strlit("bind");
    assert("repo"@[0] == 'r' && "file"@[0] == 'f' && "port"@[0] == 'p');
    assert("bind"@[0] == 'b' && "name"@[0] == 'n');
}

/// A change is written out under names, its state in a word; what it has not is left
/// out.
pub proof fn law_change_document(c: ChangeView)
    ensures
        ({
            let t = change_tree(c);
            &&& text_field(t, "name"@) == Some(c.name)
            &&& text_field(t, "prev_name"@) == c.prev_name
            &&& c.prev_name is None ==> field(t, "prev_name"@) is None
            &&& text_field(t, "patch"@) == Some(c.patch)
            &&& text_field(t, "contents"@) == c.contents
            &&& c.contents is None ==> field(t, "contents"@) is None
            &&& c.status == ChangeStatus::Added ==> text_field(t, "status"@) == Some("added"@)
            &&& c.status == ChangeStatus::Modified ==> text_field(t, "status"@) == Some(
                "modified"@,
            )
            &&& c.status == ChangeStatus::Deleted ==> text_field(t, "status"@) == Some("deleted"@)
            &&& c.status == ChangeStatus::Renamed ==> text_field(t, "status"@) == Some("renamed"@)
            &&& c.status == ChangeStatus::Untracked ==> text_field(t, "status"@) == Some(
                "untracked"@,
            )
        }),
{
    lemma_change_keys();
    let m0 = Seq::<(Seq<char>, JsonTree)>::empty();
    let status = JsonTree::Text(c.status.name());
    let m1 = with_key(m0, "name"@, JsonTree::Text(c.name));
    let m2 = with_text(m1, "prev_name"@, c.prev_name);
    let m3 = with_key(m2, "status"@, status);
    let m4 = with_key(m3, "patch"@, JsonTree::Text(c.patch));
    let m5 = with_text(m4, "contents"@, c.contents);
    assert(lookup(m0, "prev_name"@) is None && lookup(m0, "contents"@) is None);
    lemma_with_key(m0, "name"@, JsonTree::Text(c.name));
    lemma_with_text(m1, "prev_name"@, c.prev_name);
    lemma_with_key(m2, "status"@, status);
    lemma_with_key(m3, "patch"@, JsonTree::Text(c.patch));
    lemma_with_text(m4, "contents"@, c.contents);
    assert(lookup(m5, "name"@) == Some(JsonTree::Text(c.name)));
    assert(lookup(m5, "prev_name"@) == lookup(m2, "prev_name"@));
    assert(lookup(m5, "status"@) == Some(status));
    assert(lookup(m5, "patch"@) == Some(JsonTree::Text(c.patch)));
    assert(lookup(m4, "contents"@) is None);
}

/// The diff viewer is answered the repository, every change in order, and how many
/// there are.
pub proof fn law_changes_document(repo: Seq<char>, list: Seq<ChangeView>, i: int)
    ensures
        ({
            let t = changes_tree(repo, list);
            &&& text_field(t, "repo"@) == Some(repo)
            &&& field(t, "total"@) == Some(number_tree(list.len() as u64))
            &&& field(t, "changes"@) == Some(JsonTree::Array(change_trees(list)))
            &&& change_trees(list).len() == list.len()
            &&& 0 <= i < list.len() ==> change_trees(list)[i] == change_tree(list[i])
        }),
{
    lemma_change_keys();
    let m0 = Seq::<(Seq<char>, JsonTree)>::empty();
    let m1 = with_key(m0, "repo"@, JsonTree::Text(repo));
    let m2 = with_key(m1, "changes"@, JsonTree::Array(change_trees(list)));
    lemma_with_key(m0, "repo"@, JsonTree::Text(repo));
    lemma_with_key(m1, "changes"@, JsonTree::Array(change_trees(list)));
    lemma_with_key(m2, "total"@, number_tree(list.len() as u64));
    assert(lookup(m2, "repo"@) == Some(JsonTree::Text(repo)));
}

/// The browser is answered what it asked for: a file with what it holds, or the
/// names of the files.
pub proof fn law_file_documents(
    repo: Seq<char>,
    file: Seq<char>,
    contents: Seq<char>,
    files: Seq<Seq<char>>,
)
    ensures
        text_field(file_tree(repo, file, contents), "repo"@) == Some(repo),
        text_field(file_tree(repo, file, contents), "file"@) == Some(file),
        text_field(file_tree(repo, file, contents), "contents"@) == Some(contents),
        text_field(files_tree(repo, files), "repo"@) == Some(repo),
        field(files_tree(repo, files), "files"@) == Some(text_array(files)),
{
    lemma_change_keys();
    let m0 = Seq::<(Seq<char>, JsonTree)>::empty();
    let m1 = with_key(m0, "repo"@, JsonTree::Text(repo));
    let m2 = with_key(m1, "file"@, JsonTree::Text(file));
    lemma_with_key(m0, "repo"@, JsonTree::Text(repo));
    lemma_with_key(m1, "file"@, JsonTree::Text(file));
    lemma_with_key(m2, "contents"@, JsonTree::Text(contents));
    lemma_with_key(m1, "files"@, text_array(files));
    assert(lookup(m2, "repo"@) == Some(JsonTree::Text(repo)));
}

/// A list of texts is written out as an array of them, in order.
pub proof fn law_text_array(list: Seq<Seq<char>>, i: int)
    ensures
        text_array(list) matches Tree::Array(items) && items.len() == list.len() && (0 <= i
            < list.len() ==> items[i] == JsonTree::Text(list[i])),
{
}

/// The preview is answered every server, with its port, process and address and the
/// name that it gives itself, and how many there are.
pub proof fn law_preview_document(list: Seq<DevServer>, s: DevServer, i: int)
    ensures
        ({
            let t = dev_server_tree(s);
            &&& field(t, "port"@) == Some(number_tree(s.port as u64))
            &&& text_field(t, "process"@) == Some(s.process@)
            &&& text_field(t, "bind"@) == Some(s.bind@)
            &&& text_field(t, "name"@) == opt_text(s.name)
        }),
        field(previews_tree(list), "servers"@) == Some(JsonTree::Array(dev_server_trees(list))),
        field(previews_tree(list), "total"@) == Some(number_tree(list.len() as u64)),
        dev_server_trees(list).len() == list.len(),
        0 <= i < list.len() ==> dev_server_trees(list)[i] == dev_server_tree(list[i]),
{
    lemma_change_keys();
    let m0 = Seq::<(Seq<char>, JsonTree)>::empty();
    let m1 = with_key(m0, "port"@, number_tree(s.port as u64));
    let m2 = with_key(m1, "process"@, JsonTree::Text(s.process@));
    let m3 = with_key(m2, "bind"@, JsonTree::Text(s.bind@));
    let m4 = with_text(m3, "name"@, opt_text(s.name));
    assert(lookup(m0, "name"@) is None);
    lemma_with_key(m0, "port"@, number_tree(s.port as u64));
    lemma_with_key(m1, "process"@, JsonTree::Text(s.process@));
    lemma_with_key(m2, "bind"@, JsonTree::Text(s.bind@));
    lemma_with_text(m3, "name"@, opt_text(s.name));
    assert(lookup(m4, "port"@) == Some(number_tree(s.port as u64)));
    assert(lookup(m4, "process"@) == Some(JsonTree::Text(s.process@)));
    assert(lookup(m4, "bind"@) == Some(JsonTree::Text(s.bind@)));
    assert(lookup(m3, "name"@) is None);
    let n1 = with_key(m0, "servers"@, JsonTree::Array(dev_server_trees(list)));
    lemma_with_key(m0, "servers"@, JsonTree::Array(dev_server_trees(list)));
    lemma_with_key(n1, "total"@, number_tree(list.len() as u64));
}

} // verus!
