//! What the gateway answers the diff viewer, the file browser and the preview.

use crate::diff::{change_views, Change, ChangeView};
use crate::json;
use crate::json::{number_tree, text_array, Json, JsonTree};
use crate::preview::DevServer;
use crate::text;
use crate::text::{opt_text, texts};
use crate::tree::{
    entries, lemma_array_view, lemma_array_well_formed, lemma_table_view, text_node, views,
    well_formed, with_key, Node, Tree,
};
use vstd::prelude::*;

verus! {

/// An answer: a document, or a status and a text.
#[derive(Debug)]
pub enum Reply {
    Document(Json),
    Refusal { status: u16, body: String },
}

/// An answer as the contracts speak of it.
pub enum ReplyView {
    Document(JsonTree),
    Refusal { status: u16, body: Seq<char> },
}

impl View for Reply {
    type V = ReplyView;

    open spec fn view(&self) -> ReplyView {
        match *self {
            Reply::Document(j) => ReplyView::Document(j@),
            Reply::Refusal { status, body } => ReplyView::Refusal { status, body: body@ },
        }
    }
}

/// What is answered where something was not found.
pub open spec fn missing(body: Seq<char>) -> ReplyView {
    ReplyView::Refusal { status: 404, body }
}

/// What is answered where something failed.
pub open spec fn failed(body: Seq<char>) -> ReplyView {
    ReplyView::Refusal { status: 500, body }
}

/// A table with a text under a key, where there is one.
pub open spec fn with_text(
    m: Seq<(Seq<char>, JsonTree)>,
    key: Seq<char>,
    value: Option<Seq<char>>,
) -> Seq<(Seq<char>, JsonTree)> {
    match value {
        Some(s) => with_key(m, key, JsonTree::Text(s)),
        None => m,
    }
}

fn put_text(m: &mut Vec<(String, Json)>, key: &str, value: &Option<String>)
    requires
        well_formed(JsonTree::Table(entries(old(m)@))),
    ensures
        entries(final(m)@) == with_text(entries(old(m)@), key@, opt_text(*value)),
        well_formed(JsonTree::Table(entries(final(m)@))),
{
    if let Some(s) = value {
        json::put(m, key, text_node(s.as_str()));
    }
}

// ---------------------------------------------------------------------------
// Changes
// ---------------------------------------------------------------------------

/// A change as a document; what it has not is left out.
pub open spec fn change_tree(c: ChangeView) -> JsonTree {
    Tree::Table(
        with_text(
            with_key(
                with_key(
                    with_text(
                        with_key(Seq::empty(), "name"@, JsonTree::Text(c.name)),
                        "prev_name"@,
                        c.prev_name,
                    ),
                    "status"@,
                    JsonTree::Text(c.status.name()),
                ),
                "patch"@,
                JsonTree::Text(c.patch),
            ),
            "contents"@,
            c.contents,
        ),
    )
}

/// A change as a document.
pub fn change_json(c: &Change) -> (r: Json)
    ensures
        r@ == change_tree(c@),
        well_formed(r@),
{
    broadcast use lemma_table_view;

    let mut m = json::no_entries();
    json::put(&mut m, "name", text_node(c.name.as_str()));
    put_text(&mut m, "prev_name", &c.prev_name);
    json::put(&mut m, "status", text_node(c.status.as_str()));
    json::put(&mut m, "patch", text_node(c.patch.as_str()));
    put_text(&mut m, "contents", &c.contents);
    Node::Table(m)
}

/// The documents of a list of changes.
pub open spec fn change_trees(list: Seq<ChangeView>) -> Seq<JsonTree> {
    Seq::new(list.len(), |i: int| change_tree(list[i]))
}

/// What the diff viewer is answered: the changes of a repository and how many
/// there are.
pub open spec fn changes_tree(repo: Seq<char>, list: Seq<ChangeView>) -> JsonTree {
    Tree::Table(
        with_key(
            with_key(
                with_key(Seq::empty(), "repo"@, JsonTree::Text(repo)),
                "changes"@,
                Tree::Array(change_trees(list)),
            ),
            "total"@,
            number_tree(list.len() as u64),
        ),
    )
}

fn change_list(list: &Vec<Change>) -> (r: Vec<Json>)
    ensures
        views(r@) == change_trees(change_views(list@)),
        well_formed(JsonTree::Array(views(r@))),
{
    let ghost want = change_trees(change_views(list@));
    let mut items: Vec<Json> = Vec::new();
    let mut i: usize = 0;
    while i < list.len()
        invariant
            i <= list@.len(),
            want == change_trees(change_views(list@)),
            items@.len() == i,
            forall|k: int|
                0 <= k < i ==> (#[trigger] items@[k])@ == want[k] && well_formed(items@[k]@),
        decreases list@.len() - i,
    {
        items.push(change_json(&list[i]));
        i += 1;
    }
    proof {
        assert(views(items@) =~= want);
        lemma_array_well_formed(views(items@));
    }
    items
}

/// What the diff viewer is answered, by what came of collecting the changes:
/// `None` where the directory is no repository.
pub fn diff_reply(repo: &str, found: Result<Option<Vec<Change>>, String>) -> (r: Reply)
    ensures
        r@ == match found {
            Ok(Some(list)) => ReplyView::Document(changes_tree(repo@, change_views(list@))),
            Ok(None) => missing("not a git repository"@),
            Err(e) => failed(e@),
        },
        r matches Reply::Document(j) ==> well_formed(j@),
{
    broadcast use {lemma_table_view, lemma_array_view};

    match found {
        Ok(Some(list)) => {
            let total = list.len();
            let mut m = json::no_entries();
            json::put(&mut m, "repo", text_node(repo));
            json::put(&mut m, "changes", Node::Array(change_list(&list)));
            json::put(&mut m, "total", json::number(total as u64));
            Reply::Document(Node::Table(m))
        },
        Ok(None) => Reply::Refusal { status: 404, body: text::owned("not a git repository") },
        Err(e) => Reply::Refusal { status: 500, body: e },
    }
}

// ---------------------------------------------------------------------------
// Files
// ---------------------------------------------------------------------------

/// What the browser is answered for a file.
pub open spec fn file_tree(repo: Seq<char>, file: Seq<char>, contents: Seq<char>) -> JsonTree {
    Tree::Table(
        with_key(
            with_key(
                with_key(Seq::empty(), "repo"@, JsonTree::Text(repo)),
                "file"@,
                JsonTree::Text(file),
            ),
            "contents"@,
            JsonTree::Text(contents),
        ),
    )
}

/// What the browser is answered for a file, by what came of reading it.
pub fn browse_reply(repo: &str, file: &str, found: Result<Option<String>, String>) -> (r: Reply)
    ensures
        r@ == match found {
            Ok(Some(contents)) => ReplyView::Document(file_tree(repo@, file@, contents@)),
            Ok(None) => missing("file not found"@),
            Err(e) => failed(e@),
        },
        r matches Reply::Document(j) ==> well_formed(j@),
{
    broadcast use lemma_table_view;

    match found {
        Ok(Some(contents)) => {
            let mut m = json::no_entries();
            json::put(&mut m, "repo", text_node(repo));
            json::put(&mut m, "file", text_node(file));
            json::put(&mut m, "contents", text_node(contents.as_str()));
            Reply::Document(Node::Table(m))
        },
        Ok(None) => Reply::Refusal { status: 404, body: text::owned("file not found") },
        Err(e) => Reply::Refusal { status: 500, body: e },
    }
}

/// What the browser is answered for a list of files.
pub open spec fn files_tree(repo: Seq<char>, files: Seq<Seq<char>>) -> JsonTree {
    Tree::Table(
        with_key(
            with_key(Seq::empty(), "repo"@, JsonTree::Text(repo)),
            "files"@,
            text_array(files),
        ),
    )
}

/// What the browser is answered for a list of files, by what came of listing them.
pub fn browse_list_reply(repo: &str, found: Result<Option<Vec<String>>, String>) -> (r: Reply)
    ensures
        r@ == match found {
            Ok(Some(files)) => ReplyView::Document(files_tree(repo@, texts(files@))),
            Ok(None) => missing("not a git repository"@),
            Err(e) => failed(e@),
        },
        r matches Reply::Document(j) ==> well_formed(j@),
{
    broadcast use lemma_table_view;

    match found {
        Ok(Some(files)) => {
            let mut m = json::no_entries();
            json::put(&mut m, "repo", text_node(repo));
            json::put(&mut m, "files", json::text_list(&files));
            Reply::Document(Node::Table(m))
        },
        Ok(None) => Reply::Refusal { status: 404, body: text::owned("not a git repository") },
        Err(e) => Reply::Refusal { status: 500, body: e },
    }
}

// ---------------------------------------------------------------------------
// Development servers
// ---------------------------------------------------------------------------

/// A development server as a document; a name that it has not is left out.
pub open spec fn dev_server_tree(s: DevServer) -> JsonTree {
    Tree::Table(
        with_text(
            with_key(
                with_key(
                    with_key(Seq::empty(), "port"@, number_tree(s.port as u64)),
                    "process"@,
                    JsonTree::Text(s.process@),
                ),
                "bind"@,
                JsonTree::Text(s.bind@),
            ),
            "name"@,
            opt_text(s.name),
        ),
    )
}

/// A development server as a document.
pub fn dev_server_json(s: &DevServer) -> (r: Json)
    ensures
        r@ == dev_server_tree(*s),
        well_formed(r@),
{
    broadcast use lemma_table_view;

    let mut m = json::no_entries();
    json::put(&mut m, "port", json::number(s.port as u64));
    json::put(&mut m, "process", text_node(s.process.as_str()));
    json::put(&mut m, "bind", text_node(s.bind.as_str()));
    put_text(&mut m, "name", &s.name);
    Node::Table(m)
}

/// The documents of a list of development servers.
pub open spec fn dev_server_trees(list: Seq<DevServer>) -> Seq<JsonTree> {
    Seq::new(list.len(), |i: int| dev_server_tree(list[i]))
}

/// What the preview is answered: the servers and how many there are.
pub open spec fn previews_tree(list: Seq<DevServer>) -> JsonTree {
    Tree::Table(
        with_key(
            with_key(Seq::empty(), "servers"@, Tree::Array(dev_server_trees(list))),
            "total"@,
            number_tree(list.len() as u64),
        ),
    )
}

fn dev_server_list(list: &Vec<DevServer>) -> (r: Vec<Json>)
    ensures
        views(r@) == dev_server_trees(list@),
        well_formed(JsonTree::Array(views(r@))),
{
    let ghost want = dev_server_trees(list@);
    let mut items: Vec<Json> = Vec::new();
    let mut i: usize = 0;
    while i < list.len()
        invariant
            i <= list@.len(),
            want == dev_server_trees(list@),
            items@.len() == i,
            forall|k: int|
                0 <= k < i ==> (#[trigger] items@[k])@ == want[k] && well_formed(items@[k]@),
        decreases list@.len() - i,
    {
        items.push(dev_server_json(&list[i]));
        i += 1;
    }
    proof {
        assert(views(items@) =~= want);
        lemma_array_well_formed(views(items@));
    }
    items
}

/// What the preview is answered, by what came of the search for servers.
pub fn preview_reply(found: Result<Vec<DevServer>, String>) -> (r: Reply)
    ensures
        r@ == match found {
            Ok(list) => ReplyView::Document(previews_tree(list@)),
            Err(e) => failed(e@),
        },
        r matches Reply::Document(j) ==> well_formed(j@),
{
    broadcast use {lemma_table_view, lemma_array_view};

    match found {
        Ok(list) => {
            let total = list.len();
            let mut m = json::no_entries();
            json::put(&mut m, "servers", Node::Array(dev_server_list(&list)));
            json::put(&mut m, "total", json::number(total as u64));
            Reply::Document(Node::Table(m))
        },
        Err(e) => Reply::Refusal { status: 500, body: e },
    }
}

} // verus!
