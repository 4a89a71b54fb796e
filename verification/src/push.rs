//! Push notifications through an endpoint of the user's own: ntfy, Gotify or
//! UnifiedPush. Only what somebody waits for is pushed.

use crate::events::Category;
use crate::inbox::{Row, RowView};
use crate::json;
use crate::json::{json_text, number_tree, Json, JsonTree};
use crate::paths::{dir_view, join_path, path_joined, DirError};
use crate::text;
use crate::text::{after_last, opt_text, replaced2, trimmed, without_trailing};
use crate::tree::{lemma_table_view, text_node, well_formed, with_key, Node, Tree};
use vstd::prelude::*;

verus! {

/// The type of an endpoint.
#[derive(Debug, Clone, Copy, PartialEq, Eq, Structural)]
pub enum Kind {
    Ntfy,
    Gotify,
    UnifiedPush,
}

impl Kind {
    /// The name as the contracts speak of it.
    pub open spec fn name(self) -> Seq<char> {
        match self {
            Kind::Ntfy => "ntfy"@,
            Kind::Gotify => "gotify"@,
            Kind::UnifiedPush => "unifiedpush"@,
        }
    }

    /// The type that a name stands for.
    pub open spec fn named(s: Seq<char>) -> Option<Kind> {
        if s == "ntfy"@ {
            Some(Kind::Ntfy)
        } else if s == "gotify"@ {
            Some(Kind::Gotify)
        } else if s == "unifiedpush"@ || s == "up"@ {
            Some(Kind::UnifiedPush)
        } else {
            None
        }
    }

    /// The type that a name stands for.
    pub fn parse(s: &str) -> (r: Option<Kind>)
        ensures
            r == Kind::named(s@),
    {
        if text::same(s, "ntfy") {
            Some(Kind::Ntfy)
        } else if text::same(s, "gotify") {
            Some(Kind::Gotify)
        } else if text::same(s, "unifiedpush") || text::same(s, "up") {
            Some(Kind::UnifiedPush)
        } else {
            None
        }
    }

    /// The name.
    pub fn as_str(&self) -> (r: &'static str)
        ensures
            r@ == self.name(),
    {
        match self {
            Kind::Ntfy => "ntfy",
            Kind::Gotify => "gotify",
            Kind::UnifiedPush => "unifiedpush",
        }
    }
}

/// Parsing the name of a type gives that type.
pub proof fn law_parse_undoes_as_str(k: Kind)
    ensures
        Kind::named(k.name()) == Some(k),
{
    reveal_strlit("ntfy");
    reveal_strlit("gotify");
    reveal_strlit("unifiedpush");
    assert("ntfy"@.len() == 4 && "gotify"@.len() == 6 && "unifiedpush"@.len() == 11);
}

/// An endpoint. The URL is a topic's for ntfy, the server's for Gotify, the
/// endpoint's own for UnifiedPush; the token is an access token for ntfy, where
/// there is one, and the application's for Gotify.
#[derive(Debug)]
pub struct Config {
    pub kind: Kind,
    pub url: String,
    pub token: Option<String>,
}

/// The file that holds the configuration, in the user's configuration directory.
pub fn config_path(base: Option<&str>) -> (r: Result<String, DirError>)
    ensures
        dir_view(r) == match base {
            Some(b) => Ok(path_joined(path_joined(b@, "sailor"@), "push.json"@)),
            None => Err(DirError::NoConfigDir),
        },
{
    match base {
        Some(b) => {
            let dir = join_path(b, "sailor");
            Ok(join_path(dir.as_str(), "push.json"))
        },
        None => Err(DirError::NoConfigDir),
    }
}

/// A kind of event that is worth waking somebody's phone for.
pub open spec fn wakes(category: Category) -> bool {
    category == Category::ApprovalRequired || category == Category::TaskComplete
}

/// Whether a kind of event is pushed.
pub fn is_notable(category: Category) -> (r: bool)
    ensures
        r == wakes(category),
{
    match category {
        Category::ApprovalRequired => true,
        Category::TaskComplete => true,
        _ => false,
    }
}

/// What is posted.
#[derive(Debug, PartialEq, Eq)]
pub struct Request {
    pub url: String,
    pub headers: Vec<(String, String)>,
    pub body: String,
}

/// What is posted, as the contracts speak of it.
pub struct RequestView {
    pub url: Seq<char>,
    pub headers: Seq<(Seq<char>, Seq<char>)>,
    pub body: Seq<char>,
}

/// The views of a list of headers.
pub open spec fn header_views(v: Seq<(String, String)>) -> Seq<(Seq<char>, Seq<char>)> {
    Seq::new(v.len(), |i: int| (v[i].0@, v[i].1@))
}

impl View for Request {
    type V = RequestView;

    open spec fn view(&self) -> RequestView {
        RequestView { url: self.url@, headers: header_views(self.headers@), body: self.body@ }
    }
}

/// A text that can stand in a header: on one line.
pub open spec fn on_one_line(s: Seq<char>) -> Seq<char> {
    trimmed(replaced2(s, '\r', '\n', ' '))
}

/// A title and a message as a JSON document, with a priority where there is one.
pub open spec fn note_tree(title: Seq<char>, body: Seq<char>, priority: Option<u64>) -> JsonTree {
    let base = with_key(
        with_key(Seq::empty(), "title"@, JsonTree::Text(title)),
        "message"@,
        JsonTree::Text(body),
    );
    match priority {
        Some(p) => Tree::Table(with_key(base, "priority"@, number_tree(p))),
        None => Tree::Table(base),
    }
}

/// What is posted to an endpoint for a notification.
pub open spec fn request_for(
    kind: Kind,
    url: Seq<char>,
    token: Option<Seq<char>>,
    title: Seq<char>,
    body: Seq<char>,
) -> RequestView {
    match kind {
        Kind::Ntfy => RequestView {
            url,
            headers: seq![("Title"@, on_one_line(title)), ("Priority"@, "high"@)] + match token {
                Some(t) => seq![("Authorization"@, "Bearer "@ + t)],
                None => Seq::empty(),
            },
            body,
        },
        Kind::Gotify => RequestView {
            url: match token {
                Some(t) => without_trailing(url, '/') + "/message?token="@ + t,
                None => without_trailing(url, '/') + "/message"@,
            },
            headers: seq![("Content-Type"@, "application/json"@)],
            body: json_text(note_tree(title, body, Some(8))),
        },
        Kind::UnifiedPush => RequestView {
            url,
            headers: seq![("Content-Type"@, "application/json"@)],
            body: json_text(note_tree(title, body, None)),
        },
    }
}

/// A text that can stand in a header.
pub fn header_safe(s: &str) -> (r: String)
    ensures
        r@ == on_one_line(s@),
{
    let flat = text::replace2(s, '\r', '\n', ' ');
    text::trim(flat.as_str())
}

fn note_json(title: &str, body: &str, priority: Option<u64>) -> (r: Json)
    ensures
        r@ == note_tree(title@, body@, priority),
        well_formed(r@),
{
    broadcast use lemma_table_view;

    let mut m = json::no_entries();
    json::put(&mut m, "title", text_node(title));
    json::put(&mut m, "message", text_node(body));
    if let Some(p) = priority {
        json::put(&mut m, "priority", json::number(p));
    }
    Node::Table(m)
}

/// What is posted to an endpoint for a notification.
pub fn build_request(config: &Config, title: &str, body: &str) -> (r: Request)
    ensures
        r@ == request_for(config.kind, config.url@, opt_text(config.token), title@, body@),
{
    match config.kind {
        Kind::Ntfy => {
            let mut headers = vec![
                (text::owned("Title"), header_safe(title)),
                (text::owned("Priority"), text::owned("high")),
            ];
            if let Some(token) = &config.token {
                headers.push(
                    (text::owned("Authorization"), text::concat2("Bearer ", token.as_str())),
                );
            }
            assert(header_views(headers@) =~= request_for(
                config.kind,
                config.url@,
                opt_text(config.token),
                title@,
                body@,
            ).headers);
            Request { url: config.url.clone(), headers, body: text::owned(body) }
        },
        Kind::Gotify => {
            let base = text::trim_end_char(config.url.as_str(), '/');
            let url = match &config.token {
                Some(token) => text::concat3(base.as_str(), "/message?token=", token.as_str()),
                None => text::concat2(base.as_str(), "/message"),
            };
            let headers = vec![(text::owned("Content-Type"), text::owned("application/json"))];
            assert(header_views(headers@) =~= seq![("Content-Type"@, "application/json"@)]);
            let note = note_json(title, body, Some(8));
            Request { url, headers, body: json::render(&note) }
        },
        Kind::UnifiedPush => {
            let headers = vec![(text::owned("Content-Type"), text::owned("application/json"))];
            assert(header_views(headers@) =~= seq![("Content-Type"@, "application/json"@)]);
            let note = note_json(title, body, None);
            Request { url: config.url.clone(), headers, body: json::render(&note) }
        },
    }
}

/// The last component of a project's path: the rest is noise on a lock screen.
pub open spec fn short_name(path: Seq<char>) -> Seq<char> {
    after_last(without_trailing(path, '/'), '/')
}

/// The last component of a project's path.
pub fn short_project(path: &str) -> (r: String)
    ensures
        r@ == short_name(path@),
{
    let bare = text::trim_end_char(path, '/');
    text::tail_after(bare.as_str(), '/')
}

/// The title and the text of the notification for a row.
pub fn describe(row: &Row) -> (r: (String, String))
    ensures
        r.0@ == row@.title,
        r.1@ == match row@.project {
            Some(p) => short_name(p),
            None => row@.source,
        },
{
    let body = match &row.project {
        Some(p) => short_project(p.as_str()),
        None => row.source.clone(),
    };
    (row.title.clone(), body)
}

/// A title in a header never breaks the line, whatever an agent wrote.
pub proof fn law_header_stays_on_one_line(s: Seq<char>, i: int)
    requires
        0 <= i < on_one_line(s).len(),
    ensures
        on_one_line(s)[i] != '\r' && on_one_line(s)[i] != '\n',
{
    let flat = replaced2(s, '\r', '\n', ' ');
    text::lemma_trimmed_within(flat);
    let k = choose|k: int|
        0 <= k <= flat.len() - trimmed(flat).len() && #[trigger] flat.subrange(
            k,
            k + trimmed(flat).len(),
        ) == trimmed(flat);
    assert(flat.subrange(k, k + trimmed(flat).len())[i] == flat[k + i]);
}

/// The token has no part in the body that is posted.
pub proof fn law_token_stays_out_of_the_body(
    kind: Kind,
    url: Seq<char>,
    a: Option<Seq<char>>,
    b: Option<Seq<char>>,
    title: Seq<char>,
    body: Seq<char>,
)
    ensures
        request_for(kind, url, a, title, body).body == request_for(kind, url, b, title, body).body,
{
}

} // verus!
