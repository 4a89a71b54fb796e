//! Local servers that the phone can open: listening ports that answer with HTML,
//! each with the process behind it.

use crate::json;
use crate::json::{number_tree, Json, JsonTree, Scalar};
use crate::text;
use crate::text::{
    after_last, after_prefix, begins, cut_last, decimal, found_from, line_seq, lower, opt_text,
    parsed_number, pos, texts, trimmed,
};
use crate::tree::{
    lemma_array_view, lemma_array_well_formed, lemma_table_view, text_node, views, well_formed,
    with_key, Node, Tree,
};
use vstd::prelude::*;

verus! {

/// A listening port.
#[derive(Debug, PartialEq, Eq)]
pub struct Listener {
    pub pid: u32,
    pub host: String,
    pub port: u16,
}

/// A listening port as the contracts speak of it.
pub struct ListenerView {
    pub pid: u32,
    pub host: Seq<char>,
    pub port: u16,
}

impl View for Listener {
    type V = ListenerView;

    open spec fn view(&self) -> ListenerView {
        ListenerView { pid: self.pid, host: self.host@, port: self.port }
    }
}

/// The views of a list of listeners.
pub open spec fn listener_views(v: Seq<Listener>) -> Seq<ListenerView> {
    Seq::new(v.len(), |i: int| v[i]@)
}

/// A server that the phone can open.
#[derive(Debug, PartialEq)]
pub struct Server {
    pub id: String,
    pub name: String,
    pub host: String,
    pub port: u16,
    pub origin: String,
    pub process: String,
    pub pid: u32,
    pub is_current_context: bool,
}

/// A server as the contracts speak of it.
pub struct ServerInfo {
    pub id: Seq<char>,
    pub name: Seq<char>,
    pub host: Seq<char>,
    pub port: u16,
    pub origin: Seq<char>,
    pub process: Seq<char>,
    pub pid: u32,
    pub is_current_context: bool,
}

impl View for Server {
    type V = ServerInfo;

    open spec fn view(&self) -> ServerInfo {
        ServerInfo {
            id: self.id@,
            name: self.name@,
            host: self.host@,
            port: self.port,
            origin: self.origin@,
            process: self.process@,
            pid: self.pid,
            is_current_context: self.is_current_context,
        }
    }
}

/// The views of a list of servers.
pub open spec fn server_views(v: Seq<Server>) -> Seq<ServerInfo> {
    Seq::new(v.len(), |i: int| v[i]@)
}

// ---------------------------------------------------------------------------
// Listening ports
// ---------------------------------------------------------------------------

/// A bracket around an address.
pub open spec fn is_bracket(c: char) -> bool {
    c == '[' || c == ']'
}

/// A text without brackets at its front.
pub open spec fn unbracketed_front(s: Seq<char>) -> Seq<char>
    decreases s.len(),
{
    if s.len() > 0 && is_bracket(s[0]) {
        unbracketed_front(s.skip(1))
    } else {
        s
    }
}

/// A text without brackets at its end.
pub open spec fn unbracketed_end(s: Seq<char>) -> Seq<char>
    decreases s.len(),
{
    if s.len() > 0 && is_bracket(s.last()) {
        unbracketed_end(s.drop_last())
    } else {
        s
    }
}

/// The host and the port of an address: the last colon stands between them.
pub open spec fn address_parts(addr: Seq<char>) -> Option<(Seq<char>, u16)> {
    match cut_last(addr, ':') {
        Some((host, port)) => match parsed_number(port, u16::MAX as nat) {
            Some(n) => Some((unbracketed_end(unbracketed_front(host)), n as u16)),
            None => None,
        },
        None => None,
    }
}

fn strip_brackets(s: &str) -> (r: String)
    ensures
        r@ == unbracketed_end(unbracketed_front(s@)),
{
    let v = text::chars(s);
    let mut i: usize = 0;
    assert(v@.skip(0) =~= s@);
    while i < v.len() && (v[i] == '[' || v[i] == ']')
        invariant
            i <= v@.len(),
            v@ == s@,
            unbracketed_front(v@.skip(i as int)) == unbracketed_front(s@),
        decreases v@.len() - i,
    {
        assert(v@.skip(i as int).skip(1) =~= v@.skip(i + 1));
        i += 1;
    }
    let ghost front = v@.skip(i as int);
    assert(front == unbracketed_front(s@));
    let mut j: usize = v.len();
    assert(v@.subrange(i as int, j as int) =~= front);
    while j > i && (v[j - 1] == '[' || v[j - 1] == ']')
        invariant
            i <= j <= v@.len(),
            unbracketed_end(v@.subrange(i as int, j as int)) == unbracketed_end(front),
        decreases j,
    {
        assert(v@.subrange(i as int, j as int).drop_last() =~= v@.subrange(i as int, j - 1));
        j -= 1;
    }
    text::slice_string(v.as_slice(), i, j)
}

/// The host and the port of an address such as `127.0.0.1:8080` or `[::1]:8080`.
pub fn parse_address(addr: &str) -> (r: Option<(String, u16)>)
    ensures
        match r {
            Some((host, port)) => address_parts(addr@) == Some((host@, port)),
            None => address_parts(addr@) is None,
        },
{
    match text::rsplit_once(addr, ':') {
        Some((host, port)) => match text::parse_u16(port.as_str()) {
            Some(n) => Some((strip_brackets(host.as_str()), n)),
            None => None,
        },
        None => None,
    }
}

/// What `lsof -F pn` tells line by line: a process, then its addresses. The current
/// process, and the listeners so far.
pub open spec fn lsof_state(lines: Seq<Seq<char>>) -> (Option<u32>, Seq<ListenerView>)
    decreases lines.len(),
{
    if lines.len() == 0 {
        (None, Seq::empty())
    } else {
        let (pid, list) = lsof_state(lines.drop_last());
        let line = lines.last();
        match after_prefix(line, "p"@) {
            Some(p) => (
                match parsed_number(trimmed(p), u32::MAX as nat) {
                    Some(n) => Some(n as u32),
                    None => None,
                },
                list,
            ),
            None => match after_prefix(line, "n"@) {
                Some(addr) => match address_parts(addr) {
                    Some((host, port)) => match pid {
                        Some(pid) => (Some(pid), list.push(ListenerView { pid, host, port })),
                        None => (pid, list),
                    },
                    None => (pid, list),
                },
                None => (pid, list),
            },
        }
    }
}

/// The listeners that `lsof -F pn` tells of. What cannot be read is passed over.
pub fn parse_lsof_output(out: &str) -> (r: Vec<Listener>)
    ensures
        listener_views(r@) == lsof_state(line_seq(out@)).1,
{
    let lines = text::lines(out);
    let ghost all = texts(lines@);
    let mut listeners: Vec<Listener> = Vec::new();
    let mut pid: Option<u32> = None;
    let mut i: usize = 0;
    assert(all.take(0) =~= Seq::empty());
    assert(listener_views(listeners@) =~= Seq::empty());
    while i < lines.len()
        invariant
            i <= lines@.len(),
            all == texts(lines@),
            (pid, listener_views(listeners@)) == lsof_state(all.take(i as int)),
        decreases lines@.len() - i,
    {
        let ghost before = listener_views(listeners@);
        let line = lines[i].as_str();
        proof {
            assert(all.take(i + 1).drop_last() =~= all.take(i as int));
            assert(all.take(i + 1).last() == line@);
        }
        match text::strip_prefix(line, "p") {
            Some(p) => {
                pid = text::parse_number(text::trim(p.as_str()).as_str(), u32::MAX);
            },
            None => {
                if let Some(addr) = text::strip_prefix(line, "n") {
                    if let Some((host, port)) = parse_address(addr.as_str()) {
                        if let Some(p) = pid {
                            let ghost h = host@;
                            listeners.push(Listener { pid: p, host, port });
                            assert(listener_views(listeners@) =~= before.push(
                                ListenerView { pid: p, host: h, port },
                            ));
                        }
                    }
                }
            },
        }
        i += 1;
    }
    assert(all.take(all.len() as int) =~= all);
    listeners
}

/// The last component of a path.
pub fn basename(path: &str) -> (r: String)
    ensures
        r@ == after_last(path@, '/'),
{
    text::tail_after(path, '/')
}

/// The name of a process in the output of `ps -o comm=`: the last component of
/// the command, or `None` where there is no output.
pub fn process_name_in(output: &str) -> (r: Option<String>)
    ensures
        opt_text(r) == if trimmed(output@).len() == 0 {
            None
        } else {
            Some(after_last(trimmed(output@), '/'))
        },
{
    let name = text::trim(output);
    if name.as_str().is_empty() {
        None
    } else {
        Some(basename(name.as_str()))
    }
}

/// Whether a port is worth asking: system services listen below 1024.
pub fn is_probed(port: u16) -> (r: bool)
    ensures
        r == (port >= 1024),
{
    port >= 1024
}

// ---------------------------------------------------------------------------
// Pages
// ---------------------------------------------------------------------------

/// A content type that a browser shows as a page.
pub open spec fn is_page(content_type: Seq<char>) -> bool {
    begins(lower(content_type), "text/html"@) || begins(
        lower(content_type),
        "application/xhtml+xml"@,
    )
}

/// Whether a content type is one that a browser shows as a page.
pub fn is_html(content_type: &str) -> (r: bool)
    ensures
        r == is_page(content_type@),
{
    let ct = text::lower_string(content_type);
    text::starts_with(ct.as_str(), "text/html") || text::starts_with(
        ct.as_str(),
        "application/xhtml+xml",
    )
}

/// Where the text of the first `title` element starts and ends, whatever the case
/// of its tags and whatever attributes the first of them has.
pub open spec fn title_span(body: Seq<char>) -> Option<(int, int)> {
    let low = lower(body);
    match found_from(low, "<title"@, 0) {
        Some(start) => match found_from(low, ">"@, start) {
            Some(gt) => match found_from(low, "</title>"@, gt + 1) {
                Some(end) => Some((gt + 1, end)),
                None => None,
            },
            None => None,
        },
        None => None,
    }
}

/// The title of a page; a blank one is none.
pub open spec fn page_title(body: Seq<char>) -> Option<Seq<char>> {
    match title_span(body) {
        Some((from, to)) => {
            let title = trimmed(body.subrange(from, to));
            if title.len() == 0 {
                None
            } else {
                Some(title)
            }
        },
        None => None,
    }
}

/// The title of a page.
pub fn extract_title(body: &str) -> (r: Option<String>)
    ensures
        opt_text(r) == page_title(body@),
{
    let v = text::chars(body);
    let low = text::lower_chars(&v);
    let open = text::chars("<title");
    let close = text::chars("</title>");
    let gt = text::chars(">");
    proof {
        reveal_strlit(">");
        text::lemma_found_from(low@, "<title"@, 0);
    }
    let start = match text::find(&low, &open, 0) {
        Some(i) => i,
        None => return None,
    };
    proof {
        text::lemma_found_from(low@, ">"@, start as int);
    }
    let from = match text::find(&low, &gt, start) {
        Some(i) => {
            assert(">"@.len() == 1 && i + 1 <= low.len());
            i + 1
        },
        None => return None,
    };
    proof {
        text::lemma_found_from(low@, "</title>"@, from as int);
    }
    let to = match text::find(&low, &close, from) {
        Some(i) => i,
        None => return None,
    };
    let (a, b) = text::trim_bounds(&v, from, to);
    if a == b {
        None
    } else {
        Some(text::slice_string(v.as_slice(), a, b))
    }
}

/// How much of a page is looked at for its title, in characters.
pub const HEAD_CHARS: usize = 65_536;

/// The beginning of a page.
pub open spec fn head_of(body: Seq<char>) -> Seq<char> {
    if body.len() <= HEAD_CHARS {
        body
    } else {
        body.take(HEAD_CHARS as int)
    }
}

/// The loopback origin of a port.
pub open spec fn origin_of(port: u16) -> Seq<char> {
    "http://127.0.0.1:"@ + decimal(port as nat)
}

/// The loopback origin of a port.
pub fn origin(port: u16) -> (r: String)
    ensures
        r@ == origin_of(port),
{
    text::concat2("http://127.0.0.1:", text::number(port as u64).as_str())
}

/// The server that an answer to a probe shows: one that succeeded, with a page. It
/// is named after the page, or else after the process.
pub open spec fn probed(
    listener: ListenerView,
    success: bool,
    content_type: Option<Seq<char>>,
    body: Option<Seq<char>>,
    process: Option<Seq<char>>,
) -> Option<ServerInfo> {
    if success && content_type is Some && is_page(content_type->0) && body is Some {
        let p = match process {
            Some(p) => p,
            None => "unknown"@,
        };
        Some(
            ServerInfo {
                id: Seq::empty(),
                name: match page_title(head_of(body->0)) {
                    Some(t) => t,
                    None => p,
                },
                host: "127.0.0.1"@,
                port: listener.port,
                origin: origin_of(listener.port),
                process: p,
                pid: listener.pid,
                is_current_context: false,
            },
        )
    } else {
        None
    }
}

/// The server that an answer to a probe shows, if it shows one. `content_type` and
/// `body` are `None` where the answer has none that can be read.
pub fn probe(
    listener: &Listener,
    success: bool,
    content_type: Option<&str>,
    body: Option<&str>,
    process: Option<&str>,
) -> (r: Option<Server>)
    ensures
        match r {
            Some(s) => probed(
                listener@,
                success,
                text::opt_str(content_type),
                text::opt_str(body),
                text::opt_str(process),
            ) == Some(s@),
            None => probed(
                listener@,
                success,
                text::opt_str(content_type),
                text::opt_str(body),
                text::opt_str(process),
            ) is None,
        },
{
    if !success {
        return None;
    }
    match content_type {
        Some(ct) => {
            if !is_html(ct) {
                return None;
            }
        },
        None => return None,
    }
    let page = match body {
        Some(b) => b,
        None => return None,
    };
    let v = text::chars(page);
    let n = if v.len() <= HEAD_CHARS {
        v.len()
    } else {
        HEAD_CHARS
    };
    let head = text::slice_string(v.as_slice(), 0, n);
    assert(head@ =~= head_of(page@));
    let owner = match process {
        Some(p) => text::owned(p),
        None => text::owned("unknown"),
    };
    let name = match extract_title(head.as_str()) {
        Some(t) => t,
        None => owner.clone(),
    };
    let id = String::new();
    assert(id@ =~= Seq::empty());
    Some(
        Server {
            id,
            name,
            host: text::owned("127.0.0.1"),
            port: listener.port,
            origin: origin(listener.port),
            process: owner,
            pid: listener.pid,
            is_current_context: false,
        },
    )
}

// ---------------------------------------------------------------------------
// The list
// ---------------------------------------------------------------------------

/// The servers of a list on one port, in order.
pub open spec fn on_port(list: Seq<ServerInfo>, port: u16) -> Seq<ServerInfo>
    decreases list.len(),
{
    if list.len() == 0 {
        Seq::empty()
    } else if list.last().port == port {
        on_port(list.drop_last(), port).push(list.last())
    } else {
        on_port(list.drop_last(), port)
    }
}

/// The ports of a list do not decrease.
pub open spec fn ports_in_order(list: Seq<ServerInfo>) -> bool {
    forall|i: int, j: int|
        0 <= i < j < list.len() ==> (#[trigger] list[i]).port <= (#[trigger] list[j]).port
}

/// The second list has the servers of the first by port, and on one port in the
/// order in which they were.
pub open spec fn is_by_port(list: Seq<ServerInfo>, sorted: Seq<ServerInfo>) -> bool {
    ports_in_order(sorted) && forall|p: u16| #[trigger] on_port(sorted, p) == on_port(list, p)
}

/// A list with the servers numbered from one.
pub open spec fn numbered(list: Seq<ServerInfo>) -> Seq<ServerInfo> {
    Seq::new(
        list.len(),
        |i: int| ServerInfo { id: "server_"@ + decimal((i + 1) as nat), ..list[i] },
    )
}

proof fn lemma_on_port_added(a: Seq<ServerInfo>, b: Seq<ServerInfo>, port: u16)
    ensures
        on_port(a + b, port) == on_port(a, port) + on_port(b, port),
    decreases b.len(),
{
    if b.len() == 0 {
        assert(a + b =~= a);
        assert(on_port(a, port) + Seq::<ServerInfo>::empty() =~= on_port(a, port));
    } else {
        let d = b.drop_last();
        lemma_on_port_added(a, d, port);
        assert((a + b).drop_last() =~= a + d);
        assert((a + b).last() == b.last());
        if b.last().port == port {
            assert((on_port(a, port) + on_port(d, port)).push(b.last()) =~= on_port(a, port)
                + on_port(d, port).push(b.last()));
        }
    }
}

proof fn lemma_none_on_port(list: Seq<ServerInfo>, port: u16)
    requires
        forall|i: int| 0 <= i < list.len() ==> (#[trigger] list[i]).port != port,
    ensures
        on_port(list, port) == Seq::<ServerInfo>::empty(),
    decreases list.len(),
{
    if list.len() > 0 {
        let d = list.drop_last();
        assert forall|i: int| 0 <= i < d.len() implies (#[trigger] d[i]).port != port by {
            assert(d[i] == list[i]);
        }
        lemma_none_on_port(d, port);
        assert(list[list.len() - 1].port != port);
    }
}

proof fn lemma_insert_by_port(
    list: Seq<ServerInfo>,
    sorted: Seq<ServerInfo>,
    at: int,
    s: ServerInfo,
)
    requires
        is_by_port(list, sorted),
        0 <= at <= sorted.len(),
        forall|j: int| 0 <= j < at ==> (#[trigger] sorted[j]).port <= s.port,
        at < sorted.len() ==> sorted[at].port > s.port,
    ensures
        is_by_port(list.push(s), sorted.insert(at, s)),
{
    let out = sorted.insert(at, s);
    let a = sorted.take(at);
    let b = sorted.skip(at);
    assert forall|i: int, j: int| 0 <= i < j < out.len() implies (#[trigger] out[i]).port <= (
    #[trigger] out[j]).port by {
        let oi = if i < at {
            i
        } else {
            i - 1
        };
        let oj = if j < at {
            j
        } else {
            j - 1
        };
        if i != at && j != at {
            assert(out[i] == sorted[oi] && out[j] == sorted[oj]);
        } else if i == at {
            assert(out[j] == sorted[j - 1]);
            assert(sorted[at].port <= sorted[j - 1].port);
        } else {
            assert(out[i] == sorted[i]);
        }
    }
    assert forall|p: u16| #[trigger] on_port(out, p) == on_port(list.push(s), p) by {
        assert(sorted =~= a + b);
        assert(out =~= a.push(s) + b);
        lemma_on_port_added(a, b, p);
        lemma_on_port_added(a.push(s), b, p);
        assert(a.push(s).drop_last() =~= a);
        assert(list.push(s).drop_last() =~= list);
        assert(on_port(sorted, p) == on_port(list, p));
        if p == s.port {
            assert forall|i: int| 0 <= i < b.len() implies (#[trigger] b[i]).port != p by {
                assert(b[i] == sorted[at + i]);
                assert(sorted[at].port <= sorted[at + i].port);
            }
            lemma_none_on_port(b, p);
            assert(on_port(a, p) + Seq::<ServerInfo>::empty() =~= on_port(a, p));
            assert(on_port(a, p).push(s) + Seq::<ServerInfo>::empty() =~= on_port(a, p).push(s));
        }
    }
}

/// Puts the servers in the order of their ports and numbers them.
pub fn arrange(servers: Vec<Server>) -> (r: Vec<Server>)
    ensures
        exists|sorted: Seq<ServerInfo>| #[trigger]
            is_by_port(server_views(servers@), sorted) && server_views(r@) == numbered(sorted),
{
    let ghost all = server_views(servers@);
    let mut out: Vec<Server> = Vec::new();
    assert(server_views(out@) =~= Seq::empty());
    assert(all.take(0) =~= Seq::empty());
    for server in it: servers
        invariant
            all == server_views(servers@),
            it.seq() == servers@,
            is_by_port(all.take(it.index() as int), server_views(out@)),
    {
        let ghost i = it.index() as int;
        let ghost before = server_views(out@);
        let ghost s = server@;
        let mut at: usize = 0;
        while at < out.len() && out[at].port <= server.port
            invariant
                at <= out@.len(),
                before == server_views(out@),
                forall|j: int| 0 <= j < at ==> (#[trigger] before[j]).port <= server.port,
            decreases out@.len() - at,
        {
            assert(before[at as int] == out@[at as int]@);
            at += 1;
        }
        if at < out.len() {
            assert(before[at as int] == out@[at as int]@);
        }
        out.insert(at, server);
        proof {
            assert(server_views(out@) =~= before.insert(at as int, s));
            lemma_insert_by_port(all.take(i), before, at as int, s);
            assert(all.take(i + 1) =~= all.take(i).push(s));
        }
    }
    assert(all.take(all.len() as int) =~= all);
    number_servers(out)
}

fn number_servers(list: Vec<Server>) -> (r: Vec<Server>)
    ensures
        server_views(r@) == numbered(server_views(list@)),
{
    let ghost all = server_views(list@);
    let mut out: Vec<Server> = Vec::new();
    let mut n: u64 = 0;
    let total = list.len();
    for server in it: list
        invariant
            all == server_views(list@),
            it.seq() == list@,
            n == it.index(),
            list@.len() == total,
            out@.len() == it.index(),
            forall|k: int|
                0 <= k < it.index() ==> (#[trigger] out@[k])@ == numbered(all)[k],
    {
        n = n + 1;
        let id = text::concat2("server_", text::number(n).as_str());
        let ghost k = it.index() as int;
        assert(all[k] == server@);
        out.push(
            Server {
                id,
                name: server.name,
                host: server.host,
                port: server.port,
                origin: server.origin,
                process: server.process,
                pid: server.pid,
                is_current_context: server.is_current_context,
            },
        );
        assert(out@[k]@ == numbered(all)[k]);
    }
    assert(server_views(out@) =~= numbered(all));
    out
}

/// The first server of that process on that port.
pub open spec fn server_pos(list: Seq<ServerInfo>, pid: u32, port: u16) -> int
    decreases list.len(),
{
    if list.len() == 0 || (list[0].pid == pid && list[0].port == port) {
        0
    } else {
        1 + server_pos(list.skip(1), pid, port)
    }
}

/// The first server of that process on that port: what is killed has to be a
/// server that was found just before.
pub fn find_server(list: &Vec<Server>, pid: u32, port: u16) -> (r: Option<usize>)
    ensures
        match r {
            Some(i) => i < list@.len() && server_pos(server_views(list@), pid, port) == i
                && list@[i as int].pid == pid && list@[i as int].port == port,
            None => server_pos(server_views(list@), pid, port) == list@.len() && forall|j: int|
                0 <= j < list@.len() ==> !((#[trigger] list@[j]).pid == pid && list@[j].port
                    == port),
        },
{
    let ghost all = server_views(list@);
    let mut i: usize = 0;
    assert(all.skip(0) =~= all);
    while i < list.len()
        invariant
            i <= list@.len(),
            all == server_views(list@),
            server_pos(all, pid, port) == i + server_pos(all.skip(i as int), pid, port),
            forall|j: int|
                0 <= j < i ==> !((#[trigger] list@[j]).pid == pid && list@[j].port == port),
        decreases list@.len() - i,
    {
        assert(all.skip(i as int)[0] == list@[i as int]@);
        if list[i].pid == pid && list[i].port == port {
            return Some(i);
        }
        assert(all.skip(i as int).skip(1) =~= all.skip(i + 1));
        i += 1;
    }
    None
}

/// What is said where the server is not there any more.
pub open spec fn stale_text(pid: u32, port: u16) -> Seq<char> {
    "pid "@ + decimal(pid as nat) + " on port "@ + decimal(port as nat)
        + " is not a discovered HTML server (stale?) — nothing killed"@
}

/// What is said where the server is not there any more.
pub fn stale_message(pid: u32, port: u16) -> (r: String)
    ensures
        r@ == stale_text(pid, port),
{
    let mut out = text::concat2("pid ", text::number(pid as u64).as_str());
    out.append(" on port ");
    out.append(text::number(port as u64).as_str());
    out.append(" is not a discovered HTML server (stale?) — nothing killed");
    out
}

/// What is said where the signal could not be sent.
pub fn signal_message(pid: u32) -> (r: String)
    ensures
        r@ == "could not signal pid "@ + decimal(pid as nat) + " (kill -TERM failed)"@,
{
    text::concat3(
        "could not signal pid ",
        text::number(pid as u64).as_str(),
        " (kill -TERM failed)",
    )
}

/// How far the killing of a server has come. Each state but the last two says what
/// is done next.
#[derive(Clone, Copy, PartialEq, Eq, Structural, Debug)]
pub enum KillState {
    /// Send the process SIGTERM.
    Terminate,
    /// Give it time to end.
    Grace,
    /// Send it SIGKILL.
    Force,
    /// Give it time to end once more.
    ForcedGrace,
    /// Look whether it is gone.
    Look { forced: bool },
    /// It could not be signalled.
    Refused,
    /// It was signalled, and is gone or not.
    Over { killed: bool, forced: bool },
}

/// A server of that process on that port is in a list.
pub open spec fn is_found(list: Seq<ServerInfo>, pid: u32, port: u16) -> bool {
    exists|i: int| 0 <= i < list.len() && (#[trigger] list[i]).pid == pid && list[i].port == port
}

/// How a kill starts, from the servers that were found just before: it is refused
/// where the process has no server on that port among them.
pub open spec fn kill_start(list: Seq<ServerInfo>, pid: u32, port: u16) -> Result<
    KillState,
    Seq<char>,
> {
    if is_found(list, pid, port) {
        Ok(KillState::Terminate)
    } else {
        Err(stale_text(pid, port))
    }
}

/// Starts a kill, or refuses it.
pub fn start_kill(list: &Vec<Server>, pid: u32, port: u16) -> (r: Result<KillState, String>)
    ensures
        match r {
            Ok(state) => kill_start(server_views(list@), pid, port) == Ok::<KillState, Seq<char>>(
                state,
            ),
            Err(e) => kill_start(server_views(list@), pid, port) == Err::<KillState, Seq<char>>(e@),
        },
{
    let ghost all = server_views(list@);
    match find_server(list, pid, port) {
        Some(i) => {
            assert(all[i as int] == list@[i as int]@);
            Ok(KillState::Terminate)
        },
        None => {
            assert forall|j: int| 0 <= j < all.len() implies !((#[trigger] all[j]).pid == pid
                && all[j].port == port) by {
                assert(all[j] == list@[j]@);
            }
            Err(stale_message(pid, port))
        },
    }
}

/// The arguments of the `kill` command that a state asks for; `None` where it sends
/// no signal.
pub open spec fn signal_for(state: KillState, pid: u32) -> Option<Seq<Seq<char>>> {
    match state {
        KillState::Terminate => Some(seq!["-TERM"@, decimal(pid as nat)]),
        KillState::Force => Some(seq!["-KILL"@, decimal(pid as nat)]),
        _ => None,
    }
}

/// The arguments of the `kill` command that a state asks for.
pub fn signal_args(state: KillState, pid: u32) -> (r: Option<Vec<String>>)
    ensures
        match r {
            Some(args) => signal_for(state, pid) == Some(texts(args@)),
            None => signal_for(state, pid) is None,
        },
{
    let name = match state {
        KillState::Terminate => "-TERM",
        KillState::Force => "-KILL",
        _ => return None,
    };
    let args = vec![text::owned(name), text::number(pid as u64)];
    assert(texts(args@) =~= seq![name@, decimal(pid as nat)]);
    Some(args)
}

/// How long a process is given to end, and how long is waited between two looks at
/// it, in milliseconds.
pub const GRACE_MILLIS: u64 = 2_000;

pub const LOOK_MILLIS: u64 = 200;

/// Whether a process is looked at again: it was not gone, and has time left.
pub fn looks_again(gone: bool, waited_millis: u64) -> (r: bool)
    ensures
        r == (!gone && waited_millis < GRACE_MILLIS),
{
    !gone && waited_millis < GRACE_MILLIS
}

/// The state after something was done. `ok` says that a signal was sent, or that
/// the process is gone.
pub open spec fn kill_next(state: KillState, ok: bool, force: bool) -> KillState {
    match state {
        KillState::Terminate => if ok {
            KillState::Grace
        } else {
            KillState::Refused
        },
        KillState::Grace => if !ok && force {
            KillState::Force
        } else {
            KillState::Look { forced: false }
        },
        KillState::Force => KillState::ForcedGrace,
        KillState::ForcedGrace => KillState::Look { forced: true },
        KillState::Look { forced } => KillState::Over { killed: ok, forced },
        KillState::Refused => KillState::Refused,
        KillState::Over { killed, forced } => KillState::Over { killed, forced },
    }
}

/// Ends a process: SIGTERM, and SIGKILL where it has not ended in time and `force`
/// was asked for. A SIGKILL that cannot be sent is passed over.
pub fn kill(state: KillState, ok: bool, force: bool) -> (r: KillState)
    ensures
        r == kill_next(state, ok, force),
{
    match state {
        KillState::Terminate => if ok {
            KillState::Grace
        } else {
            KillState::Refused
        },
        KillState::Grace => if !ok && force {
            KillState::Force
        } else {
            KillState::Look { forced: false }
        },
        KillState::Force => KillState::ForcedGrace,
        KillState::ForcedGrace => KillState::Look { forced: true },
        KillState::Look { forced } => KillState::Over { killed: ok, forced },
        KillState::Refused => KillState::Refused,
        KillState::Over { killed, forced } => KillState::Over { killed, forced },
    }
}

/// The state after a run of answers.
pub open spec fn kill_run(answers: Seq<bool>, force: bool) -> KillState
    decreases answers.len(),
{
    if answers.len() == 0 {
        KillState::Terminate
    } else {
        kill_next(kill_run(answers.drop_last(), force), answers.last(), force)
    }
}

/// How far a kill has come after a run of answers, or why it was refused.
pub open spec fn kill_course(
    list: Seq<ServerInfo>,
    pid: u32,
    port: u16,
    answers: Seq<bool>,
    force: bool,
) -> Result<KillState, Seq<char>> {
    match kill_start(list, pid, port) {
        Ok(_) => Ok(kill_run(answers, force)),
        Err(e) => Err(e),
    }
}

/// SIGKILL has been sent, or is about to be.
pub open spec fn is_forced(state: KillState) -> bool {
    match state {
        KillState::Force | KillState::ForcedGrace => true,
        KillState::Look { forced } => forced,
        KillState::Over { forced, .. } => forced,
        _ => false,
    }
}

/// A process is killed by force only where that was asked for, after SIGTERM was
/// sent and did not end it in time; a kill is over after five answers at most, and
/// is refused just where SIGTERM could not be sent.
pub proof fn law_force_is_the_last_resort(answers: Seq<bool>, force: bool)
    ensures
        is_forced(kill_run(answers, force)) ==> force && answers.len() >= 2 && answers[0]
            && !answers[1],
        answers.len() >= 5 ==> kill_run(answers, force) is Over || kill_run(answers, force)
            is Refused,
        answers.len() > 0 ==> (kill_run(answers, force) is Refused <==> !answers[0]),
    decreases answers.len(),
{
    let n = answers.len();
    if n > 0 {
        let before = answers.drop_last();
        law_force_is_the_last_resort(before, force);
        lemma_kill_length(before, force);
        assert(n > 1 ==> before[0] == answers[0]);
        assert(n > 2 ==> before[1] == answers[1]);
    }
}

/// A process that has no server on that port among those found is never signalled:
/// the kill is refused at once, whatever would have followed. Otherwise every signal
/// goes to that process, the first is SIGTERM, and any other is SIGKILL.
pub proof fn law_stale_kill_signals_nobody(
    list: Seq<ServerInfo>,
    pid: u32,
    port: u16,
    answers: Seq<bool>,
    force: bool,
)
    ensures
        !is_found(list, pid, port) ==> kill_course(list, pid, port, answers, force) == Err::<
            KillState,
            Seq<char>,
        >(stale_text(pid, port)),
        is_found(list, pid, port) ==> kill_course(list, pid, port, answers, force) == Ok::<
            KillState,
            Seq<char>,
        >(kill_run(answers, force)),
        signal_for(kill_run(answers, force), pid) matches Some(args) ==> args == seq![
            if answers.len() == 0 {
                "-TERM"@
            } else {
                "-KILL"@
            },
            decimal(pid as nat),
        ],
        answers.len() == 0 ==> signal_for(kill_run(answers, force), pid) is Some,
{
    lemma_kill_length(answers, force);
}

/// A kill is said to have been forced just where SIGKILL was sent.
pub proof fn law_forced_says_what_was_sent(answers: Seq<bool>, force: bool)
    ensures
        is_forced(kill_run(answers, force)) <==> answers.len() >= 2 && kill_run(
            answers.take(2),
            force,
        ) == KillState::Force,
    decreases answers.len(),
{
    lemma_kill_length(answers, force);
    if answers.len() == 2 {
        assert(answers.take(2) =~= answers);
    } else if answers.len() > 2 {
        let before = answers.drop_last();
        assert(before.take(2) =~= answers.take(2));
        lemma_kill_length(before, force);
        law_forced_says_what_was_sent(before, force);
    }
}

proof fn lemma_kill_length(answers: Seq<bool>, force: bool)
    ensures
        match kill_run(answers, force) {
            KillState::Terminate => answers.len() == 0,
            KillState::Grace => answers.len() == 1 && answers[0],
            KillState::Force => answers.len() == 2,
            KillState::ForcedGrace => answers.len() == 3,
            KillState::Look { forced } => answers.len() == if forced {
                4int
            } else {
                2
            },
            KillState::Over { .. } => answers.len() > 2,
            KillState::Refused => answers.len() > 0,
        },
    decreases answers.len(),
{
    if answers.len() > 0 {
        lemma_kill_length(answers.drop_last(), force);
    }
}

// ---------------------------------------------------------------------------
// JSON
// ---------------------------------------------------------------------------

/// A server as a JSON document.
pub open spec fn server_tree(s: ServerInfo) -> JsonTree {
    Tree::Table(
        with_key(
            with_key(
                with_key(
                    with_key(
                        with_key(
                            with_key(
                                with_key(
                                    with_key(Seq::empty(), "id"@, JsonTree::Text(s.id)),
                                    "name"@,
                                    JsonTree::Text(s.name),
                                ),
                                "host"@,
                                JsonTree::Text(s.host),
                            ),
                            "port"@,
                            number_tree(s.port as u64),
                        ),
                        "origin"@,
                        JsonTree::Text(s.origin),
                    ),
                    "process"@,
                    JsonTree::Text(s.process),
                ),
                "pid"@,
                number_tree(s.pid as u64),
            ),
            "isCurrentContext"@,
            JsonTree::Leaf(Scalar::Bool(s.is_current_context)),
        ),
    )
}

/// A server as a JSON document.
pub fn server_json(s: &Server) -> (r: Json)
    ensures
        r@ == server_tree(s@),
        well_formed(r@),
{
    broadcast use lemma_table_view;

    let mut m = json::no_entries();
    json::put(&mut m, "id", text_node(s.id.as_str()));
    json::put(&mut m, "name", text_node(s.name.as_str()));
    json::put(&mut m, "host", text_node(s.host.as_str()));
    json::put(&mut m, "port", json::number(s.port as u64));
    json::put(&mut m, "origin", text_node(s.origin.as_str()));
    json::put(&mut m, "process", text_node(s.process.as_str()));
    json::put(&mut m, "pid", json::number(s.pid as u64));
    json::put(&mut m, "isCurrentContext", json::boolean(s.is_current_context));
    Node::Table(m)
}

/// The documents of a list of servers.
pub open spec fn server_trees(list: Seq<ServerInfo>) -> Seq<JsonTree> {
    Seq::new(list.len(), |i: int| server_tree(list[i]))
}

/// The list of servers as a JSON document.
pub fn servers_json(list: &Vec<Server>) -> (r: Json)
    ensures
        r@ == JsonTree::Table(
            with_key(
                Seq::empty(),
                "servers"@,
                JsonTree::Array(server_trees(server_views(list@))),
            ),
        ),
        well_formed(r@),
{
    broadcast use {lemma_table_view, lemma_array_view};

    let ghost want = server_trees(server_views(list@));
    let mut items: Vec<Json> = Vec::new();
    let mut i: usize = 0;
    while i < list.len()
        invariant
            i <= list@.len(),
            want == server_trees(server_views(list@)),
            items@.len() == i,
            forall|k: int|
                0 <= k < i ==> (#[trigger] items@[k])@ == want[k] && well_formed(items@[k]@),
        decreases list@.len() - i,
    {
        items.push(server_json(&list[i]));
        i += 1;
    }
    assert(views(items@) =~= want);
    proof {
        lemma_array_well_formed(views(items@));
    }
    let mut m = json::no_entries();
    json::put(&mut m, "servers", Node::Array(items));
    Node::Table(m)
}

/// What came of a kill as a JSON document.
pub fn kill_json(killed: bool, forced: bool, server: &Server) -> (r: Json)
    ensures
        r@ == JsonTree::Table(
            with_key(
                with_key(
                    with_key(
                        with_key(
                            with_key(
                                Seq::empty(),
                                "killed"@,
                                JsonTree::Leaf(Scalar::Bool(killed)),
                            ),
                            "forced"@,
                            JsonTree::Leaf(Scalar::Bool(forced)),
                        ),
                        "pid"@,
                        number_tree(server.pid as u64),
                    ),
                    "port"@,
                    number_tree(server.port as u64),
                ),
                "server"@,
                server_tree(server@),
            ),
        ),
        well_formed(r@),
{
    broadcast use lemma_table_view;

    let mut m = json::no_entries();
    json::put(&mut m, "killed", json::boolean(killed));
    json::put(&mut m, "forced", json::boolean(forced));
    json::put(&mut m, "pid", json::number(server.pid as u64));
    json::put(&mut m, "port", json::number(server.port as u64));
    json::put(&mut m, "server", server_json(server));
    Node::Table(m)
}

} // verus!
