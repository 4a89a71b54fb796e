//! Local development servers for the browser preview: which loopback sockets
//! listen, and what the servers behind them call themselves.

use crate::text;
use crate::text::{
    after_prefix, begins, cut_last, cut_once, holds, line_seq, lower, opt_text, parsed_number, pos,
    texts, trimmed, without_leading, without_suffix, word_seq,
};
use vstd::prelude::*;

verus! {

/// A development server.
#[derive(Debug, PartialEq)]
pub struct DevServer {
    pub port: u16,
    pub process: String,
    pub bind: String,
    pub name: Option<String>,
}

/// An address, as the number that it is.
#[derive(Debug, Clone, Copy, PartialEq, Eq, Structural)]
pub enum Ip {
    V4(u32),
    V6(u128),
}

/// An address and a port.
#[derive(Debug, Clone, Copy, PartialEq, Eq, Structural)]
pub struct Socket {
    pub ip: Ip,
    pub port: u16,
}

/// The loopback addresses: all of 127.0.0.0/8, and ::1.
pub open spec fn loops_back(ip: Ip) -> bool {
    match ip {
        Ip::V4(a) => a / 0x100_0000 == 127,
        Ip::V6(a) => a == 1,
    }
}

impl Ip {
    /// Whether this is a loopback address.
    pub fn is_loopback(&self) -> (r: bool)
        ensures
            r == loops_back(*self),
    {
        match self {
            Ip::V4(a) => *a / 0x100_0000 == 127,
            Ip::V6(a) => *a == 1,
        }
    }
}

/// The first socket comes before the second: by address, four-byte ones first,
/// then by port.
pub open spec fn comes_before(a: Socket, b: Socket) -> bool {
    match (a.ip, b.ip) {
        (Ip::V4(x), Ip::V4(y)) => x < y || (x == y && a.port < b.port),
        (Ip::V4(_), Ip::V6(_)) => true,
        (Ip::V6(_), Ip::V4(_)) => false,
        (Ip::V6(x), Ip::V6(y)) => x < y || (x == y && a.port < b.port),
    }
}

fn precedes(a: Socket, b: Socket) -> (r: bool)
    ensures
        r == comes_before(a, b),
{
    match (a.ip, b.ip) {
        (Ip::V4(x), Ip::V4(y)) => x < y || (x == y && a.port < b.port),
        (Ip::V4(_), Ip::V6(_)) => true,
        (Ip::V6(_), Ip::V4(_)) => false,
        (Ip::V6(x), Ip::V6(y)) => x < y || (x == y && a.port < b.port),
    }
}

/// A list is in strictly increasing order: nothing stands in it twice.
pub open spec fn strictly_in_order(s: Seq<Socket>) -> bool {
    forall|i: int, j: int| 0 <= i < j < s.len() ==> comes_before(#[trigger] s[i], #[trigger] s[j])
}

/// The loopback sockets of a list, in order, each once.
pub fn loopback_listeners(sockets: &Vec<Socket>) -> (r: Vec<Socket>)
    ensures
        strictly_in_order(r@),
        forall|s: Socket| #[trigger]
            r@.contains(s) <==> sockets@.contains(s) && loops_back(s.ip),
{
    let mut out: Vec<Socket> = Vec::new();
    let mut i: usize = 0;
    while i < sockets.len()
        invariant
            i <= sockets@.len(),
            strictly_in_order(out@),
            forall|s: Socket| #[trigger]
                out@.contains(s) <==> sockets@.take(i as int).contains(s) && loops_back(s.ip),
        decreases sockets@.len() - i,
    {
        let x = sockets[i];
        let ghost before = out@;
        proof {
            assert forall|s: Socket| #[trigger]
                sockets@.take(i + 1).contains(s) <==> sockets@.take(i as int).contains(s) || s
                == x by {
                lemma_take_contains(sockets@, i as int, s);
            }
        }
        if x.ip.is_loopback() {
            let mut at: usize = 0;
            while at < out.len() && precedes(out[at], x)
                invariant
                    at <= out@.len(),
                    out@ == before,
                    forall|j: int| 0 <= j < at ==> comes_before(#[trigger] out@[j], x),
                decreases out@.len() - at,
            {
                at += 1;
            }
            if at < out.len() && out[at] == x {
                assert(out@.contains(out@[at as int]));
            } else {
                out.insert(at, x);
                proof {
                    lemma_insert_socket(before, at as int, x);
                }
            }
        }
        i += 1;
    }
    assert(sockets@.take(sockets@.len() as int) =~= sockets@);
    out
}

proof fn lemma_take_contains(s: Seq<Socket>, n: int, x: Socket)
    requires
        0 <= n < s.len(),
    ensures
        s.take(n + 1).contains(x) <==> s.take(n).contains(x) || x == s[n],
{
    if s.take(n).contains(x) {
        let j = s.take(n).index_of(x);
        assert(s.take(n + 1)[j] == x);
    }
    if x == s[n] {
        assert(s.take(n + 1)[n] == x);
    }
    if s.take(n + 1).contains(x) && x != s[n] {
        let j = s.take(n + 1).index_of(x);
        assert(s.take(n)[j] == x);
    }
}

proof fn lemma_insert_socket(s: Seq<Socket>, at: int, x: Socket)
    requires
        strictly_in_order(s),
        0 <= at <= s.len(),
        forall|j: int| 0 <= j < at ==> comes_before(#[trigger] s[j], x),
        at < s.len() ==> !comes_before(s[at], x) && s[at] != x,
    ensures
        strictly_in_order(s.insert(at, x)),
        forall|y: Socket| #[trigger] s.insert(at, x).contains(y) <==> s.contains(y) || y == x,
{
    let t = s.insert(at, x);
    assert forall|i: int, j: int| 0 <= i < j < t.len() implies comes_before(
        #[trigger] t[i],
        #[trigger] t[j],
    ) by {
        if i == at {
            assert(t[j] == s[j - 1]);
            if j - 1 > at {
                assert(comes_before(s[at], s[j - 1]));
            }
        } else if j == at {
            assert(t[i] == s[i]);
        } else {
            let oi = if i < at {
                i
            } else {
                i - 1
            };
            let oj = if j < at {
                j
            } else {
                j - 1
            };
            assert(t[i] == s[oi] && t[j] == s[oj]);
        }
    }
    assert forall|y: Socket| #[trigger] t.contains(y) <==> s.contains(y) || y == x by {
        if s.contains(y) {
            let i = s.index_of(y);
            let k = if i < at {
                i
            } else {
                i + 1
            };
            assert(t[k] == y);
        }
        if y == x {
            assert(t[at] == y);
        }
        if t.contains(y) && y != x {
            let k = t.index_of(y);
            let i = if k < at {
                k
            } else {
                k - 1
            };
            assert(s[i] == y);
        }
    }
}

/// The address and the port that a socket is written with: `127.0.0.1:8080`,
/// `[::1]:8080`, each perhaps with `(LISTEN)` behind it.
pub open spec fn socket_parts(s: Seq<char>) -> Option<(Seq<char>, u16)> {
    let t = trimmed(without_suffix(s, "(LISTEN)"@));
    match after_prefix(t, "["@) {
        Some(inner) => {
            let end = pos(inner, ']');
            if end >= inner.len() {
                None
            } else {
                match parsed_number(without_leading(inner.skip(end + 1), ':'), u16::MAX as nat) {
                    Some(port) => Some((inner.take(end), port as u16)),
                    None => None,
                }
            }
        },
        None => match cut_last(t, ':') {
            Some((ip, port)) => match parsed_number(port, u16::MAX as nat) {
                Some(n) => Some((ip, n as u16)),
                None => None,
            },
            None => None,
        },
    }
}

/// Takes a written socket apart into its address and its port.
pub fn parse_socket(s: &str) -> (r: Option<(String, u16)>)
    ensures
        match r {
            Some((ip, port)) => socket_parts(s@) == Some((ip@, port)),
            None => socket_parts(s@) is None,
        },
{
    let bare = text::trim_end_text(s, "(LISTEN)");
    let t = text::trim(bare.as_str());
    match text::strip_prefix(t.as_str(), "[") {
        Some(inner) => {
            let v = text::chars(inner.as_str());
            let end = text::char_from(&v, ']', 0);
            proof {
                assert(v@.skip(0) =~= v@);
                text::lemma_pos(v@, ']');
            }
            if end >= v.len() {
                return None;
            }
            let ip = text::slice_string(v.as_slice(), 0, end);
            let rest = text::slice_string(v.as_slice(), end + 1, v.len());
            assert(ip@ =~= v@.take(end as int));
            assert(rest@ =~= v@.skip(end + 1));
            let port = text::trim_start_char(rest.as_str(), ':');
            match text::parse_u16(port.as_str()) {
                Some(n) => Some((ip, n)),
                None => None,
            }
        },
        None => match text::rsplit_once(t.as_str(), ':') {
            Some((ip, port)) => match text::parse_u16(port.as_str()) {
                Some(n) => Some((ip, n)),
                None => None,
            },
            None => None,
        },
    }
}

/// The sockets that lines of `lsof` output name, in their ninth column.
pub open spec fn sockets_in(lines: Seq<Seq<char>>) -> Seq<(Seq<char>, u16)>
    decreases lines.len(),
{
    if lines.len() == 0 {
        Seq::empty()
    } else {
        let rest = sockets_in(lines.drop_last());
        let fields = word_seq(lines.last());
        if fields.len() < 9 {
            rest
        } else {
            match socket_parts(fields[8]) {
                Some(s) => rest.push(s),
                None => rest,
            }
        }
    }
}

/// The views of a list of written sockets.
pub open spec fn socket_views(v: Seq<(String, u16)>) -> Seq<(Seq<char>, u16)> {
    Seq::new(v.len(), |i: int| (v[i].0@, v[i].1))
}

/// Everything after the first line.
pub open spec fn below_header(lines: Seq<Seq<char>>) -> Seq<Seq<char>> {
    if lines.len() == 0 {
        lines
    } else {
        lines.skip(1)
    }
}

/// The sockets that the output of `lsof` names below its header.
pub fn listed_sockets(output: &str) -> (r: Vec<(String, u16)>)
    ensures
        socket_views(r@) == sockets_in(below_header(line_seq(output@))),
{
    let lines = text::lines(output);
    let ghost body = below_header(texts(lines@));
    let mut out: Vec<(String, u16)> = Vec::new();
    assert(socket_views(out@) =~= Seq::empty());
    if lines.len() == 0 {
        return out;
    }
    let mut i: usize = 1;
    assert(body.take(0) =~= Seq::empty());
    while i < lines.len()
        invariant
            1 <= i <= lines@.len(),
            body == texts(lines@).skip(1),
            socket_views(out@) == sockets_in(body.take(i - 1)),
        decreases lines@.len() - i,
    {
        let ghost before = socket_views(out@);
        proof {
            assert(body.take(i as int).drop_last() =~= body.take(i - 1));
            assert(body.take(i as int).last() == lines@[i as int]@);
        }
        let fields = text::words(lines[i].as_str());
        assert(texts(fields@).len() == fields@.len());
        if fields.len() >= 9 {
            assert(texts(fields@)[8] == fields@[8]@);
            if let Some((ip, port)) = parse_socket(fields[8].as_str()) {
                let ghost shown = (ip@, port);
                out.push((ip, port));
                assert(socket_views(out@) =~= before.push(shown));
            }
        }
        i += 1;
    }
    assert(body.take(body.len() as int) =~= body);
    out
}

/// A server name that says nothing of the application behind it.
pub open spec fn is_generic(name: Seq<char>) -> bool {
    holds(name, "nginx"@) || holds(name, "apache"@) || holds(name, "gunicorn"@)
}

/// The value of a header line whose name, with its colon, is `header` in lower case.
pub open spec fn header_value(line: Seq<char>, header: Seq<char>) -> Option<Seq<char>> {
    match cut_once(line, ":"@) {
        Some((_, value)) => if begins(lower(line), header) {
            Some(trimmed(value))
        } else {
            None
        },
        None => None,
    }
}

/// The value of the first line of a header.
pub open spec fn first_value(lines: Seq<Seq<char>>, header: Seq<char>) -> Option<Seq<char>>
    decreases lines.len(),
{
    if lines.len() == 0 {
        None
    } else {
        match header_value(lines[0], header) {
            Some(v) => Some(v),
            None => first_value(lines.skip(1), header),
        }
    }
}

/// The value of the first `Server` line that is not generic.
pub open spec fn server_value(lines: Seq<Seq<char>>) -> Option<Seq<char>>
    decreases lines.len(),
{
    if lines.len() == 0 {
        None
    } else {
        match header_value(lines[0], "server:"@) {
            Some(v) => if is_generic(v) {
                server_value(lines.skip(1))
            } else {
                Some(v)
            },
            None => server_value(lines.skip(1)),
        }
    }
}

/// The name that an HTTP answer gives the server: the application's own, and only
/// where there is none that of the server program.
pub open spec fn name_in(lines: Seq<Seq<char>>) -> Option<Seq<char>> {
    match first_value(lines, "x-app-name:"@) {
        Some(n) => Some(n),
        None => server_value(lines),
    }
}

fn value_of(line: &str, header: &str) -> (r: Option<String>)
    ensures
        opt_text(r) == header_value(line@, header@),
{
    let low = text::lower_string(line);
    match text::split_once(line, ":") {
        Some((_, value)) => if text::starts_with(low.as_str(), header) {
            Some(text::trim(value.as_str()))
        } else {
            None
        },
        None => None,
    }
}

fn app_name(lines: &Vec<String>) -> (r: Option<String>)
    ensures
        opt_text(r) == first_value(texts(lines@), "x-app-name:"@),
{
    let ghost all = texts(lines@);
    let mut i: usize = 0;
    assert(all.skip(0) =~= all);
    while i < lines.len()
        invariant
            i <= lines@.len(),
            all == texts(lines@),
            first_value(all, "x-app-name:"@) == first_value(all.skip(i as int), "x-app-name:"@),
        decreases lines@.len() - i,
    {
        assert(all.skip(i as int)[0] == lines@[i as int]@);
        if let Some(n) = value_of(lines[i].as_str(), "x-app-name:") {
            return Some(n);
        }
        assert(all.skip(i as int).skip(1) =~= all.skip(i + 1));
        i += 1;
    }
    None
}

fn server_name(lines: &Vec<String>) -> (r: Option<String>)
    ensures
        opt_text(r) == server_value(texts(lines@)),
{
    let ghost all = texts(lines@);
    let mut i: usize = 0;
    assert(all.skip(0) =~= all);
    while i < lines.len()
        invariant
            i <= lines@.len(),
            all == texts(lines@),
            server_value(all) == server_value(all.skip(i as int)),
        decreases lines@.len() - i,
    {
        assert(all.skip(i as int)[0] == lines@[i as int]@);
        if let Some(name) = value_of(lines[i].as_str(), "server:") {
            let n = name.as_str();
            let generic = text::contains(n, "nginx") || text::contains(n, "apache")
                || text::contains(n, "gunicorn");
            if !generic {
                return Some(name);
            }
        }
        assert(all.skip(i as int).skip(1) =~= all.skip(i + 1));
        i += 1;
    }
    None
}

/// The name that an HTTP answer gives the server.
pub fn extract_name(headers: &str) -> (r: Option<String>)
    ensures
        opt_text(r) == name_in(line_seq(headers@)),
{
    let lines = text::lines(headers);
    match app_name(&lines) {
        Some(n) => Some(n),
        None => server_name(&lines),
    }
}

/// The command in the first line of `lsof` output that has one.
pub open spec fn process_in(lines: Seq<Seq<char>>) -> Option<Seq<char>>
    decreases lines.len(),
{
    if lines.len() == 0 {
        None
    } else if word_seq(lines[0]).len() >= 2 {
        Some(word_seq(lines[0])[0])
    } else {
        process_in(lines.skip(1))
    }
}

/// The process that the output of `lsof` for one socket names below its header.
pub fn process_name_in(output: &str) -> (r: Option<String>)
    ensures
        opt_text(r) == process_in(below_header(line_seq(output@))),
{
    let lines = text::lines(output);
    let ghost body = below_header(texts(lines@));
    if lines.len() == 0 {
        return None;
    }
    let mut i: usize = 1;
    assert(body.skip(0) =~= body);
    while i < lines.len()
        invariant
            1 <= i <= lines@.len(),
            body == texts(lines@).skip(1),
            process_in(body) == process_in(body.skip(i - 1)),
            body == below_header(line_seq(output@)),
        decreases lines@.len() - i,
    {
        assert(body.skip(i - 1)[0] == lines@[i as int]@);
        let fields = text::words(lines[i].as_str());
        assert(texts(fields@).len() == fields@.len());
        if fields.len() >= 2 {
            assert(texts(fields@)[0] == fields@[0]@);
            return Some(fields[0].clone());
        }
        assert(body.skip(i - 1).skip(1) =~= body.skip(i as int));
        i += 1;
    }
    None
}

/// What a port answered is HTTP: it starts with a status line.
pub open spec fn is_http(answer: Seq<char>) -> bool {
    begins(answer, "HTTP/"@)
}

/// The development server behind a socket, where it answers HTTP. `bind` is the
/// socket's address as text, `process` the name of the process behind it, and
/// `headers` what it answered to a request, if it did.
pub fn discover(socket: Socket, bind: &str, process: Option<&str>, headers: Option<&str>) -> (r:
    Option<DevServer>)
    ensures
        r is Some <==> headers is Some && is_http(headers->0@),
        r matches Some(server) ==> {
            &&& server.port == socket.port
            &&& server.bind@ == bind@
            &&& server.process@ == match process {
                Some(p) => p@,
                None => "unknown"@,
            }
            &&& opt_text(server.name) == name_in(line_seq(headers->0@))
        },
{
    match headers {
        Some(h) if text::starts_with(h, "HTTP/") => Some(
            DevServer {
                port: socket.port,
                process: match process {
                    Some(p) => text::owned(p),
                    None => text::owned("unknown"),
                },
                bind: text::owned(bind),
                name: extract_name(h),
            },
        ),
        _ => None,
    }
}

/// A name that the application gives itself wins over that of the server program,
/// wherever the two stand in the answer.
pub proof fn law_app_name_comes_first(lines: Seq<Seq<char>>, i: int)
    requires
        0 <= i < lines.len(),
        header_value(lines[i], "x-app-name:"@) is Some,
    ensures
        exists|j: int|
            0 <= j <= i && #[trigger] header_value(lines[j], "x-app-name:"@) == name_in(lines)
                && name_in(lines) is Some,
{
    lemma_first_value(lines, "x-app-name:"@, i);
}

proof fn lemma_first_value(lines: Seq<Seq<char>>, header: Seq<char>, i: int)
    requires
        0 <= i < lines.len(),
        header_value(lines[i], header) is Some,
    ensures
        first_value(lines, header) is Some,
        exists|j: int|
            0 <= j <= i && #[trigger] header_value(lines[j], header) == first_value(lines, header),
    decreases lines.len(),
{
    if header_value(lines[0], header) is None {
        let rest = lines.skip(1);
        assert(rest[i - 1] == lines[i]);
        lemma_first_value(rest, header, i - 1);
        let j = choose|j: int|
            0 <= j <= i - 1 && #[trigger] header_value(rest[j], header) == first_value(
                rest,
                header,
            );
        assert(lines[j + 1] == rest[j]);
        assert(header_value(lines[j + 1], header) == first_value(lines, header));
    } else {
        assert(header_value(lines[0], header) == first_value(lines, header));
    }
}

} // verus!
