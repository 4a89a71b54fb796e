//! Laws of what is found on the machine's ports and on the network, of how a server
//! is ended, and of the secrets and sockets that the host keeps.

use crate::discovery::{announced_properties, dns_name_in, first_label, places};
use crate::ids::{hyphenated, simple};
use crate::ipc::socket_at;
use crate::json::{number_tree, JsonTree, Scalar};
use crate::laws::text::{
    law_cut_is_at_the_first, law_decimal_reads_back, law_last_cut, law_pieces, law_trim,
};
use crate::paths::{path_joined, DirError};
use crate::preview::{
    below_header, comes_before, first_value, header_value, is_generic, is_http, loops_back, name_in,
    process_in, server_value, socket_parts, sockets_in, Ip, Socket,
};
use crate::secret::{lemma_hex_has_no_white, secret_path, stored, Backend};
use crate::servers::{
    address_parts, is_by_port, kill_run, kill_start, lsof_state, numbered, on_port, server_pos,
    server_tree, signal_for, unbracketed_end, unbracketed_front, GRACE_MILLIS, KillState,
    LOOK_MILLIS, ListenerView, ServerInfo,
};
use crate::text::{
    after_prefix, begins, decimal, holds, is_white, lemma_pos_is, lemma_trimmed_same, lower,
    parsed_number, pos, stands_at, trimmed, without_leading, without_suffix, without_trailing,
    word_seq,
};
use crate::tree::{field, lemma_with_key, lookup, text_field, with_key};
use vstd::prelude::*;

verus! {

// ---------------------------------------------------------------------------
// Listening ports
// ---------------------------------------------------------------------------

proof fn lemma_port_digits(port: u16)
    ensures
        parsed_number(decimal(port as nat), u16::MAX as nat) == Some(port as nat),
        decimal(port as nat).len() > 0,
        !decimal(port as nat).contains(':'),
        !decimal(port as nat).contains(']'),
        forall|i: int|
            0 <= i < decimal(port as nat).len() ==> '0' <= #[trigger] decimal(port as nat)[i]
                <= '9',
{
    law_decimal_reads_back(port as nat, u16::MAX as nat);
}

/// An address is a host and a port with a colon between them, whatever colons the
/// host has; brackets round the host are no part of it.
pub proof fn law_address(host: Seq<char>, port: u16)
    requires
        host.len() > 0,
        host[0] != '[' && host[0] != ']' && host.last() != '[' && host.last() != ']',
    ensures
        address_parts(host + seq![':'] + decimal(port as nat)) == Some((host, port)),
        address_parts(seq!['['] + host + seq![']'] + seq![':'] + decimal(port as nat)) == Some(
            (host, port),
        ),
        !host.contains(':') ==> address_parts(host) is None,
{
    lemma_port_digits(port);
    law_last_cut(host, ':', decimal(port as nat));
    let boxed = seq!['['] + host + seq![']'];
    law_last_cut(boxed, ':', decimal(port as nat));
    assert(boxed[0] == '[');
    assert(boxed.skip(1) =~= host + seq![']']);
    assert((host + seq![']'])[0] == host[0]);
    assert(unbracketed_front(boxed) == unbracketed_front(boxed.skip(1)));
    assert(unbracketed_front(host + seq![']']) == host + seq![']']);
    assert((host + seq![']']).last() == ']');
    assert((host + seq![']']).drop_last() =~= host);
    assert(unbracketed_end(host + seq![']']) == unbracketed_end(host));
    if !host.contains(':') {
        law_last_cut(host, ':', host);
    }
}

/// `lsof` tells a process and then its addresses: each address is a listener of the
/// process that was last told, and any other line changes nothing.
pub proof fn law_lsof(
    lines: Seq<Seq<char>>,
    pid: u32,
    host: Seq<char>,
    port: u16,
    other: Seq<char>,
)
    requires
        host.len() > 0,
        host[0] != '[' && host[0] != ']' && host.last() != '[' && host.last() != ']',
        other.len() == 0 || (other[0] != 'p' && other[0] != 'n'),
    ensures
        ({
            let process = seq!['p'] + decimal(pid as nat);
            let address = seq!['n'] + (host + seq![':'] + decimal(port as nat));
            let (before, list) = lsof_state(lines);
            &&& lsof_state(lines.push(process)) == (Some(pid), list)
            &&& before == Some(pid) ==> lsof_state(lines.push(address)) == (
                Some(pid),
                list.push(ListenerView { pid, host, port }),
            )
            &&& before is None ==> lsof_state(lines.push(address)) == (None::<u32>, list)
            &&& lsof_state(lines.push(other)) == (before, list)
        }),
        lsof_state(Seq::empty()) == (None::<u32>, Seq::<ListenerView>::empty()),
{
    let process = seq!['p'] + decimal(pid as nat);
    let address = seq!['n'] + (host + seq![':'] + decimal(port as nat));
    reveal_strlit("p");
    reveal_strlit("n");
    assert("p"@.len() == 1 && "p"@[0] == 'p' && "n"@.len() == 1 && "n"@[0] == 'n');
    assert(lines.push(process).drop_last() =~= lines);
    assert(lines.push(address).drop_last() =~= lines);
    assert(lines.push(other).drop_last() =~= lines);
    assert(process.subrange(0, 1) =~= "p"@);
    assert(process.skip(1) =~= decimal(pid as nat));
    law_decimal_reads_back(pid as nat, u32::MAX as nat);
    assert forall|i: int| 0 <= i < decimal(pid as nat).len() implies !is_white(
        #[trigger] decimal(pid as nat)[i],
    ) by {
        assert('0' <= decimal(pid as nat)[i] <= '9');
    }
    lemma_trimmed_same(decimal(pid as nat));
    assert(address.subrange(0, 1) =~= "n"@);
    assert(address.skip(1) =~= host + seq![':'] + decimal(port as nat));
    if begins(address, "p"@) {
        assert(address.subrange(0, 1)[0] == address[0]);
    }
    law_address(host, port);
    if begins(other, "p"@) {
        assert(other.subrange(0, 1)[0] == other[0]);
    }
    if begins(other, "n"@) {
        assert(other.subrange(0, 1)[0] == other[0]);
    }
}

/// A process that cannot be read leaves the addresses behind it without one, and an
/// address that cannot be read is passed over.
pub proof fn law_unreadable_lsof_lines(lines: Seq<Seq<char>>, word: Seq<char>)
    requires
        parsed_number(trimmed(word), u32::MAX as nat) is None,
        address_parts(word) is None,
    ensures
        ({
            let (before, list) = lsof_state(lines);
            &&& lsof_state(lines.push(seq!['p'] + word)) == (None::<u32>, list)
            &&& lsof_state(lines.push(seq!['n'] + word)) == (before, list)
        }),
{
    let p = seq!['p'] + word;
    let n = seq!['n'] + word;
    reveal_strlit("p");
    reveal_strlit("n");
    assert("p"@.len() == 1 && "p"@[0] == 'p' && "n"@.len() == 1 && "n"@[0] == 'n');
    assert(lines.push(p).drop_last() =~= lines);
    assert(lines.push(n).drop_last() =~= lines);
    assert(p.subrange(0, 1) =~= "p"@);
    assert(p.skip(1) =~= word);
    assert(n.subrange(0, 1) =~= "n"@);
    assert(n.skip(1) =~= word);
    if begins(n, "p"@) {
        assert(n.subrange(0, 1)[0] == n[0]);
    }
}

// ---------------------------------------------------------------------------
// The list of servers
// ---------------------------------------------------------------------------

proof fn lemma_on_port_count(list: Seq<ServerInfo>, port: u16, s: ServerInfo)
    ensures
        on_port(list, port).to_multiset().count(s) == if s.port == port {
            list.to_multiset().count(s)
        } else {
            0
        },
    decreases list.len(),
{
    broadcast use vstd::seq_lib::group_to_multiset_ensures;

    if list.len() > 0 {
        let d = list.drop_last();
        lemma_on_port_count(d, port, s);
        assert(list =~= d.push(list.last()));
    }
}

/// Putting servers in the order of their ports loses none and makes none up.
pub proof fn law_order_by_port_keeps_the_servers(
    list: Seq<ServerInfo>,
    sorted: Seq<ServerInfo>,
    i: int,
    j: int,
)
    requires
        is_by_port(list, sorted),
    ensures
        sorted.to_multiset() =~= list.to_multiset(),
        sorted.len() == list.len(),
        0 <= i < j < sorted.len() ==> sorted[i].port <= sorted[j].port,
{
    broadcast use vstd::seq_lib::group_to_multiset_ensures;

    assert forall|s: ServerInfo|
        sorted.to_multiset().count(s) == #[trigger] list.to_multiset().count(s) by {
        lemma_on_port_count(list, s.port, s);
        lemma_on_port_count(sorted, s.port, s);
        assert(on_port(sorted, s.port) == on_port(list, s.port));
    }
    assert(sorted.to_multiset() =~= list.to_multiset());
    assert(sorted.to_multiset().len() == list.to_multiset().len());
}

/// Servers are numbered from one, each with a number of its own, and stay what they
/// are.
pub proof fn law_numbering(list: Seq<ServerInfo>, i: int, j: int)
    requires
        0 <= i < j < list.len(),
    ensures
        numbered(list).len() == list.len(),
        numbered(list)[i].id == "server_"@ + decimal((i + 1) as nat),
        numbered(list)[i].id != numbered(list)[j].id,
        numbered(list)[i].name == list[i].name,
        numbered(list)[i].host == list[i].host,
        numbered(list)[i].port == list[i].port,
        numbered(list)[i].origin == list[i].origin,
        numbered(list)[i].process == list[i].process,
        numbered(list)[i].pid == list[i].pid,
        numbered(list)[i].is_current_context == list[i].is_current_context,
{
    let head = "server_"@;
    let a = decimal((i + 1) as nat);
    let b = decimal((j + 1) as nat);
    if head + a == head + b {
        assert((head + a).skip(head.len() as int) =~= a);
        assert((head + b).skip(head.len() as int) =~= b);
        crate::laws::text::law_decimal_is_unique((i + 1) as nat, (j + 1) as nat);
    }
}

proof fn lemma_server_keys()
    ensures
        "id"@.len() == 2 && "name"@.len() == 4 && "host"@.len() == 4 && "port"@.len() == 4,
        "origin"@.len() == 6 && "process"@.len() == 7 && "pid"@.len() == 3,
        "isCurrentContext"@.len() == 16,
        "name"@ != "host"@ && "name"@ != "port"@ && "host"@ != "port"@,
{
    reveal_strlit("id");
    reveal_strlit("name");
    reveal_strlit("host");
    reveal_strlit("port");
    reveal_strlit("origin");
    reveal_strlit("process");
    reveal_strlit("pid");
    reveal_strlit("isCurrentContext");
    assert("name"@[0] == 'n' && "host"@[0] == 'h' && "port"@[0] == 'p');
}

/// A server is written out with each part under its name.
pub proof fn law_server_document(s: ServerInfo)
    ensures
        text_field(server_tree(s), "id"@) == Some(s.id),
        text_field(server_tree(s), "name"@) == Some(s.name),
        text_field(server_tree(s), "host"@) == Some(s.host),
        field(server_tree(s), "port"@) == Some(number_tree(s.port as u64)),
        text_field(server_tree(s), "origin"@) == Some(s.origin),
        text_field(server_tree(s), "process"@) == Some(s.process),
        field(server_tree(s), "pid"@) == Some(number_tree(s.pid as u64)),
        field(server_tree(s), "isCurrentContext"@) == Some(
            JsonTree::Leaf(Scalar::Bool(s.is_current_context)),
        ),
{
    lemma_server_keys();
    let m0 = Seq::<(Seq<char>, JsonTree)>::empty();
    let m1 = with_key(m0, "id"@, JsonTree::Text(s.id));
    let m2 = with_key(m1, "name"@, JsonTree::Text(s.name));
    let m3 = with_key(m2, "host"@, JsonTree::Text(s.host));
    let m4 = with_key(m3, "port"@, number_tree(s.port as u64));
    let m5 = with_key(m4, "origin"@, JsonTree::Text(s.origin));
    let m6 = with_key(m5, "process"@, JsonTree::Text(s.process));
    let m7 = with_key(m6, "pid"@, number_tree(s.pid as u64));
    let last = JsonTree::Leaf(Scalar::Bool(s.is_current_context));
    lemma_with_key(m0, "id"@, JsonTree::Text(s.id));
    lemma_with_key(m1, "name"@, JsonTree::Text(s.name));
    lemma_with_key(m2, "host"@, JsonTree::Text(s.host));
    lemma_with_key(m3, "port"@, number_tree(s.port as u64));
    lemma_with_key(m4, "origin"@, JsonTree::Text(s.origin));
    lemma_with_key(m5, "process"@, JsonTree::Text(s.process));
    lemma_with_key(m6, "pid"@, number_tree(s.pid as u64));
    lemma_with_key(m7, "isCurrentContext"@, last);
    let m = with_key(m7, "isCurrentContext"@, last);
    assert(lookup(m, "id"@) == Some(JsonTree::Text(s.id)));
    assert(lookup(m, "name"@) == Some(JsonTree::Text(s.name)));
    assert(lookup(m, "host"@) == Some(JsonTree::Text(s.host)));
    assert(lookup(m, "port"@) == Some(number_tree(s.port as u64)));
    assert(lookup(m, "origin"@) == Some(JsonTree::Text(s.origin)));
    assert(lookup(m, "process"@) == Some(JsonTree::Text(s.process)));
    assert(lookup(m, "pid"@) == Some(number_tree(s.pid as u64)));
}

/// The server that is looked for is the first of that process on that port.
pub proof fn law_server_is_found(list: Seq<ServerInfo>, pid: u32, port: u16, i: int)
    requires
        0 <= i < list.len(),
        list[i].pid == pid && list[i].port == port,
        forall|k: int|
            0 <= k < i ==> (#[trigger] list[k]).pid != pid || list[k].port != port,
    ensures
        server_pos(list, pid, port) == i,
    decreases i,
{
    if i > 0 {
        let rest = list.skip(1);
        assert forall|k: int| 0 <= k < i - 1 implies (#[trigger] rest[k]).pid != pid
            || rest[k].port != port by {
            assert(rest[k] == list[k + 1]);
        }
        assert(list[0].pid != pid || list[0].port != port);
        law_server_is_found(rest, pid, port, i - 1);
    }
}

// ---------------------------------------------------------------------------
// Ending a server
// ---------------------------------------------------------------------------

/// How a kill ends: a process that SIGTERM ended, or that is not to be forced, is
/// only looked at; one that SIGTERM did not end is sent SIGKILL where that was asked
/// for, and then looked at. What the last look shows is what is said. Each wait is
/// two seconds, with looks every fifth of a second.
pub proof fn law_kill_outcome(gone: bool, force: bool, any: bool, more: bool, dead: bool)
    ensures
        gone || !force ==> kill_run(seq![true, gone, dead], force) == (KillState::Over {
            killed: dead,
            forced: false,
        }),
        !gone && force ==> kill_run(seq![true, gone], force) == KillState::Force,
        !gone && force ==> kill_run(seq![true, gone, any, more, dead], force) == (
        KillState::Over { killed: dead, forced: true }),
        kill_run(seq![false], force) == KillState::Refused,
        GRACE_MILLIS == 2 * 1000,
        LOOK_MILLIS * 5 == 1000,
{
    reveal_with_fuel(kill_run, 6);
    assert(seq![true, gone, any, more, dead].drop_last() =~= seq![true, gone, any, more]);
    assert(seq![true, gone, any, more].drop_last() =~= seq![true, gone, any]);
    assert(seq![true, gone, any].drop_last() =~= seq![true, gone]);
    assert(seq![true, gone, dead].drop_last() =~= seq![true, gone]);
    assert(seq![true, gone].drop_last() =~= seq![true]);
    assert(seq![true].drop_last() =~= Seq::<bool>::empty());
    assert(seq![false].drop_last() =~= Seq::<bool>::empty());
}

/// A server that is in the list can be ended; one that is not is left alone, and the
/// refusal names the process and the port.
pub proof fn law_kill_starts_with_what_was_found(
    list: Seq<ServerInfo>,
    i: int,
    pid: u32,
    port: u16,
)
    ensures
        0 <= i < list.len() && list[i].pid == pid && list[i].port == port ==> kill_start(
            list,
            pid,
            port,
        ) == Ok::<KillState, Seq<char>>(KillState::Terminate),
        (forall|k: int|
            0 <= k < list.len() ==> (#[trigger] list[k]).pid != pid || list[k].port != port)
            ==> kill_start(list, pid, port) == Err::<KillState, Seq<char>>(
            "pid "@ + decimal(pid as nat) + " on port "@ + decimal(port as nat)
                + " is not a discovered HTML server (stale?) — nothing killed"@,
        ),
{
}

/// The first signal asks, the second forces, and both go to the process that was
/// named.
pub proof fn law_signals(pid: u32)
    ensures
        signal_for(KillState::Terminate, pid) == Some(seq!["-TERM"@, decimal(pid as nat)]),
        signal_for(KillState::Force, pid) == Some(seq!["-KILL"@, decimal(pid as nat)]),
        signal_for(KillState::Grace, pid) is None,
        signal_for(KillState::ForcedGrace, pid) is None,
{
}

// ---------------------------------------------------------------------------
// Sockets
// ---------------------------------------------------------------------------

/// The loopback addresses are those from 127.0.0.0 to 127.255.255.255, and ::1.
pub proof fn law_loopback(a: u32, b: u128)
    ensures
        loops_back(Ip::V4(a)) <==> 127 * 256 * 256 * 256 <= a < 128 * 256 * 256 * 256,
        loops_back(Ip::V6(b)) <==> b == 1,
{
}

/// Sockets are ordered by address and then by port, four-byte addresses first, and
/// the order is strict and total.
pub proof fn law_socket_order(a: Socket, b: Socket, c: Socket)
    ensures
        !comes_before(a, a),
        comes_before(a, b) && comes_before(b, c) ==> comes_before(a, c),
        a == b || comes_before(a, b) || comes_before(b, a),
        a.ip is V4 && b.ip is V6 ==> comes_before(a, b),
        a.ip == b.ip && a.port < b.port ==> comes_before(a, b),
        (a.ip matches Ip::V4(x) && b.ip matches Ip::V4(y) && x < y) ==> comes_before(a, b),
        (a.ip matches Ip::V6(x) && b.ip matches Ip::V6(y) && x < y) ==> comes_before(a, b),
{
}

proof fn lemma_no_listen(s: Seq<char>)
    requires
        s.len() > 0,
        s.last() != ')',
    ensures
        without_suffix(s, "(LISTEN)"@) == s,
        without_suffix(s + "(LISTEN)"@, "(LISTEN)"@) == s,
{
    let pat = "(LISTEN)"@;
    reveal_strlit("(LISTEN)");
    assert(pat.len() == 8 && pat[7] == ')');
    if stands_at(s, pat, s.len() - 8) {
        assert(s.subrange(s.len() - 8, s.len() as int)[7] == s.last());
    }
    let t = s + pat;
    assert(t.subrange(t.len() - 8, t.len() as int) =~= pat);
    assert(t.take(t.len() - 8) =~= s);
    assert(without_suffix(s, pat) == s);
    assert(without_suffix(t, pat) == without_suffix(t.take(t.len() - 8), pat));
}

proof fn lemma_plain_socket(ip: Seq<char>, port: u16)
    requires
        ip.len() > 0,
        forall|i: int| 0 <= i < ip.len() ==> !is_white(#[trigger] ip[i]),
        ip[0] != '[',
    ensures
        ({
            let plain = ip + seq![':'] + decimal(port as nat);
            &&& socket_parts(plain) == Some((ip, port))
            &&& socket_parts(plain + "(LISTEN)"@) == Some((ip, port))
        }),
{
    let d = decimal(port as nat);
    let plain = ip + seq![':'] + d;
    lemma_port_digits(port);
    assert('0' <= d[d.len() - 1] <= '9');
    assert(plain.last() == d.last());
    lemma_no_listen(plain);
    assert forall|i: int| 0 <= i < plain.len() implies !is_white(#[trigger] plain[i]) by {
        if i < ip.len() {
            assert(!is_white(ip[i]));
        } else if i > ip.len() {
            assert('0' <= d[i - ip.len() - 1] <= '9');
        }
    }
    lemma_trimmed_same(plain);
    reveal_strlit("[");
    assert("["@.len() == 1 && "["@[0] == '[');
    if begins(plain, "["@) {
        assert(plain.subrange(0, 1)[0] == plain[0]);
    }
    law_last_cut(ip, ':', d);
}

proof fn lemma_boxed_socket(ip: Seq<char>, port: u16)
    requires
        ip.len() > 0,
        forall|i: int| 0 <= i < ip.len() ==> !is_white(#[trigger] ip[i]),
        !ip.contains(']'),
    ensures
        ({
            let boxed = seq!['['] + ip + seq![']'] + (seq![':'] + decimal(port as nat));
            &&& socket_parts(boxed) == Some((ip, port))
            &&& socket_parts(boxed + "(LISTEN)"@) == Some((ip, port))
        }),
{
    let d = decimal(port as nat);
    let boxed = seq!['['] + ip + seq![']'] + (seq![':'] + d);
    lemma_port_digits(port);
    lemma_boxed_is_bare(ip, d);
    lemma_boxed_parts(ip, d);
}

proof fn lemma_boxed_is_bare(ip: Seq<char>, d: Seq<char>)
    requires
        forall|i: int| 0 <= i < ip.len() ==> !is_white(#[trigger] ip[i]),
        d.len() > 0,
        forall|i: int| 0 <= i < d.len() ==> '0' <= #[trigger] d[i] <= '9',
    ensures
        ({
            let boxed = seq!['['] + ip + seq![']'] + (seq![':'] + d);
            &&& trimmed(without_suffix(boxed, "(LISTEN)"@)) == boxed
            &&& trimmed(without_suffix(boxed + "(LISTEN)"@, "(LISTEN)"@)) == boxed
        }),
{
    let boxed = seq!['['] + ip + seq![']'] + (seq![':'] + d);
    assert('0' <= d[d.len() - 1] <= '9');
    assert(boxed.last() == d.last());
    lemma_no_listen(boxed);
    assert forall|i: int| 0 <= i < boxed.len() implies !is_white(#[trigger] boxed[i]) by {
        if 0 < i <= ip.len() {
            assert(!is_white(ip[i - 1]));
        } else if i > ip.len() + 2 {
            assert('0' <= d[i - ip.len() - 3] <= '9');
        }
    }
    lemma_trimmed_same(boxed);
}

proof fn lemma_boxed_parts(ip: Seq<char>, d: Seq<char>)
    requires
        !ip.contains(']'),
        d.len() > 0 && d[0] != ':',
    ensures
        ({
            let boxed = seq!['['] + ip + seq![']'] + (seq![':'] + d);
            let inner = boxed.skip(1);
            &&& after_prefix(boxed, "["@) == Some(inner)
            &&& pos(inner, ']') == ip.len() < inner.len()
            &&& inner.take(ip.len() as int) == ip
            &&& without_leading(inner.skip(ip.len() as int + 1), ':') == d
        }),
{
    let boxed = seq!['['] + ip + seq![']'] + (seq![':'] + d);
    let n = ip.len() as int;
    reveal_strlit("[");
    assert("["@.len() == 1 && "["@[0] == '[');
    assert(boxed.subrange(0, 1) =~= "["@);
    let inner = boxed.skip(1);
    assert(inner =~= ip + seq![']'] + (seq![':'] + d));
    assert(inner[n] == ']');
    assert forall|j: int| 0 <= j < n implies inner[j] != ']' by {
        assert(ip.contains(ip[j]));
    }
    lemma_pos_is(inner, ']', n);
    assert(inner.take(n) =~= ip);
    let tail = inner.skip(n + 1);
    assert(tail =~= seq![':'] + d);
    assert(tail[0] == ':');
    assert(tail.skip(1) =~= d);
    assert(without_leading(d, ':') == d);
}

/// A written socket is an address and a port, the address in brackets where it has
/// colons of its own, and perhaps the state behind it.
pub proof fn law_socket(ip: Seq<char>, port: u16)
    requires
        ip.len() > 0,
        forall|i: int| 0 <= i < ip.len() ==> !is_white(#[trigger] ip[i]),
        ip[0] != '[',
        !ip.contains(']'),
    ensures
        ({
            let plain = ip + seq![':'] + decimal(port as nat);
            let boxed = seq!['['] + ip + seq![']'] + (seq![':'] + decimal(port as nat));
            &&& socket_parts(plain) == Some((ip, port))
            &&& socket_parts(plain + "(LISTEN)"@) == Some((ip, port))
            &&& socket_parts(boxed) == Some((ip, port))
            &&& socket_parts(boxed + "(LISTEN)"@) == Some((ip, port))
        }),
{
    lemma_plain_socket(ip, port);
    lemma_boxed_socket(ip, port);
}

/// A line of `lsof` names its socket in the ninth column, and its process in the
/// first; shorter lines are passed over.
pub proof fn law_socket_lines(lines: Seq<Seq<char>>, line: Seq<char>, ip: Seq<char>, port: u16)
    ensures
        word_seq(line).len() >= 9 && socket_parts(word_seq(line)[8]) == Some((ip, port))
            ==> sockets_in(lines.push(line)) == sockets_in(lines).push((ip, port)),
        word_seq(line).len() < 9 || socket_parts(word_seq(line)[8]) is None ==> sockets_in(
            lines.push(line),
        ) == sockets_in(lines),
        word_seq(line).len() >= 2 ==> process_in(seq![line] + lines) == Some(word_seq(line)[0]),
        word_seq(line).len() < 2 ==> process_in(seq![line] + lines) == process_in(lines),
{
    assert(lines.push(line).drop_last() =~= lines);
    assert((seq![line] + lines).skip(1) =~= lines);
    assert((seq![line] + lines)[0] == line);
}

/// A header's value is what follows its first colon, without white space round it,
/// in whatever case the header's name is written.
pub proof fn law_header_value(name: Seq<char>, value: Seq<char>, header: Seq<char>)
    requires
        !name.contains(':'),
    ensures
        header == lower(name) + seq![':'] ==> header_value(name + seq![':'] + value, header)
            == Some(trimmed(value)),
        header.len() > 0 && lower(name).len() + 1 >= header.len() && (lower(name)
            + seq![':']).take(header.len() as int) != header ==> header_value(
            name + seq![':'] + value,
            header,
        ) is None,
        header_value(name, header) is None,
{
    let line = name + seq![':'] + value;
    reveal_strlit(":");
    assert(":"@ =~= seq![':']);
    assert forall|j: int| 0 <= j < name.len() implies #[trigger] (name + ":"@ + value).subrange(
        j,
        j + ":"@.len(),
    ) != ":"@ by {
        assert((name + ":"@ + value).subrange(j, j + 1)[0] == name[j]);
        assert(name.contains(name[j]));
    }
    law_cut_is_at_the_first(name, ":"@, value);
    let n = name.len() as int;
    assert(lower(line).subrange(0, n + 1) =~= lower(name) + seq![':']);
    if header.len() <= n + 1 {
        assert(lower(line).subrange(0, header.len() as int) =~= (lower(name) + seq![':']).take(
            header.len() as int,
        ));
    }
    crate::text::lemma_found_from(name, ":"@, 0);
    match crate::text::found_from(name, ":"@, 0) {
        Some(i) => {
            assert(name.subrange(i, i + 1)[0] == name[i]);
            assert(name.contains(name[i]));
        },
        None => {},
    }
}

/// The server programs that say nothing of the application behind them.
pub proof fn law_generic_servers(a: Seq<char>, b: Seq<char>)
    ensures
        is_generic(a + "nginx"@ + b),
        is_generic(a + "apache"@ + b),
        is_generic(a + "gunicorn"@ + b),
        !holds(a, "nginx"@) && !holds(a, "apache"@) && !holds(a, "gunicorn"@) ==> !is_generic(a),
{
    let n = a.len() as int;
    reveal_strlit("nginx");
    reveal_strlit("apache");
    reveal_strlit("gunicorn");
    assert((a + "nginx"@ + b).subrange(n, n + 5) =~= "nginx"@);
    assert(stands_at(a + "nginx"@ + b, "nginx"@, n));
    assert((a + "apache"@ + b).subrange(n, n + 6) =~= "apache"@);
    assert(stands_at(a + "apache"@ + b, "apache"@, n));
    assert((a + "gunicorn"@ + b).subrange(n, n + 8) =~= "gunicorn"@);
    assert(stands_at(a + "gunicorn"@ + b, "gunicorn"@, n));
}

/// What a server is called: the application's name, wherever it stands; else the
/// first server program that is not a generic one; else nothing.
pub proof fn law_server_name(line: Seq<char>, rest: Seq<Seq<char>>)
    ensures
        header_value(line, "x-app-name:"@) is Some ==> name_in(seq![line] + rest) == header_value(
            line,
            "x-app-name:"@,
        ),
        header_value(line, "x-app-name:"@) is None && first_value(rest, "x-app-name:"@) is Some
            ==> name_in(seq![line] + rest) == first_value(rest, "x-app-name:"@),
        first_value(seq![line] + rest, "x-app-name:"@) is None && (header_value(line, "server:"@)
            matches Some(v) && !is_generic(v)) ==> name_in(seq![line] + rest) == header_value(
            line,
            "server:"@,
        ),
        first_value(seq![line] + rest, "x-app-name:"@) is None && (header_value(line, "server:"@)
            is None || is_generic(header_value(line, "server:"@)->0)) ==> name_in(
            seq![line] + rest,
        ) == server_value(rest),
        name_in(Seq::empty()) is None,
{
    assert((seq![line] + rest).skip(1) =~= rest);
    assert((seq![line] + rest)[0] == line);
}

/// An answer is HTTP where it starts with a status line.
pub proof fn law_http(rest: Seq<char>, other: Seq<char>)
    ensures
        is_http("HTTP/"@ + rest),
        is_http(other) ==> other == "HTTP/"@ + other.skip(5),
{
    reveal_strlit("HTTP/");
    assert(("HTTP/"@ + rest).subrange(0, 5) =~= "HTTP/"@);
    if is_http(other) {
        assert(other =~= other.subrange(0, 5) + other.skip(5));
    }
}

/// What stands below the header of a table is every line but the first.
pub proof fn law_below_header(header: Seq<char>, lines: Seq<Seq<char>>)
    ensures
        below_header(seq![header] + lines) == lines,
        below_header(Seq::empty()) == Seq::<Seq<char>>::empty(),
{
    assert((seq![header] + lines).skip(1) =~= lines);
    assert(below_header(seq![header] + lines) =~= lines);
}

// ---------------------------------------------------------------------------
// The tailnet and the local network
// ---------------------------------------------------------------------------

/// The host's name on the tailnet is the one that the status gives, without the dot
/// at its end; a status without one gives none.
pub proof fn law_tailnet_name(status: JsonTree, me: JsonTree, name: Seq<char>)
    requires
        name.len() > 0 && name.last() != '.',
        field(status, "Self"@) == Some(me),
    ensures
        text_field(me, "DNSName"@) == Some(name) ==> dns_name_in(status) == Some(name),
        text_field(me, "DNSName"@) == Some(name + seq!['.']) ==> dns_name_in(status) == Some(name),
        text_field(me, "DNSName"@) is None ==> dns_name_in(status) is None,
        text_field(me, "DNSName"@) == Some(seq!['.']) ==> dns_name_in(status) is None,
{
    assert((name + seq!['.']).drop_last() =~= name);
    assert((name + seq!['.']).last() == '.');
    assert(without_trailing(name + seq!['.'], '.') == without_trailing(name, '.'));
    assert(seq!['.'].drop_last() =~= Seq::<char>::empty());
    assert(without_trailing(seq!['.'], '.') == without_trailing(Seq::<char>::empty(), '.'));
}

/// A host is announced under the first label of its name.
pub proof fn law_first_label(label: Seq<char>, rest: Seq<char>)
    requires
        !label.contains('.'),
    ensures
        label.len() > 0 ==> first_label(label + seq!['.'] + rest) == label,
        label.len() > 0 ==> first_label(label) == label,
        label.len() == 0 ==> first_label(label + seq!['.'] + rest) == "sailor"@,
{
    law_pieces(label, '.', rest);
}

/// An announcement tells where to connect (the name on the tailnet where there is
/// one, else the local address), the port, the user where it is known, whether mosh
/// is there, and the version.
pub proof fn law_announcement(
    dns_name: Option<Seq<char>>,
    lan: Seq<char>,
    ssh_port: u16,
    user: Option<Seq<char>>,
    mosh: bool,
    version: Seq<char>,
)
    ensures
        ({
            let p = announced_properties(dns_name, lan, ssh_port, user, mosh, version);
            &&& dns_name is Some ==> p.contains(("hostname"@, dns_name->0))
            &&& dns_name is None ==> p.contains(("hostname"@, lan))
            &&& p.contains(("port"@, decimal(ssh_port as nat)))
            &&& user is Some ==> p.contains(("username"@, user->0)) && p.len() == 5
            &&& user is None ==> p.len() == 4
            &&& mosh ==> p.contains(("mosh"@, "1"@))
            &&& !mosh ==> p.contains(("mosh"@, "0"@))
            &&& p.contains(("version"@, version))
        }),
{
    let p = announced_properties(dns_name, lan, ssh_port, user, mosh, version);
    let n = p.len() as int;
    assert(p[0].0 == "hostname"@ && p[1].0 == "port"@);
    assert(p[n - 1] == ("version"@, version));
    assert(p[n - 2].0 == "mosh"@);
    if user is Some {
        assert(p[2] == ("username"@, user->0));
    }
    assert(p.contains(p[0]) && p.contains(p[1]) && p.contains(p[n - 2]));
}

/// A program is looked for in each directory of the search path, in its order.
pub proof fn law_search_places(dir: Seq<char>, rest: Seq<char>, name: Seq<char>)
    requires
        !dir.contains(':'),
    ensures
        places(Some(dir + seq![':'] + rest), name) == seq![path_joined(dir, name)] + places(
            Some(rest),
            name,
        ),
        places(Some(dir), name) == seq![path_joined(dir, name)],
        places(None, name) == Seq::<Seq<char>>::empty(),
{
    law_pieces(dir, ':', rest);
    assert(places(Some(dir + seq![':'] + rest), name) =~= seq![path_joined(dir, name)] + places(
        Some(rest),
        name,
    ));
    assert(places(Some(dir), name) =~= seq![path_joined(dir, name)]);
}

// ---------------------------------------------------------------------------
// Secrets and sockets
// ---------------------------------------------------------------------------

/// A token file holds its token, whatever white space stands round it; a blank file,
/// or none, holds none.
pub proof fn law_stored_token(a: Seq<char>, token: Seq<char>, b: Seq<char>)
    requires
        forall|i: int| 0 <= i < a.len() ==> is_white(#[trigger] a[i]),
        forall|i: int| 0 <= i < b.len() ==> is_white(#[trigger] b[i]),
        token.len() > 0 && !is_white(token[0]) && !is_white(token.last()),
    ensures
        stored(Some(a + token + b)) == Some(token),
        stored(Some(a)) is None,
        stored(None) is None,
{
    law_trim(a, token, b);
    law_trim(a, Seq::empty(), Seq::empty());
    assert(a + Seq::<char>::empty() + Seq::<char>::empty() =~= a);
}

/// Secrets are files in the secrets directory.
pub proof fn law_secret_files(over: Seq<char>, base: Seq<char>, name: Seq<char>)
    requires
        base.len() > 0 && base.last() != '/',
        over.len() > 0 && over.last() != '/',
        name.len() > 0 && name[0] != '/',
    ensures
        secret_path(None, Some(base), name) == Ok::<Seq<char>, DirError>(
            base + "/sailor/"@ + name,
        ),
        secret_path(Some(over), Some(base), name) == Ok::<Seq<char>, DirError>(
            over + "/"@ + name,
        ),
        secret_path(None, None, name) == Err::<Seq<char>, DirError>(DirError::NoConfigDir),
        Backend::named("keychain"@) == Some(Backend::Keychain),
        Backend::named("file"@) == Some(Backend::File),
{
    reveal_strlit("/");
    reveal_strlit("sailor");
    reveal_strlit("/sailor/");
    reveal_strlit("keychain");
    reveal_strlit("file");
    assert("keychain"@.len() == 8 && "file"@.len() == 4);
    let dir = base + "/"@ + "sailor"@;
    assert("sailor"@[5] == 'r' && dir.last() == 'r');
    assert(dir + "/"@ + name =~= base + "/sailor/"@ + name);
}

/// The hook socket is where the override says, or in the state directory.
pub proof fn law_hook_socket(over: Seq<char>, state: Seq<char>, home: Seq<char>)
    requires
        over.len() > 0,
        state.len() > 0 && state.last() != '/',
        home.len() > 0 && home.last() != '/',
    ensures
        socket_at(Some(over), Some(state), Some(home)) == Ok::<Seq<char>, DirError>(over),
        socket_at(None, Some(state), Some(home)) == Ok::<Seq<char>, DirError>(
            state + "/hook.sock"@,
        ),
        socket_at(None, None, Some(home)) == Ok::<Seq<char>, DirError>(
            home + "/.sailor/hook.sock"@,
        ),
        socket_at(None, None, None) == Err::<Seq<char>, DirError>(DirError::NoHome),
{
    reveal_strlit("/");
    reveal_strlit(".sailor");
    reveal_strlit("hook.sock");
    reveal_strlit("/hook.sock");
    reveal_strlit("/.sailor/hook.sock");
    assert(state + "/"@ + "hook.sock"@ =~= state + "/hook.sock"@);
    let dir = home + "/"@ + ".sailor"@;
    assert(".sailor"@[6] == 'r' && dir.last() == 'r');
    assert(dir + "/"@ + "hook.sock"@ =~= home + "/.sailor/hook.sock"@);
}

/// An identifier is written as 36 characters, with hyphens after the eighth, the
/// twelfth, the sixteenth and the twentieth of its 32 digits.
pub proof fn law_identifier_text(id: u128)
    ensures
        simple(id).len() == 32,
        hyphenated(id).len() == 36,
        hyphenated(id)[8] == '-' && hyphenated(id)[13] == '-' && hyphenated(id)[18] == '-'
            && hyphenated(id)[23] == '-',
        hyphenated(id).take(8) == simple(id).take(8),
        hyphenated(id).skip(24) == simple(id).skip(20),
{
    lemma_hex_has_no_white(id as nat, 32);
    reveal_strlit("-");
    assert("-"@.len() == 1 && "-"@[0] == '-');
    assert(hyphenated(id).take(8) =~= simple(id).take(8));
    assert(hyphenated(id).skip(24) =~= simple(id).skip(20));
}

/// The digits of an identifier are hexadecimal, in lower case.
pub proof fn law_identifier_digits(n: nat, len: nat, i: int)
    requires
        0 <= i < len,
    ensures
        crate::ids::hex(n, len).len() == len,
        ({
            let c = crate::ids::hex(n, len)[i];
            ('0' <= c <= '9') || ('a' <= c <= 'f')
        }),
    decreases len,
{
    lemma_hex_has_no_white(n, len);
    let rest = crate::ids::hex(n / 16, (len - 1) as nat);
    lemma_hex_has_no_white(n / 16, (len - 1) as nat);
    if i < len - 1 {
        law_identifier_digits(n / 16, (len - 1) as nat, i);
        assert(crate::ids::hex(n, len)[i] == rest[i]);
    } else {
        let d = n % 16;
        assert(crate::ids::hex(n, len)[i] == crate::ids::hex_char(d));
        assert(d < 16);
        assert(d < 10 ==> 48 <= (crate::ids::hex_char(d) as u32) && (crate::ids::hex_char(
            d,
        ) as u32) <= 57);
        assert(d >= 10 ==> 97 <= (crate::ids::hex_char(d) as u32) && (crate::ids::hex_char(
            d,
        ) as u32) <= 102);
    }
}

} // verus!
