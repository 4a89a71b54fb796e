//! Laws of sessions: which are listed and where they ran, how a phone is paired with
//! one, and where the gateway listens.

use crate::commands::cwd_list::{
    cwd_in, cwd_in_items, is_merged, keys, later, latest, projects_in, Used, SESSION_DEPTH,
};
use crate::commands::easy_pair::{
    choices, connect_in, encoded, encoded_byte, encoded_bytes, gateway_lines, host_found,
    is_connect_line, next_stage, pairing_address, parameter, picked_at, report_lines, ChoiceView,
    HostPlanView, Pairing, Seen, Stage,
};
use crate::commands::mux_list::{
    agent_lists, detected, mux_listing, names_in, session_names, with_output, Mux,
};
use crate::commands::serve::{
    herdr_sessions_of, listen_at, listen_parts, HostView, ListenErrorView, HERDR_POLL_INTERVAL,
    PRUNE_INTERVAL,
};
use crate::context::Kind;
use crate::inbox::RowView;
use crate::json::JsonTree;
use crate::laws::text::{law_decimal_reads_back, law_last_cut, law_trim, law_words};
use crate::text::{
    begins, decimal, is_white, joined, lemma_trimmed_same, parsed_number, replaced2, word_seq,
};
use crate::tree::{field, lemma_key_pos_is, lemma_with_key, lookup, text_field, with_key};
use vstd::prelude::*;

verus! {

// ---------------------------------------------------------------------------
// Where the gateway listens
// ---------------------------------------------------------------------------

/// `host:port` is taken apart at its last colon; what has none, or no number behind
/// it, is refused with the part that is wrong.
pub proof fn law_listen(host: Seq<char>, port: u16, bare: Seq<char>, word: Seq<char>)
    requires
        !bare.contains(':'),
        !word.contains(':'),
        parsed_number(word, u16::MAX as nat) is None,
    ensures
        listen_parts(host + seq![':'] + decimal(port as nat)) == Ok::<
            (Seq<char>, u16),
            ListenErrorView,
        >((host, port)),
        listen_parts(bare) == Err::<(Seq<char>, u16), ListenErrorView>(
            ListenErrorView::NotHostPort(bare),
        ),
        listen_parts(host + seq![':'] + word) == Err::<(Seq<char>, u16), ListenErrorView>(
            ListenErrorView::BadPort(word),
        ),
{
    law_decimal_reads_back(port as nat, u16::MAX as nat);
    law_last_cut(host, ':', decimal(port as nat));
    law_last_cut(host, ':', bare);
    law_last_cut(host, ':', word);
}

/// What a flag asks for wins over what the environment says, and that over the
/// loopback address and the usual port.
pub proof fn law_where_it_listens(port: u16, host: Seq<char>, p: u16)
    ensures
        listen_at(false, None, None) == Ok::<(HostView, u16), ListenErrorView>(
            (HostView::Loopback, 24543),
        ),
        listen_at(false, None, Some(Seq::empty())) == Ok::<(HostView, u16), ListenErrorView>(
            (HostView::Loopback, 24543),
        ),
        listen_at(true, None, Some(host + seq![':'] + decimal(p as nat))) == Ok::<
            (HostView, u16),
            ListenErrorView,
        >((HostView::Asked, 24543)),
        listen_at(true, Some(port), Some(host + seq![':'] + decimal(p as nat))) == Ok::<
            (HostView, u16),
            ListenErrorView,
        >((HostView::Asked, port)),
        listen_at(false, None, Some(host + seq![':'] + decimal(p as nat))) == Ok::<
            (HostView, u16),
            ListenErrorView,
        >((HostView::Named(host), p)),
        listen_at(false, Some(port), Some(host + seq![':'] + decimal(p as nat))) == Ok::<
            (HostView, u16),
            ListenErrorView,
        >((HostView::Named(host), port)),
{
    law_decimal_reads_back(p as nat, u16::MAX as nat);
    law_last_cut(host, ':', decimal(p as nat));
}

/// Herdr is asked of the sessions that its own rows name, and of no others.
pub proof fn law_herdr_sessions(rows: Seq<RowView>, row: RowView, s: Seq<char>)
    requires
        row.terminal is Some,
        row.terminal->0.session == Some(s),
    ensures
        row.terminal->0.kind == Kind::Herdr ==> herdr_sessions_of(rows.push(row)).contains(s),
        row.terminal->0.kind != Kind::Herdr ==> herdr_sessions_of(rows.push(row))
            == herdr_sessions_of(rows),
{
    assert(rows.push(row).drop_last() =~= rows);
    let rest = herdr_sessions_of(rows);
    if row.terminal->0.kind == Kind::Herdr && !rest.contains(s) {
        assert(rest.push(s)[rest.len() as int] == s);
    }
}

/// How often the daemon does what it does by itself: it drops archived rows every
/// ten minutes and asks Herdr every five seconds.
pub proof fn law_intervals()
    ensures
        PRUNE_INTERVAL == 10 * 60,
        HERDR_POLL_INTERVAL == 5,
        SESSION_DEPTH == 4,
{
}

// ---------------------------------------------------------------------------
// Multiplexers
// ---------------------------------------------------------------------------

/// Each record of a session list that has a name gives it, in order.
pub proof fn law_session_names(items: Seq<JsonTree>, item: JsonTree, t: JsonTree)
    ensures
        text_field(item, "name"@) is Some ==> names_in(items.push(item)) == names_in(items).push(
            text_field(item, "name"@)->0,
        ),
        text_field(item, "name"@) is None ==> names_in(items.push(item)) == names_in(items),
        session_names(JsonTree::Array(items)) == names_in(items),
        field(t, "sessions"@) == Some(JsonTree::Array(items)) ==> session_names(t) == names_in(
            items,
        ),
        field(t, "sessions"@) is None && !(t is Array) ==> session_names(t) == Seq::<
            Seq<char>,
        >::empty(),
{
    assert(items.push(item).drop_last() =~= items);
}

/// A multiplexer that answered is marked found, and one that did not is not.
pub proof fn law_detection(output: Seq<char>)
    ensures
        detected(Mux::Tmux, Some(output)) == "tmux=1"@,
        detected(Mux::Tmux, None) == "tmux=0"@,
        detected(Mux::Zellij, Some(output)) == "zellij=1"@,
        detected(Mux::Zellij, None) == "zellij=0"@,
        detected(Mux::Herdr, Some(output)) == "herdr=1"@,
        detected(Mux::Herdr, None) == "herdr=0"@,
{
    reveal_strlit("tmux");
    reveal_strlit("zellij");
    reveal_strlit("herdr");
    reveal_strlit("=1");
    reveal_strlit("=0");
    reveal_strlit("tmux=1");
    reveal_strlit("tmux=0");
    reveal_strlit("zellij=1");
    reveal_strlit("zellij=0");
    reveal_strlit("herdr=1");
    reveal_strlit("herdr=0");
    assert("tmux"@ + "=1"@ =~= "tmux=1"@);
    assert("tmux"@ + "=0"@ =~= "tmux=0"@);
    assert("zellij"@ + "=1"@ =~= "zellij=1"@);
    assert("zellij"@ + "=0"@ =~= "zellij=0"@);
    assert("herdr"@ + "=1"@ =~= "herdr=1"@);
    assert("herdr"@ + "=0"@ =~= "herdr=0"@);
}

proof fn lemma_mux_keys()
    ensures
        "detect"@.len() == 6 && "lists"@.len() == 5 && "agents"@.len() == 6,
        "detect"@ != "agents"@,
        "tmux"@.len() == 4 && "zellij"@.len() == 6 && "herdr"@.len() == 5,
{
    reveal_strlit("detect");
    reveal_strlit("lists");
    reveal_strlit("agents");
    reveal_strlit("tmux");
    reveal_strlit("zellij");
    reveal_strlit("herdr");
    assert("detect"@[0] == 'd' && "agents"@[0] == 'a');
}

/// The document holds what each multiplexer printed under its name, leaves out those
/// that are not there, and tells in three lines which they are; what Herdr's agents
/// listed stands beside it.
pub proof fn law_mux_document(
    tmux: Option<Seq<char>>,
    zellij: Option<Seq<char>>,
    herdr: Option<Seq<char>>,
    agents: Seq<(Seq<char>, Option<Seq<char>>)>,
)
    ensures
        ({
            let t = mux_listing(tmux, zellij, herdr, agents);
            let lists = field(t, "lists"@)->0;
            &&& text_field(t, "detect"@) == Some(
                detected(Mux::Tmux, tmux) + "\n"@ + detected(Mux::Zellij, zellij) + "\n"@
                    + detected(Mux::Herdr, herdr),
            )
            &&& text_field(lists, "tmux"@) == tmux
            &&& text_field(lists, "zellij"@) == zellij
            &&& text_field(lists, "herdr"@) == herdr
            &&& field(t, "agents"@) == Some(JsonTree::Table(agent_lists(agents)))
        }),
{
    lemma_mux_keys();
    let m0 = Seq::<(Seq<char>, JsonTree)>::empty();
    let l1 = with_output(m0, "tmux"@, tmux);
    let l2 = with_output(l1, "zellij"@, zellij);
    let l3 = with_output(l2, "herdr"@, herdr);
    lemma_with_output(m0, "tmux"@, tmux);
    lemma_with_output(l1, "zellij"@, zellij);
    lemma_with_output(l2, "herdr"@, herdr);
    assert(lookup(m0, "tmux"@) is None && lookup(m0, "zellij"@) is None);
    assert(lookup(m0, "herdr"@) is None);
    assert(lookup(l3, "tmux"@) == lookup(l1, "tmux"@));
    assert(lookup(l3, "zellij"@) == lookup(l2, "zellij"@));
    let parts = seq![
        detected(Mux::Tmux, tmux),
        detected(Mux::Zellij, zellij),
        detected(Mux::Herdr, herdr),
    ];
    reveal_with_fuel(joined, 3);
    assert(parts.drop_last() =~= seq![parts[0], parts[1]]);
    assert(seq![parts[0], parts[1]].drop_last() =~= seq![parts[0]]);
    let word = JsonTree::Text(joined(parts, "\n"@));
    let m1 = with_key(m0, "detect"@, word);
    let m2 = with_key(m1, "lists"@, JsonTree::Table(l3));
    let m3 = with_key(m2, "agents"@, JsonTree::Table(agent_lists(agents)));
    lemma_with_key(m0, "detect"@, word);
    lemma_with_key(m1, "lists"@, JsonTree::Table(l3));
    lemma_with_key(m2, "agents"@, JsonTree::Table(agent_lists(agents)));
    assert(mux_listing(tmux, zellij, herdr, agents) == JsonTree::Table(m3));
    assert(lookup(m3, "detect"@) == Some(word));
    assert(lookup(m3, "lists"@) == Some(JsonTree::Table(l3)));
}

proof fn lemma_with_output(
    m: Seq<(Seq<char>, JsonTree)>,
    name: Seq<char>,
    output: Option<Seq<char>>,
)
    ensures
        output is Some ==> lookup(with_output(m, name, output), name) == Some(
            JsonTree::Text(output->0),
        ),
        output is None ==> with_output(m, name, output) == m,
        forall|k: Seq<char>|
            k != name ==> lookup(with_output(m, name, output), k) == lookup(m, k),
{
    if let Some(s) = output {
        lemma_with_key(m, name, JsonTree::Text(s));
    }
}

/// What a session's agents listed stands under the session's name; where two outputs
/// have one name the later counts, and a session without output has none.
pub proof fn law_agent_lists(
    agents: Seq<(Seq<char>, Option<Seq<char>>)>,
    name: Seq<char>,
    output: Option<Seq<char>>,
    other: Seq<char>,
)
    ensures
        output is Some ==> lookup(agent_lists(agents.push((name, output))), name) == Some(
            JsonTree::Text(output->0),
        ),
        output is None ==> agent_lists(agents.push((name, output))) == agent_lists(agents),
        other != name ==> lookup(agent_lists(agents.push((name, output))), other) == lookup(
            agent_lists(agents),
            other,
        ),
{
    assert(agents.push((name, output)).drop_last() =~= agents);
    lemma_with_output(agent_lists(agents), name, output);
}

/// The commands that list sessions.
pub proof fn law_listing_commands()
    ensures
        Mux::Tmux.listing() == seq![
            "list-sessions"@,
            "-F"@,
            "#{session_name}\t#{session_windows}\t#{session_attached}\t#{session_created}"@,
        ],
        Mux::Zellij.listing() == seq!["list-sessions"@, "--no-formatting"@],
        Mux::Herdr.listing() == seq!["session"@, "list"@, "--json"@],
{
}

// ---------------------------------------------------------------------------
// Recent directories
// ---------------------------------------------------------------------------

/// A use at a known time is later than one at an unknown time, and of two known
/// times the greater is later.
pub proof fn law_later(a: u64, b: u64, c: Option<u64>)
    ensures
        later(Some(a), Some(b)) <==> a > b,
        later(Some(a), None),
        !later(None, c),
{
}

/// The latest use of a path is one that was made of it, and none is later.
pub proof fn law_latest(list: Seq<Used>, path: Seq<char>, i: int)
    ensures
        latest(list, path) matches Some(u) ==> u.path == path && list.contains(u),
        0 <= i < list.len() && list[i].path == path ==> (latest(list, path) matches Some(u)
            && !later(list[i].last_used, u.last_used)),
        (forall|k: int| 0 <= k < list.len() ==> (#[trigger] list[k]).path != path) ==> latest(
            list,
            path,
        ) is None,
    decreases list.len(),
{
    if list.len() > 0 {
        let d = list.drop_last();
        law_latest(d, path, i);
        if 0 <= i < d.len() {
            assert(d[i] == list[i]);
        }
        if forall|k: int| 0 <= k < list.len() ==> (#[trigger] list[k]).path != path {
            assert forall|k: int| 0 <= k < d.len() implies (#[trigger] d[k]).path != path by {
                assert(list[k].path != path);
            }
            assert(list[list.len() - 1].path != path);
        }
        match latest(d, path) {
            Some(u) => {
                let k = choose|k: int| 0 <= k < d.len() && d[k] == u;
                assert(list[k] == u);
            },
            None => {},
        }
        assert(list[list.len() - 1] == list.last());
    }
}

/// A merged list is in the order of use, the latest first, and holds only uses that
/// were told.
pub proof fn law_merged(list: Seq<Used>, out: Seq<Used>, i: int, j: int)
    requires
        is_merged(list, out),
        0 <= i < j < out.len(),
    ensures
        !later(out[j].last_used, out[i].last_used),
        list.contains(out[i]),
        out[i].path != out[j].path,
{
    assert(out.contains(out[i]) && out.contains(out[j]));
    law_latest(list, out[i].path, 0);
    if out[i].path == out[j].path {
        crate::commands::cwd_list::law_each_path_once(list, out, i, j);
    }
}

/// A document's directory is its own `cwd`, or the first that is found further down.
pub proof fn law_cwd(m: Seq<(Seq<char>, JsonTree)>, key: Seq<char>, t: JsonTree, s: Seq<char>)
    ensures
        text_field(JsonTree::Table(m), "cwd"@) == Some(s) ==> cwd_in(JsonTree::Table(m)) == Some(s),
        key != "cwd"@ ==> cwd_in(JsonTree::Table(seq![(key, t)])) == cwd_in(t),
        cwd_in(JsonTree::Array(seq![t])) == cwd_in(t),
        cwd_in(JsonTree::Text(s)) is None,
        cwd_in(JsonTree::Table(Seq::empty())) is None,
{
    let one = seq![(key, t)];
    let list = seq![t];
    reveal_with_fuel(crate::commands::cwd_list::cwd_in_values, 3);
    reveal_with_fuel(cwd_in_items, 3);
    assert(one.subrange(1, 1) =~= Seq::<(Seq<char>, JsonTree)>::empty());
    assert(list.subrange(1, 1) =~= Seq::<JsonTree>::empty());
    reveal_with_fuel(cwd_in, 2);
    assert(cwd_in_items(list.subrange(1, 1)) is None);
    assert(list[0] == t);
    assert(cwd_in_items(list) == cwd_in(t));
    if key != "cwd"@ {
        lemma_key_pos_is(one, "cwd"@, 1);
    }
    lemma_key_pos_is(Seq::<(Seq<char>, JsonTree)>::empty(), "cwd"@, 0);
}

/// The projects that settings tell of are the keys under `projects`.
pub proof fn law_projects(t: JsonTree, m: Seq<(Seq<char>, JsonTree)>, i: int)
    ensures
        field(t, "projects"@) == Some(JsonTree::Table(m)) && 0 <= i < m.len() ==> projects_in(
            t,
        ).len() == m.len() && projects_in(t)[i] == m[i].0,
        field(t, "projects"@) is None ==> projects_in(t) == Seq::<Seq<char>>::empty(),
{
}

/// Replacing two characters by a third touches those two alone.
pub proof fn law_replaced(s: Seq<char>, a: char, b: char, to: char, i: int)
    requires
        0 <= i < s.len(),
    ensures
        replaced2(s, a, b, to).len() == s.len(),
        s[i] == a || s[i] == b ==> replaced2(s, a, b, to)[i] == to,
        s[i] != a && s[i] != b ==> replaced2(s, a, b, to)[i] == s[i],
{
}

/// Of several uses of a path at the same time the first counts.
pub proof fn law_first_of_equal_uses(list: Seq<Used>, e: Used, path: Seq<char>)
    ensures
        latest(list, path) matches Some(cur) && !(e.path == path && later(
            e.last_used,
            cur.last_used,
        )) ==> latest(list.push(e), path) == latest(list, path),
        latest(list, path) matches Some(cur) && e.path == path && later(e.last_used, cur.last_used)
            ==> latest(list.push(e), path) == Some(e),
        latest(list, path) is None && e.path == path ==> latest(list.push(e), path) == Some(e),
{
    assert(list.push(e).drop_last() =~= list);
}

// ---------------------------------------------------------------------------
// Pairing over mosh
// ---------------------------------------------------------------------------

/// `MOSH CONNECT`, a port and a key give that port and that key; lines before it are
/// passed over.
pub proof fn law_connect_line(port: u16, key: Seq<char>, rest: Seq<Seq<char>>, other: Seq<char>)
    requires
        key.len() > 0,
        forall|i: int| 0 <= i < key.len() ==> !is_white(#[trigger] key[i]),
        !is_connect_line(other),
    ensures
        ({
            let line = "MOSH"@ + seq![' '] + ("CONNECT"@ + seq![' '] + (decimal(port as nat)
                + seq![' '] + key));
            &&& connect_in(seq![line] + rest) == Some((port, key))
            &&& connect_in(seq![other] + rest) == connect_in(rest)
            &&& connect_in(Seq::empty()) is None
        }),
{
    let d = decimal(port as nat);
    let three = d + seq![' '] + key;
    let two = "CONNECT"@ + seq![' '] + three;
    let line = "MOSH"@ + seq![' '] + two;
    reveal_strlit("MOSH");
    reveal_strlit("CONNECT");
    law_decimal_reads_back(port as nat, u16::MAX as nat);
    assert forall|i: int| 0 <= i < d.len() implies !is_white(#[trigger] d[i]) by {
        assert('0' <= d[i] <= '9');
    }
    law_words(key, ' ', Seq::empty());
    law_words(d, ' ', key);
    law_words("CONNECT"@, ' ', three);
    law_words("MOSH"@, ' ', two);
    let w = word_seq(line);
    assert(w =~= seq!["MOSH"@, "CONNECT"@, d, key]);
    assert((seq![line] + rest)[0] == line);
    assert((seq![other] + rest)[0] == other);
    assert((seq![other] + rest).skip(1) =~= rest);
}

/// A host that was given is used. Somebody who can be asked picks among the addresses
/// that are known, the roaming one first; else it is the one on the local network.
pub proof fn law_host(
    given: Seq<char>,
    ask: bool,
    tailscale: Option<Seq<char>>,
    bonjour: Option<Seq<char>>,
    lan: Option<Seq<char>>,
    ip: Seq<char>,
)
    ensures
        host_found(Some(given), ask, tailscale, bonjour, lan) == HostPlanView::Use(given),
        host_found(None, false, tailscale, bonjour, Some(ip)) == HostPlanView::Use(ip),
        host_found(None, false, tailscale, bonjour, None) == HostPlanView::Unknown,
        host_found(None, true, None, None, None) == HostPlanView::Unknown,
        tailscale is Some ==> (host_found(None, true, tailscale, bonjour, lan)
            matches HostPlanView::Ask(list) && list.len() > 0 && list[0] == (ChoiceView {
            label: "Tailscale"@,
            address: tailscale->0,
        })),
        bonjour is Some ==> choices(tailscale, bonjour, lan).contains(
            (ChoiceView { label: "Bonjour"@, address: bonjour->0 }),
        ),
        lan is Some ==> choices(tailscale, bonjour, lan).contains(
            (ChoiceView { label: "LAN"@, address: lan->0 }),
        ),
        choices(tailscale, bonjour, lan).len() == (if tailscale is Some {
            1int
        } else {
            0
        }) + (if bonjour is Some {
            1int
        } else {
            0
        }) + (if lan is Some {
            1int
        } else {
            0
        }),
{
    let list = choices(tailscale, bonjour, lan);
    let t: int = if tailscale is Some {
        1
    } else {
        0
    };
    if bonjour is Some {
        assert(list[t] == (ChoiceView { label: "Bonjour"@, address: bonjour->0 }));
    }
    if lan is Some {
        assert(list[list.len() - 1] == (ChoiceView { label: "LAN"@, address: lan->0 }));
    }
}

/// A number picks that choice, counted from one; a blank line picks the first; a
/// number out of range picks none.
pub proof fn law_pick(n: u16, count: usize, blank: Seq<char>)
    requires
        forall|i: int| 0 <= i < blank.len() ==> is_white(#[trigger] blank[i]),
    ensures
        1 <= n <= count ==> picked_at(decimal(n as nat), count) == Some(n - 1),
        n == 0 || n > count ==> picked_at(decimal(n as nat), count) is None,
        count > 0 ==> picked_at(blank, count) == Some(0int),
        count == 0 ==> picked_at(blank, count) is None,
{
    let d = decimal(n as nat);
    law_decimal_reads_back(n as nat, u16::MAX as nat);
    assert forall|i: int| 0 <= i < d.len() implies !is_white(#[trigger] d[i]) by {
        assert('0' <= d[i] <= '9');
    }
    lemma_trimmed_same(d);
    law_trim(blank, Seq::empty(), Seq::empty());
    assert(blank + Seq::<char>::empty() + Seq::<char>::empty() =~= blank);
}

/// A byte of a letter, a digit or one of `-_.~` stands for itself in a query; any
/// other is a percent sign and two hexadecimal digits.
pub proof fn law_query_bytes(b: u8)
    ensures
        ({
            let c = b as char;
            let plain = ('A' <= c <= 'Z') || ('a' <= c <= 'z') || ('0' <= c <= '9') || c == '-'
                || c == '_' || c == '.' || c == '~';
            &&& plain ==> encoded_byte(b) == seq![c]
            &&& !plain ==> encoded_byte(b).len() == 3 && encoded_byte(b)[0] == '%'
        }),
        encoded_byte(0x20) == seq!['%', '2', '0'],
        encoded_byte(0x2f) == seq!['%', '2', 'F'],
        encoded_byte(0xff) == seq!['%', 'F', 'F'],
{
    assert(encoded_byte(0x20) =~= seq!['%', '2', '0']);
    assert(encoded_byte(0x2f) =~= seq!['%', '2', 'F']);
    assert(encoded_byte(0xff) =~= seq!['%', 'F', 'F']);
}

/// What stands in a query never ends it or runs into the next parameter: it holds
/// letters, digits, `-_.~` and percent signs alone.
pub proof fn law_query_is_safe(s: Seq<u8>, i: int)
    requires
        0 <= i < encoded_bytes(s).len(),
    ensures
        ({
            let c = encoded_bytes(s)[i];
            ('A' <= c <= 'Z') || ('a' <= c <= 'z') || ('0' <= c <= '9') || c == '-' || c == '_'
                || c == '.' || c == '~' || c == '%'
        }),
    decreases s.len(),
{
    let d = s.drop_last();
    let n = encoded_bytes(d).len() as int;
    if i < n {
        law_query_is_safe(d, i);
        assert(encoded_bytes(s)[i] == encoded_bytes(d)[i]);
    } else {
        let b = s.last();
        assert(encoded_bytes(s)[i] == encoded_byte(b)[i - n]);
        assert(b / 16 < 16 && b % 16 < 16);
    }
}

/// The code carries the host, the port and the key, and what else is known, each
/// under its name.
pub proof fn law_pairing_address(p: Pairing)
    ensures
        ({
            let base = "sailor://mosh?host="@ + encoded(p.host@) + "&port="@ + decimal(
                p.port as nat,
            ) + "&key="@ + encoded(p.key@);
            &&& begins(pairing_address(p), base)
            &&& p.user is None && p.name is None && p.inbox is None && p.gateway is None
                ==> pairing_address(p) == base
            &&& p.user is Some && p.name is None && p.inbox is None && p.gateway is None
                ==> pairing_address(p) == base + "&user="@ + encoded(p.user->0@)
            &&& p.user is None && p.name is Some && p.inbox is None && p.gateway is None
                ==> pairing_address(p) == base + "&name="@ + encoded(p.name->0@)
            &&& p.inbox matches Some((port, key)) ==> (p.user is None && p.name is None
                && p.gateway is None ==> pairing_address(p) == base + "&inboxPort="@ + decimal(
                port as nat,
            ) + "&inboxKey="@ + encoded(key@))
            &&& p.gateway matches Some((port, token)) ==> (p.user is None && p.name is None
                && p.inbox is None ==> pairing_address(p) == base + "&gw="@ + decimal(port as nat)
                + "&gwkey="@ + encoded(token@))
        }),
{
    let base = "sailor://mosh?host="@ + encoded(p.host@) + "&port="@ + decimal(p.port as nat)
        + "&key="@ + encoded(p.key@);
    let whole = pairing_address(p);
    assert(whole.subrange(0, base.len() as int) =~= base);
    if p.user is None && p.name is None && p.inbox is None && p.gateway is None {
        assert(whole =~= base);
    }
    if p.user is Some && p.name is None && p.inbox is None && p.gateway is None {
        assert(whole =~= base + "&user="@ + encoded(p.user->0@));
    }
    if p.user is None && p.name is Some && p.inbox is None && p.gateway is None {
        assert(whole =~= base + "&name="@ + encoded(p.name->0@));
    }
    if let Some((port, key)) = p.inbox {
        if p.user is None && p.name is None && p.gateway is None {
            assert(whole =~= base + "&inboxPort="@ + decimal(port as nat) + "&inboxKey="@
                + encoded(key@));
        }
    }
    if let Some((port, token)) = p.gateway {
        if p.user is None && p.name is None && p.inbox is None {
            assert(whole =~= base + "&gw="@ + decimal(port as nat) + "&gwkey="@ + encoded(token@));
        }
    }
}

/// How a gateway is found: a daemon that answers is used; where none does, one is
/// started only if that is wanted and the host is this machine, and is then asked
/// up to twenty times.
pub proof fn law_gateway_stages(serve: bool, left: u32)
    ensures
        next_stage(Stage::Probing, Seen::Yes, serve) == (Stage::Settled {
            found: true,
            started: false,
        }),
        next_stage(Stage::Probing, Seen::No, true) == Stage::Locating,
        next_stage(Stage::Probing, Seen::No, false) == (Stage::Settled {
            found: false,
            started: false,
        }),
        next_stage(Stage::Locating, Seen::Yes, serve) == Stage::Spawning,
        next_stage(Stage::Locating, Seen::No, serve) == (Stage::Settled {
            found: false,
            started: false,
        }),
        next_stage(Stage::Spawning, Seen::Yes, serve) == (Stage::Awaiting { left: 20 }),
        next_stage(Stage::Spawning, Seen::No, serve) == (Stage::Settled {
            found: false,
            started: false,
        }),
        next_stage(Stage::Awaiting { left }, Seen::Yes, serve) == (Stage::Settled {
            found: true,
            started: true,
        }),
        left > 1 ==> next_stage(Stage::Awaiting { left }, Seen::No, serve) == (Stage::Awaiting {
            left: (left - 1) as u32,
        }),
        left <= 1 ==> next_stage(Stage::Awaiting { left }, Seen::No, serve) == (Stage::Settled {
            found: false,
            started: false,
        }),
{
}

/// What is printed names the address to paste, the port that mosh waits on and the
/// daemon that will be used.
pub proof fn law_report(
    uri: Seq<char>,
    host: Seq<char>,
    port: u16,
    inbox: bool,
    gw: u16,
    started: bool,
    log: Seq<char>,
)
    ensures
        ({
            let r = report_lines(uri, host, port, inbox, gw, true, false, log);
            &&& r.len() == 6
            &&& r[0] == "Scan with the sailor app (+ → Easy Pair), or paste:"@
            &&& r[1] == "  "@ + uri
            &&& r[2] == ""@
            &&& r[3] == "mosh-server is waiting on udp "@ + host + ":"@ + decimal(port as nat)
                + "; the code is single-use."@
            &&& inbox ==> r[4]
                == "A second mosh-server carries the agent inbox on the same host."@
            &&& !inbox ==> r[4] == "No inbox channel: this binary can't locate itself."@
            &&& r[5] == "session listing will use the daemon at "@ + (host + ":"@ + decimal(
                gw as nat,
            )) + "."@
        }),
        gateway_lines(host, gw, true, true, log)[0] == "started the sailor-hook daemon on "@ + (
        host + ":"@ + decimal(gw as nat)) + " (logs: "@ + log + ")."@,
        gateway_lines(host, gw, true, true, log)[1]
            == "session listing will use it. Stop it with `pkill -f 'sailor-hook serve'`."@,
        gateway_lines(host, gw, true, true, log).len() == 2,
        gateway_lines(host, gw, false, started, log) == seq![
            "no daemon reachable at "@ + (host + ":"@ + decimal(gw as nat))
                + " — session listing will fall back to probing the terminal, which mosh truncates for large listings. Start one with `sailor-hook serve --bind "@
                + host + "`."@,
        ],
{
}

/// A connect line without a port and a key gives none, whatever follows it.
pub proof fn law_broken_connect_line(line: Seq<char>, rest: Seq<Seq<char>>)
    requires
        word_seq(line).len() >= 2,
        word_seq(line)[0] == "MOSH"@,
        word_seq(line)[1] == "CONNECT"@,
    ensures
        word_seq(line).len() < 4 ==> connect_in(seq![line] + rest) is None,
        word_seq(line).len() >= 4 && parsed_number(word_seq(line)[2], u16::MAX as nat) is None
            ==> connect_in(seq![line] + rest) is None,
{
    assert((seq![line] + rest)[0] == line);
}

} // verus!
