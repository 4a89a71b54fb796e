use sailor_hook::discovery::{
    build_service, is_lan_address, local_username, on_path, tailscale_info, TailscaleInfo,
};
use sailor_hook::json;
use sailor_hook::preview::{
    self, extract_name, listed_sockets, loopback_listeners, parse_socket, Ip, Socket,
};
use sailor_hook::servers::{
    arrange, basename, extract_title, find_server, is_html, is_probed, kill, kill_json,
    looks_again, parse_lsof_output, probe, process_name_in, servers_json, signal_args,
    signal_message, stale_message, start_kill, KillState, Listener, Server, GRACE_MILLIS,
};

fn kills(answers: &[bool], force: bool) -> KillState {
    let mut state = KillState::Terminate;
    for ok in answers {
        state = kill(state, *ok, force);
    }
    state
}

#[test]
fn parses_lsof_output_with_pid_and_address_lines() {
    let out = "\
p27753
n127.0.0.1:5173
p312
n*:8080
n[::1]:9090
p99999
ngarbage
";
    let listeners = parse_lsof_output(out);
    assert_eq!(listeners.len(), 3);
    assert_eq!(listeners[0], Listener { pid: 27753, host: "127.0.0.1".into(), port: 5173 });
    assert_eq!(listeners[1], Listener { pid: 312, host: "*".into(), port: 8080 });
    assert_eq!(listeners[2], Listener { pid: 312, host: "::1".into(), port: 9090 });
}

#[test]
fn tolerates_odd_lsof_rows_and_ipv6() {
    assert!(parse_lsof_output("").is_empty());
    assert!(parse_lsof_output("pabc\nn:notaport").is_empty());
    assert!(parse_lsof_output("n127.0.0.1:80").is_empty()); // no pid yet
}

#[test]
fn html_filter_accepts_only_htmlish() {
    assert!(is_html("text/html; charset=utf-8"));
    assert!(is_html("application/xhtml+xml"));
    assert!(!is_html("application/json"));
    assert!(!is_html("text/plain"));
    assert!(!is_html(""));
}

#[test]
fn extracts_title_with_attributes_and_missing() {
    assert_eq!(
        extract_title("<html><title>Vite + React</title></html>"),
        Some("Vite + React".into())
    );
    assert_eq!(
        extract_title(r#"<title lang="en"> My App </title>"#),
        Some("My App".into())
    );
    assert_eq!(extract_title("<html><head></head></html>"), None);
    assert_eq!(extract_title(""), None);
    assert_eq!(extract_title("<TITLE>CAPS</TITLE>"), Some("CAPS".into()));
}

fn listener(pid: u32, port: u16) -> Listener {
    Listener { pid, host: "127.0.0.1".into(), port }
}

fn page(pid: u32, port: u16, title: &str) -> Server {
    probe(
        &listener(pid, port),
        true,
        Some("text/html"),
        Some(&format!("<title>{title}</title>")),
        Some("node"),
    )
    .unwrap()
}

#[test]
fn only_a_page_that_loads_is_a_server() {
    let s = page(7, 5173, "App");
    assert_eq!(s.name, "App");
    assert_eq!(s.origin, "http://127.0.0.1:5173");
    assert_eq!(s.process, "node");
    assert!(probe(&listener(7, 5173), false, Some("text/html"), None, None).is_none());
    assert!(probe(&listener(7, 5173), true, Some("application/json"), None, None).is_none());
    assert!(probe(&listener(7, 5173), true, None, None, None).is_none());
    assert!(is_probed(1024) && !is_probed(1023));
}

#[test]
fn servers_are_numbered_by_port() {
    let list = arrange(vec![page(1, 9000, "b"), page(2, 3000, "a"), page(3, 9000, "c")]);
    let ids: Vec<(&str, u16, &str)> = list
        .iter()
        .map(|s| (s.id.as_str(), s.port, s.name.as_str()))
        .collect();
    assert_eq!(
        ids,
        vec![("server_1", 3000, "a"), ("server_2", 9000, "b"), ("server_3", 9000, "c")]
    );
    assert_eq!(find_server(&list, 3, 9000), Some(2));
    assert_eq!(find_server(&list, 3, 3000), None);
    assert_eq!(start_kill(&list, 3, 9000), Ok(KillState::Terminate));
    // The process alone, or the port alone, is not enough.
    assert_eq!(start_kill(&list, 3, 3000), Err(stale_message(3, 3000)));
    assert_eq!(signal_args(KillState::Terminate, 3).unwrap(), ["-TERM", "3"]);
    assert_eq!(signal_args(KillState::Force, 3).unwrap(), ["-KILL", "3"]);
    assert_eq!(signal_args(KillState::Grace, 3), None);
    assert!(looks_again(false, GRACE_MILLIS - 1));
    assert!(!looks_again(false, GRACE_MILLIS) && !looks_again(true, 0));
}

#[test]
fn servers_are_sent_as_a_document() {
    let list = arrange(vec![page(2, 3000, "a")]);
    assert_eq!(
        json::render(&servers_json(&list)),
        concat_lines(&[
            r#"{"servers":[{"host":"127.0.0.1","id":"server_1","isCurrentContext":false,"#,
            r#""name":"a","origin":"http://127.0.0.1:3000","pid":2,"port":3000,"#,
            r#""process":"node"}]}"#,
        ])
    );
    let text = json::render(&kill_json(true, false, &list[0]));
    let doc = json::parse(&text).unwrap();
    assert!(doc.get("killed").is_some() && doc.get("forced").is_some());
}

fn concat_lines(parts: &[&str]) -> String {
    parts.concat()
}

#[test]
fn a_kill_says_why_it_did_not_happen() {
    assert_eq!(
        stale_message(7, 80),
        "pid 7 on port 80 is not a discovered HTML server (stale?) — nothing killed"
    );
    assert_eq!(signal_message(7), "could not signal pid 7 (kill -TERM failed)");
    assert_eq!(start_kill(&vec![], 7, 80), Err(stale_message(7, 80)));
    assert_eq!(kills(&[false], true), KillState::Refused);
    assert_eq!(kills(&[true, true, true], true), KillState::Over { killed: true, forced: false });
    assert_eq!(kills(&[true, false, false], false), KillState::Over { killed: false, forced: false });
    assert_eq!(kills(&[true, false], true), KillState::Force);
    let answers = [true, false, false, true, true];
    assert_eq!(kills(&answers, true), KillState::Over { killed: true, forced: true });
}

#[test]
fn a_process_goes_by_its_last_component() {
    assert_eq!(basename("/usr/bin/node"), "node");
    assert_eq!(basename("node"), "node");
    assert_eq!(process_name_in("  /usr/bin/node \n"), Some("node".into()));
    assert_eq!(process_name_in(" \n"), None);
}

// ---------------------------------------------------------------------------
// Preview
// ---------------------------------------------------------------------------

#[test]
fn parse_socket_v4() {
    assert_eq!(parse_socket("127.0.0.1:8080"), Some(("127.0.0.1".into(), 8080)));
}

#[test]
fn parse_socket_v6() {
    assert_eq!(parse_socket("[::1]:3000"), Some(("::1".into(), 3000)));
}

#[test]
fn parse_socket_with_listen_suffix() {
    assert_eq!(parse_socket("127.0.0.1:8080 (LISTEN)"), Some(("127.0.0.1".into(), 8080)));
}

#[test]
fn only_loopback_sockets_are_offered_each_once_and_in_order() {
    let v4 = |a: [u8; 4], port: u16| Socket { ip: Ip::V4(u32::from_be_bytes(a)), port };
    let v6 = |a: u128, port: u16| Socket { ip: Ip::V6(a), port };
    assert_eq!(
        loopback_listeners(&vec![
            v6(1, 80),
            v4([127, 0, 0, 1], 3000),
            v4([10, 0, 0, 1], 3000),
            v4([127, 0, 0, 1], 80),
            v4([127, 0, 0, 1], 3000),
            v6(2, 80),
        ]),
        vec![v4([127, 0, 0, 1], 80), v4([127, 0, 0, 1], 3000), v6(1, 80)]
    );
}

#[test]
fn sockets_are_listed_below_the_header() {
    let out = "COMMAND PID USER FD TYPE DEVICE SIZE/OFF NODE NAME\n\
               node 12 u 3u IPv4 0x1 0t0 TCP 127.0.0.1:5173 (LISTEN)\n";
    assert_eq!(listed_sockets(out), vec![("127.0.0.1".to_string(), 5173)]);
    assert!(listed_sockets("").is_empty());
}

#[test]
fn a_generic_server_header_names_nobody() {
    assert_eq!(extract_name("HTTP/1.1 200 OK\r\nX-App-Name: Shop\r\n"), Some("Shop".into()));
    assert_eq!(extract_name("HTTP/1.1 200 OK\r\n"), None);
    assert_eq!(extract_name("Server: nginx/1.2\r\nServer: vite\r\n"), Some("vite".into()));
    // The application's own name wins, wherever it stands.
    assert_eq!(extract_name("Server: vite\r\nX-App-Name: shop\r\n"), Some("shop".into()));
}

#[test]
fn an_unknown_process_is_said_to_be_unknown() {
    let socket = Socket { ip: Ip::V4(0x7f00_0001), port: 80 };
    let s = preview::discover(socket, "127.0.0.1", None, Some("HTTP/1.1 200 OK\r\n")).unwrap();
    assert_eq!((s.port, s.process.as_str(), s.bind.as_str()), (80, "unknown", "127.0.0.1"));
    assert_eq!(s.name, None);
}

#[test]
fn only_what_answers_http_is_a_development_server() {
    let socket = Socket { ip: Ip::V4(0x7f00_0001), port: 5173 };
    let named = Some("HTTP/1.1 200 OK\r\nServer: vite\r\n");
    let s = preview::discover(socket, "127.0.0.1", Some("node"), named).unwrap();
    assert_eq!((s.port, s.process.as_str(), s.name.as_deref()), (5173, "node", Some("vite")));
    for answer in [None, Some(""), Some("-ERR unknown command\r\n")] {
        assert_eq!(preview::discover(socket, "127.0.0.1", Some("redis"), answer), None);
    }
}

// ---------------------------------------------------------------------------
// Discovery
// ---------------------------------------------------------------------------

#[test]
fn mosh_flag_reflects_path() {
    assert_eq!(
        on_path(Some("/usr/bin:/opt/bin"), "mosh-server"),
        vec!["/usr/bin/mosh-server", "/opt/bin/mosh-server"]
    );
    assert!(on_path(None, "mosh-server").is_empty());
}

#[test]
fn username_reads_env() {
    assert_eq!(local_username(Some("u"), Some("l")), Some("u".into()));
    assert_eq!(local_username(None, Some("l")), Some("l".into()));
    assert_eq!(local_username(None, None), None);
}

#[test]
fn the_tailnet_name_loses_its_dot() {
    let t = tailscale_info(r#"{"Self": {"DNSName": "mac.tail1.ts.net."}}"#).unwrap();
    assert_eq!((t.dns_name.as_str(), t.host_name.as_str()), ("mac.tail1.ts.net", "mac"));
    assert!(tailscale_info("not json").is_none());
    assert!(tailscale_info(r#"{"Self": {"DNSName": "."}}"#).is_none());
    assert!(tailscale_info("{}").is_none());
}

#[test]
fn the_announcement_prefers_the_tailnet() {
    let t = TailscaleInfo { dns_name: "mac.ts.net".into(), host_name: "mac".into() };
    let a = build_service(Some(&t), Some("192.168.1.2"), 22, Some("u"), true, "1.0").unwrap();
    assert_eq!((a.instance.as_str(), a.host.as_str(), a.address.as_str(), a.port), ("mac", "mac.local.", "192.168.1.2", 22));
    let props: Vec<(&str, &str)> = a
        .properties
        .iter()
        .map(|(k, v)| (k.as_str(), v.as_str()))
        .collect();
    assert_eq!(
        props,
        vec![
            ("hostname", "mac.ts.net"),
            ("port", "22"),
            ("username", "u"),
            ("mosh", "1"),
            ("version", "1.0")
        ]
    );
    let a = build_service(None, Some("192.168.1.2"), 22, None, false, "1.0").unwrap();
    assert_eq!(a.instance, "sailor-192.168.1.2");
    assert!(build_service(Some(&t), None, 22, None, false, "1.0").is_none());
}

#[test]
fn a_lan_address_is_neither_loopback_nor_unset() {
    assert!(is_lan_address(Ip::V4(0xc0a8_0102)));
    assert!(!is_lan_address(Ip::V4(0x7f00_0001)));
    assert!(!is_lan_address(Ip::V4(0)));
    assert!(!is_lan_address(Ip::V6(1)));
}
