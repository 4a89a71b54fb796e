//! Pairing by a QR code: the code carries what the phone needs to join a mosh
//! session that was started here, so that the phone needs no login of its own.

use crate::commands::install::push_line;
use crate::paths::{dir_view, join_path, path_joined, state_dir, state_path, DirError};
use crate::text;
use crate::text::{
    decimal, line_seq, opt_str, opt_text, parsed_number, texts, trimmed, word_seq,
};
use vstd::prelude::*;
use vstd::utf8::encode_utf8;

verus! {

// ---------------------------------------------------------------------------
// The session
// ---------------------------------------------------------------------------

/// A line that tells of a session: `MOSH CONNECT` and more.
pub open spec fn is_connect_line(line: Seq<char>) -> bool {
    let w = word_seq(line);
    w.len() >= 2 && w[0] == "MOSH"@ && w[1] == "CONNECT"@
}

/// The port and the key that a connect line gives.
pub open spec fn connect_parts(line: Seq<char>) -> Option<(u16, Seq<char>)> {
    let w = word_seq(line);
    if w.len() < 4 {
        None
    } else {
        match parsed_number(w[2], u16::MAX as nat) {
            Some(port) => Some((port as u16, w[3])),
            None => None,
        }
    }
}

/// What the first connect line gives.
pub open spec fn connect_in(lines: Seq<Seq<char>>) -> Option<(u16, Seq<char>)>
    decreases lines.len(),
{
    if lines.len() == 0 {
        None
    } else if is_connect_line(lines[0]) {
        connect_parts(lines[0])
    } else {
        connect_in(lines.skip(1))
    }
}

/// Reads `MOSH CONNECT <port> <key>` from what `mosh-server` printed.
pub fn parse_connect_line(stdout: &str) -> (r: Option<(u16, String)>)
    ensures
        match r {
            Some((port, key)) => connect_in(line_seq(stdout@)) == Some((port, key@)),
            None => connect_in(line_seq(stdout@)) is None,
        },
{
    let lines = text::lines(stdout);
    let ghost all = texts(lines@);
    let mut i: usize = 0;
    assert(all.skip(0) =~= all);
    while i < lines.len()
        invariant
            i <= lines@.len(),
            all == texts(lines@),
            all == line_seq(stdout@),
            connect_in(all) == connect_in(all.skip(i as int)),
        decreases lines@.len() - i,
    {
        assert(all.skip(i as int)[0] == lines@[i as int]@);
        let w = text::words(lines[i].as_str());
        assert(texts(w@).len() == w@.len());
        if w.len() >= 2 {
            assert(texts(w@)[0] == w@[0]@ && texts(w@)[1] == w@[1]@);
            if text::same(w[0].as_str(), "MOSH") && text::same(w[1].as_str(), "CONNECT") {
                if w.len() < 4 {
                    return None;
                }
                assert(texts(w@)[2] == w@[2]@ && texts(w@)[3] == w@[3]@);
                return match text::parse_u16(w[2].as_str()) {
                    Some(port) => Some((port, w[3].clone())),
                    None => None,
                };
            }
        }
        assert(all.skip(i as int).skip(1) =~= all.skip(i + 1));
        i += 1;
    }
    None
}

/// What is said where `mosh-server` printed no connect line.
pub fn no_connect_message(stdout: &str, stderr: &str) -> (r: String)
    ensures
        r@ == "mosh-server did not print a MOSH CONNECT line.\nstdout: "@ + stdout@ + "\nstderr: "@
            + stderr@,
{
    let mut out = text::concat3(
        "mosh-server did not print a MOSH CONNECT line.\nstdout: ",
        stdout,
        "\nstderr: ",
    );
    out.append(stderr);
    out
}

/// The arguments of a `mosh-server` that carries a shell.
pub fn shell_args(colors: u16) -> (r: Vec<String>)
    ensures
        texts(r@) == seq!["new"@, "-c"@, decimal(colors as nat)],
{
    let args = vec![text::owned("new"), text::owned("-c"), text::number(colors as u64)];
    assert(texts(args@) =~= seq!["new"@, "-c"@, decimal(colors as nat)]);
    args
}

/// The arguments of a `mosh-server` that carries the inbox: it runs this program,
/// by the name `sailor-hook` where its path is no text.
pub fn inbox_args(colors: u16, exe: Option<&str>) -> (r: Vec<String>)
    ensures
        texts(r@) == seq![
            "new"@,
            "-c"@,
            decimal(colors as nat),
            "--"@,
            match opt_str(exe) {
                Some(path) => path,
                None => "sailor-hook"@,
            },
            "inbox"@,
            "--watch"@,
            "--stdin-approvals"@,
        ],
{
    let program = match exe {
        Some(path) => path,
        None => "sailor-hook",
    };
    let args = vec![
        text::owned("new"),
        text::owned("-c"),
        text::number(colors as u64),
        text::owned("--"),
        text::owned(program),
        text::owned("inbox"),
        text::owned("--watch"),
        text::owned("--stdin-approvals"),
    ];
    assert(texts(args@) =~= seq![
        "new"@,
        "-c"@,
        decimal(colors as nat),
        "--"@,
        program@,
        "inbox"@,
        "--watch"@,
        "--stdin-approvals"@,
    ]);
    args
}

// ---------------------------------------------------------------------------
// The host
// ---------------------------------------------------------------------------

/// An address that the user can pick.
#[derive(Debug, PartialEq)]
pub struct Choice {
    /// Where it comes from.
    pub label: &'static str,
    pub address: String,
}

/// An address as the contracts speak of it.
pub struct ChoiceView {
    pub label: Seq<char>,
    pub address: Seq<char>,
}

impl View for Choice {
    type V = ChoiceView;

    open spec fn view(&self) -> ChoiceView {
        ChoiceView { label: self.label@, address: self.address@ }
    }
}

/// The views of a list of addresses.
pub open spec fn choice_views(v: Seq<Choice>) -> Seq<ChoiceView> {
    Seq::new(v.len(), |i: int| v[i]@)
}

/// How the host that the code carries is found.
#[derive(Debug, PartialEq)]
pub enum HostPlan {
    /// It is this one.
    Use(String),
    /// The user picks one of these.
    Ask(Vec<Choice>),
    /// There is none.
    Unknown,
}

/// A plan as the contracts speak of it.
pub enum HostPlanView {
    Use(Seq<char>),
    Ask(Seq<ChoiceView>),
    Unknown,
}

impl View for HostPlan {
    type V = HostPlanView;

    open spec fn view(&self) -> HostPlanView {
        match *self {
            HostPlan::Use(s) => HostPlanView::Use(s@),
            HostPlan::Ask(list) => HostPlanView::Ask(choice_views(list@)),
            HostPlan::Unknown => HostPlanView::Unknown,
        }
    }
}

/// An address that is known, as a list.
pub open spec fn choice_of(label: Seq<char>, address: Option<Seq<char>>) -> Seq<ChoiceView> {
    match address {
        Some(a) => seq![ChoiceView { label, address: a }],
        None => Seq::empty(),
    }
}

/// The addresses that are known: the one that roams before those that do not.
pub open spec fn choices(
    tailscale: Option<Seq<char>>,
    bonjour: Option<Seq<char>>,
    lan: Option<Seq<char>>,
) -> Seq<ChoiceView> {
    choice_of("Tailscale"@, tailscale) + choice_of("Bonjour"@, bonjour) + choice_of("LAN"@, lan)
}

/// How the host is found: one that was given is taken; else the user picks, where
/// somebody is there to ask; else it is the address on the local network.
pub open spec fn host_found(
    given: Option<Seq<char>>,
    interactive: bool,
    tailscale: Option<Seq<char>>,
    bonjour: Option<Seq<char>>,
    lan: Option<Seq<char>>,
) -> HostPlanView {
    match given {
        Some(h) => HostPlanView::Use(h),
        None => if interactive && choices(tailscale, bonjour, lan).len() > 0 {
            HostPlanView::Ask(choices(tailscale, bonjour, lan))
        } else {
            match lan {
                Some(ip) => HostPlanView::Use(ip),
                None => HostPlanView::Unknown,
            }
        },
    }
}

fn add_choice(list: &mut Vec<Choice>, label: &'static str, address: Option<&str>)
    ensures
        choice_views(final(list)@) == choice_views(old(list)@) + choice_of(
            label@,
            opt_str(address),
        ),
{
    let ghost before = choice_views(list@);
    if let Some(a) = address {
        list.push(Choice { label, address: text::owned(a) });
    }
    assert(choice_views(list@) =~= before + choice_of(label@, opt_str(address)));
}

/// How the host is found.
pub fn host_plan(
    given: Option<&str>,
    interactive: bool,
    tailscale: Option<&str>,
    bonjour: Option<&str>,
    lan: Option<&str>,
) -> (r: HostPlan)
    ensures
        r@ == host_found(
            opt_str(given),
            interactive,
            opt_str(tailscale),
            opt_str(bonjour),
            opt_str(lan),
        ),
{
    if let Some(h) = given {
        return HostPlan::Use(text::owned(h));
    }
    let mut list: Vec<Choice> = Vec::new();
    assert(choice_views(list@) =~= Seq::empty());
    add_choice(&mut list, "Tailscale", tailscale);
    add_choice(&mut list, "Bonjour", bonjour);
    add_choice(&mut list, "LAN", lan);
    assert(choice_views(list@) =~= choices(opt_str(tailscale), opt_str(bonjour), opt_str(lan)));
    assert(choice_views(list@).len() == list@.len());
    if interactive && list.len() > 0 {
        return HostPlan::Ask(list);
    }
    match lan {
        Some(ip) => HostPlan::Use(text::owned(ip)),
        None => HostPlan::Unknown,
    }
}

/// The position that a line picks: a number from one on, and the first where the
/// line is blank.
pub open spec fn picked_at(line: Seq<char>, count: usize) -> Option<int> {
    if trimmed(line).len() == 0 {
        if count > 0 {
            Some(0)
        } else {
            None
        }
    } else {
        match parsed_number(trimmed(line), u16::MAX as nat) {
            Some(n) => if 1 <= n <= count {
                Some(n - 1)
            } else {
                None
            },
            None => None,
        }
    }
}

/// The position that a line picks; `None` where it picks none.
pub fn picked(line: &str, count: usize) -> (r: Option<usize>)
    ensures
        match r {
            Some(i) => picked_at(line@, count) == Some(i as int) && i < count,
            None => picked_at(line@, count) is None,
        },
{
    let t = text::trim(line);
    if t.as_str().is_empty() {
        return if count > 0 {
            Some(0)
        } else {
            None
        };
    }
    match text::parse_u16(t.as_str()) {
        Some(n) => {
            if n >= 1 && n as usize <= count {
                Some(n as usize - 1)
            } else {
                None
            }
        },
        None => None,
    }
}

/// What is said where this machine's address is not known and none was given.
pub const NO_HOST: &'static str =
    "could not determine this machine's IP — pass --host <ip-or-name>";

/// A short host name from what `hostname -s` printed: a blank one is none.
pub fn hostname(output: &str) -> (r: Option<String>)
    ensures
        opt_text(r) == if trimmed(output@).len() == 0 {
            None
        } else {
            Some(trimmed(output@))
        },
{
    let name = text::trim(output);
    if name.as_str().is_empty() {
        None
    } else {
        Some(name)
    }
}

// ---------------------------------------------------------------------------
// The address that the code carries
// ---------------------------------------------------------------------------

/// A byte that stands for itself in a query.
pub open spec fn is_unreserved(b: u8) -> bool {
    ('A' as u8 <= b <= 'Z' as u8) || ('a' as u8 <= b <= 'z' as u8) || ('0' as u8 <= b
        <= '9' as u8) || b == '-' as u8 || b == '_' as u8 || b == '.' as u8 || b == '~' as u8
}

/// An upper-case hexadecimal digit.
pub open spec fn upper_hex(d: u8) -> char {
    if d < 10 {
        ('0' as u8 + d) as char
    } else {
        ('A' as u8 + d - 10) as char
    }
}

/// A byte in a query: itself, or a percent sign and its two digits.
pub open spec fn encoded_byte(b: u8) -> Seq<char> {
    if is_unreserved(b) {
        seq![b as char]
    } else {
        seq!['%', upper_hex(b / 16), upper_hex(b % 16)]
    }
}

/// Bytes in a query.
pub open spec fn encoded_bytes(s: Seq<u8>) -> Seq<char>
    decreases s.len(),
{
    if s.len() == 0 {
        Seq::empty()
    } else {
        encoded_bytes(s.drop_last()) + encoded_byte(s.last())
    }
}

/// A text in a query: its UTF-8 bytes.
pub open spec fn encoded(s: Seq<char>) -> Seq<char> {
    encoded_bytes(encode_utf8(s))
}

fn hex_digit(d: u8) -> (r: char)
    requires
        d < 16,
    ensures
        r == upper_hex(d),
{
    if d < 10 {
        ('0' as u8 + d) as char
    } else {
        ('A' as u8 + d - 10) as char
    }
}

/// A text as it can stand in a query.
pub fn percent_encode(value: &str) -> (r: String)
    ensures
        r@ == encoded(value@),
{
    let bytes = value.as_bytes();
    let mut out = String::new();
    let mut i: usize = 0;
    assert(out@ =~= encoded_bytes(bytes@.take(0)));
    while i < bytes.len()
        invariant
            i <= bytes@.len(),
            out@ == encoded_bytes(bytes@.take(i as int)),
        decreases bytes@.len() - i,
    {
        let b = bytes[i];
        let ghost before = out@;
        proof {
            assert(bytes@.take(i + 1).drop_last() =~= bytes@.take(i as int));
            assert(bytes@.take(i + 1).last() == b);
        }
        let c = b as char;
        let plain = ('A' <= c && c <= 'Z') || ('a' <= c && c <= 'z') || ('0' <= c && c <= '9')
            || c == '-' || c == '_' || c == '.' || c == '~';
        if plain {
            out.push(c);
            assert(out@ =~= before + encoded_byte(b));
        } else {
            out.push('%');
            out.push(hex_digit(b / 16));
            out.push(hex_digit(b % 16));
            assert(out@ =~= before + encoded_byte(b));
        }
        i += 1;
    }
    assert(bytes@.take(bytes@.len() as int) =~= bytes@);
    out
}

/// What the code carries.
#[derive(Debug)]
pub struct Pairing {
    pub host: String,
    pub port: u16,
    pub key: String,
    pub user: Option<String>,
    pub name: Option<String>,
    /// The port and the key of the session that carries the inbox.
    pub inbox: Option<(u16, String)>,
    /// The port and the token of the daemon's gateway.
    pub gateway: Option<(u16, String)>,
}

/// A parameter of a query.
pub open spec fn parameter(name: Seq<char>, value: Option<String>) -> Seq<char> {
    match value {
        Some(v) => name + encoded(v@),
        None => Seq::empty(),
    }
}

/// The address that the code carries.
pub open spec fn pairing_address(p: Pairing) -> Seq<char> {
    "sailor://mosh?host="@ + encoded(p.host@) + "&port="@ + decimal(p.port as nat) + "&key="@
        + encoded(p.key@) + parameter("&user="@, p.user) + parameter("&name="@, p.name) + (
    match p.inbox {
        Some((port, key)) => "&inboxPort="@ + decimal(port as nat) + "&inboxKey="@ + encoded(key@),
        None => Seq::empty(),
    }) + (match p.gateway {
        Some((port, token)) => "&gw="@ + decimal(port as nat) + "&gwkey="@ + encoded(token@),
        None => Seq::empty(),
    })
}

fn push_parameter(out: &mut String, name: &str, value: &Option<String>)
    ensures
        final(out)@ == old(out)@ + parameter(name@, *value),
{
    let ghost before = out@;
    if let Some(v) = value {
        out.append(name);
        out.append(percent_encode(v.as_str()).as_str());
    }
    assert(out@ =~= before + parameter(name@, *value));
}

/// The address that the code carries.
pub fn pairing_uri(p: &Pairing) -> (r: String)
    ensures
        r@ == pairing_address(*p),
{
    let mut uri = text::concat2("sailor://mosh?host=", percent_encode(p.host.as_str()).as_str());
    uri.append("&port=");
    uri.append(text::number(p.port as u64).as_str());
    uri.append("&key=");
    uri.append(percent_encode(p.key.as_str()).as_str());
    push_parameter(&mut uri, "&user=", &p.user);
    push_parameter(&mut uri, "&name=", &p.name);
    let ghost with_names = uri@;
    let ghost inbox_part = match &p.inbox {
        Some((port, key)) => "&inboxPort="@ + decimal(*port as nat) + "&inboxKey="@ + encoded(key@),
        None => Seq::empty(),
    };
    if let Some((port, key)) = &p.inbox {
        uri.append("&inboxPort=");
        uri.append(text::number(*port as u64).as_str());
        uri.append("&inboxKey=");
        uri.append(percent_encode(key.as_str()).as_str());
    }
    assert(uri@ =~= with_names + inbox_part);
    let ghost with_inbox = uri@;
    let ghost gateway_part = match &p.gateway {
        Some((port, token)) => "&gw="@ + decimal(*port as nat) + "&gwkey="@ + encoded(token@),
        None => Seq::empty(),
    };
    if let Some((port, token)) = &p.gateway {
        uri.append("&gw=");
        uri.append(text::number(*port as u64).as_str());
        uri.append("&gwkey=");
        uri.append(percent_encode(token.as_str()).as_str());
    }
    assert(uri@ =~= with_inbox + gateway_part);
    uri
}

/// The QR code that `qrcode` draws for a text, in half-block characters with its
/// quiet zone, or the message of the error that it is refused with.
pub uninterp spec fn qr_drawn(text: Seq<char>) -> Result<Seq<char>, Seq<char>>;

/// `qrcode::QrCode::new` on the UTF-8 bytes of a text, rendered with
/// `qrcode::render::unicode::Dense1x2`. The drawing is given a name: it is the same
/// for the same text.
#[verifier::external_body]
fn qr_text(text: &str) -> (r: Result<String, String>)
    ensures
        match r {
            Ok(art) => qr_drawn(text@) == Ok::<Seq<char>, Seq<char>>(art@),
            Err(e) => qr_drawn(text@) == Err::<Seq<char>, Seq<char>>(e@),
        },
{
    qrcode::QrCode::new(text.as_bytes())
        .map(|qr| qr.render::<qrcode::render::unicode::Dense1x2>().quiet_zone(true).build())
        .map_err(|e| e.to_string())
}

/// The QR code for what is paired.
pub fn pairing_code(p: &Pairing) -> (r: Result<String, String>)
    ensures
        match r {
            Ok(art) => qr_drawn(pairing_address(*p)) == Ok::<Seq<char>, Seq<char>>(art@),
            Err(e) => qr_drawn(pairing_address(*p)) == Err::<Seq<char>, Seq<char>>(e@),
        },
{
    let uri = pairing_uri(p);
    qr_text(uri.as_str())
}

// ---------------------------------------------------------------------------
// The gateway
// ---------------------------------------------------------------------------

/// How often a daemon that was just started is asked.
pub const TRIES: u32 = 20;

/// How far the search for a gateway is.
#[derive(Debug, Clone, Copy, PartialEq, Eq, Structural)]
pub enum Stage {
    /// It asks whether a daemon answers.
    Probing,
    /// It looks whether the host is an address of this machine.
    Locating,
    /// It starts a daemon.
    Spawning,
    /// It asks the daemon that was started, so many times more.
    Awaiting { left: u32 },
    /// It is over; `found` where there is a gateway, `started` where it was
    /// started here.
    Settled { found: bool, started: bool },
}

/// What came of a stage.
#[derive(Debug, Clone, Copy, PartialEq, Eq, Structural)]
pub enum Seen {
    /// A daemon answered; an address is this machine's; a daemon was started.
    Yes,
    /// None did; it is not; it could not be.
    No,
}

/// The next stage. A daemon is started only where none answers, it is wanted, and
/// the host is an address of this machine.
pub open spec fn next_stage(stage: Stage, seen: Seen, serve: bool) -> Stage {
    match (stage, seen) {
        (Stage::Probing, Seen::Yes) => Stage::Settled { found: true, started: false },
        (Stage::Probing, Seen::No) => if serve {
            Stage::Locating
        } else {
            Stage::Settled { found: false, started: false }
        },
        (Stage::Locating, Seen::Yes) => Stage::Spawning,
        (Stage::Spawning, Seen::Yes) => Stage::Awaiting { left: TRIES },
        (Stage::Awaiting { .. }, Seen::Yes) => Stage::Settled { found: true, started: true },
        (Stage::Awaiting { left }, Seen::No) => if left > 1 {
            Stage::Awaiting { left: (left - 1) as u32 }
        } else {
            Stage::Settled { found: false, started: false }
        },
        (Stage::Settled { .. }, _) => stage,
        _ => Stage::Settled { found: false, started: false },
    }
}

/// The next stage of the search for a gateway.
pub fn advance(stage: Stage, seen: Seen, serve: bool) -> (r: Stage)
    ensures
        r == next_stage(stage, seen, serve),
{
    match (stage, seen) {
        (Stage::Probing, Seen::Yes) => Stage::Settled { found: true, started: false },
        (Stage::Probing, Seen::No) => {
            if serve {
                Stage::Locating
            } else {
                Stage::Settled { found: false, started: false }
            }
        },
        (Stage::Locating, Seen::Yes) => Stage::Spawning,
        (Stage::Spawning, Seen::Yes) => Stage::Awaiting { left: TRIES },
        (Stage::Awaiting { .. }, Seen::Yes) => Stage::Settled { found: true, started: true },
        (Stage::Awaiting { left }, Seen::No) => {
            if left > 1 {
                Stage::Awaiting { left: left - 1 }
            } else {
                Stage::Settled { found: false, started: false }
            }
        },
        (Stage::Settled { .. }, _) => stage,
        _ => Stage::Settled { found: false, started: false },
    }
}

/// How many steps a search has left at most.
pub open spec fn steps_left(stage: Stage) -> nat {
    match stage {
        Stage::Probing => TRIES as nat + 4,
        Stage::Locating => TRIES as nat + 3,
        Stage::Spawning => TRIES as nat + 2,
        Stage::Awaiting { left } => left as nat + 1,
        Stage::Settled { .. } => 0,
    }
}

/// The search for a gateway comes to an end, starts nothing where that is not
/// wanted, and takes a daemon as started here only after starting it.
pub proof fn law_gateway_search(stage: Stage, seen: Seen, serve: bool)
    ensures
        !(stage is Settled) ==> steps_left(next_stage(stage, seen, serve)) < steps_left(stage),
        stage is Probing && !serve ==> next_stage(stage, seen, serve) is Settled,
        stage is Awaiting <== (!(stage is Settled) && next_stage(stage, seen, serve)
            == (Stage::Settled { found: true, started: true })),
{
}

/// The log of a daemon that is started here, in the state directory.
pub fn gateway_log_path(state: Option<&str>, home: Option<&str>) -> (r: Result<String, DirError>)
    ensures
        dir_view(r) == match state_path(opt_str(state), opt_str(home)) {
            Ok(dir) => Ok(path_joined(dir, "gateway.log"@)),
            Err(e) => Err(e),
        },
{
    match state_dir(state, home) {
        Ok(dir) => Ok(join_path(dir.as_str(), "gateway.log")),
        Err(e) => Err(e),
    }
}

/// The arguments of a daemon that is started here. It is not announced: that is a
/// decision that the user has not made.
pub fn gateway_args(bind: &str, port: u16) -> (r: Vec<String>)
    ensures
        texts(r@) == seq![
            "serve"@,
            "--bind"@,
            bind@,
            "--port"@,
            decimal(port as nat),
            "--no-advertise"@,
        ],
{
    let args = vec![
        text::owned("serve"),
        text::owned("--bind"),
        text::owned(bind),
        text::owned("--port"),
        text::number(port as u64),
        text::owned("--no-advertise"),
    ];
    assert(texts(args@) =~= seq![
        "serve"@,
        "--bind"@,
        bind@,
        "--port"@,
        decimal(port as nat),
        "--no-advertise"@,
    ]);
    args
}

// ---------------------------------------------------------------------------
// What is printed
// ---------------------------------------------------------------------------

/// What is said of the gateway.
pub open spec fn gateway_lines(
    host: Seq<char>,
    port: u16,
    found: bool,
    started: bool,
    log: Seq<char>,
) -> Seq<Seq<char>> {
    let at = host + ":"@ + decimal(port as nat);
    if found && started {
        seq![
            "started the sailor-hook daemon on "@ + at + " (logs: "@ + log + ")."@,
            "session listing will use it. Stop it with `pkill -f 'sailor-hook serve'`."@,
        ]
    } else if found {
        seq!["session listing will use the daemon at "@ + at + "."@]
    } else {
        seq![
            "no daemon reachable at "@ + at
                + " — session listing will fall back to probing the terminal, which mosh truncates for large listings. Start one with `sailor-hook serve --bind "@
                + host + "`."@,
        ]
    }
}

/// What is printed under the code.
pub open spec fn report_lines(
    uri: Seq<char>,
    host: Seq<char>,
    port: u16,
    inbox: bool,
    gateway_port: u16,
    found: bool,
    started: bool,
    log: Seq<char>,
) -> Seq<Seq<char>> {
    seq![
        "Scan with the sailor app (+ → Easy Pair), or paste:"@,
        "  "@ + uri,
        ""@,
        "mosh-server is waiting on udp "@ + host + ":"@ + decimal(port as nat)
            + "; the code is single-use."@,
        if inbox {
            "A second mosh-server carries the agent inbox on the same host."@
        } else {
            "No inbox channel: this binary can't locate itself."@
        },
    ] + gateway_lines(host, gateway_port, found, started, log)
}

/// What is printed under the code. `log` is where a daemon that was started here
/// writes.
pub fn report(
    uri: &str,
    host: &str,
    port: u16,
    inbox: bool,
    gateway_port: u16,
    found: bool,
    started: bool,
    log: &str,
) -> (r: Vec<String>)
    ensures
        texts(r@) == report_lines(
            uri@,
            host@,
            port,
            inbox,
            gateway_port,
            found,
            started,
            log@,
        ),
{
    let mut lines: Vec<String> = Vec::new();
    assert(texts(lines@) =~= Seq::empty());
    push_line(
        &mut lines,
        text::owned("Scan with the sailor app (+ → Easy Pair), or paste:"),
    );
    push_line(&mut lines, text::concat2("  ", uri));
    push_line(&mut lines, text::owned(""));
    let mut waiting = text::concat3("mosh-server is waiting on udp ", host, ":");
    waiting.append(text::number(port as u64).as_str());
    waiting.append("; the code is single-use.");
    push_line(&mut lines, waiting);
    push_line(
        &mut lines,
        text::owned(
            if inbox {
                "A second mosh-server carries the agent inbox on the same host."
            } else {
                "No inbox channel: this binary can't locate itself."
            },
        ),
    );
    let at = text::concat3(host, ":", text::number(gateway_port as u64).as_str());
    if found && started {
        let mut line = text::concat3(
            "started the sailor-hook daemon on ",
            at.as_str(),
            " (logs: ",
        );
        line.append(log);
        line.append(").");
        push_line(&mut lines, line);
        push_line(
            &mut lines,
            text::owned(
                "session listing will use it. Stop it with `pkill -f 'sailor-hook serve'`.",
            ),
        );
    } else if found {
        push_line(
            &mut lines,
            text::concat3("session listing will use the daemon at ", at.as_str(), "."),
        );
    } else {
        let mut line = text::concat3(
            "no daemon reachable at ",
            at.as_str(),
            " — session listing will fall back to probing the terminal, which mosh truncates for large listings. Start one with `sailor-hook serve --bind ",
        );
        line.append(host);
        line.append("`.");
        push_line(&mut lines, line);
    }
    assert(texts(lines@) =~= report_lines(
        uri@,
        host@,
        port,
        inbox,
        gateway_port,
        found,
        started,
        log@,
    ));
    lines
}

// ---------------------------------------------------------------------------
// Laws
// ---------------------------------------------------------------------------

/// The byte that a hexadecimal digit stands for.
pub open spec fn hex_value(c: char) -> u8 {
    if '0' <= c <= '9' {
        (c as u8 - '0' as u8) as u8
    } else {
        (c as u8 - 'A' as u8 + 10) as u8
    }
}

/// The bytes that a query value stands for, read from its end.
pub open spec fn decoded(s: Seq<char>) -> Seq<u8>
    decreases s.len(),
{
    if s.len() == 0 {
        Seq::empty()
    } else if s.len() >= 3 && s[s.len() - 3] == '%' {
        decoded(s.take(s.len() - 3)).push(
            (hex_value(s[s.len() - 2]) * 16 + hex_value(s[s.len() - 1])) as u8,
        )
    } else {
        decoded(s.drop_last()).push(s.last() as u8)
    }
}

/// A percent sign stands only at the start of a byte's three characters.
proof fn lemma_no_stray_percent(s: Seq<u8>)
    ensures
        encoded_bytes(s).len() >= 1 ==> encoded_bytes(s)[encoded_bytes(s).len() - 1] != '%',
        encoded_bytes(s).len() >= 2 ==> encoded_bytes(s)[encoded_bytes(s).len() - 2] != '%',
    decreases s.len(),
{
    if s.len() > 0 {
        let d = s.drop_last();
        lemma_no_stray_percent(d);
        let b = s.last();
        let e = encoded_bytes(s);
        let n = encoded_bytes(d).len() as int;
        lemma_hex_digits(b);
        if is_unreserved(b) {
            assert(e[n] == b as char);
            if n >= 1 {
                assert(e[n - 1] == encoded_bytes(d)[n - 1]);
            }
        } else {
            assert(e[n + 1] == upper_hex(b / 16) && e[n + 2] == upper_hex(b % 16));
        }
    }
}

proof fn lemma_hex_digits(b: u8)
    ensures
        upper_hex(b / 16) != '%',
        upper_hex(b % 16) != '%',
        hex_value(upper_hex(b / 16)) == b / 16,
        hex_value(upper_hex(b % 16)) == b % 16,
        is_unreserved(b) ==> b as char != '%' && (b as char) as u8 == b,
{
}

/// Decoding a query value gives back the bytes that were encoded.
pub proof fn law_decode_undoes_encode(s: Seq<u8>)
    ensures
        decoded(encoded_bytes(s)) == s,
    decreases s.len(),
{
    if s.len() > 0 {
        let d = s.drop_last();
        let b = s.last();
        let e = encoded_bytes(s);
        let n = encoded_bytes(d).len() as int;
        law_decode_undoes_encode(d);
        lemma_no_stray_percent(d);
        lemma_hex_digits(b);
        if is_unreserved(b) {
            assert(e.drop_last() =~= encoded_bytes(d));
            assert(e.last() == b as char);
            if e.len() >= 3 {
                assert(e[e.len() - 3] == encoded_bytes(d)[n - 2]);
            }
        } else {
            assert(e.take(e.len() - 3) =~= encoded_bytes(d));
            assert(e[n] == '%' && e[n + 1] == upper_hex(b / 16) && e[n + 2] == upper_hex(b % 16));
            assert((b / 16) * 16 + b % 16 == b);
        }
        assert(decoded(e) =~= d.push(b));
        assert(s =~= d.push(b));
    }
}

} // verus!
