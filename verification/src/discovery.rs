//! What this host announces on the local network, and how it finds out.

use crate::json;
use crate::json::{json_parsed, Json, JsonTree};
use crate::paths::{join_path, path_joined};
use crate::preview::{loops_back, Ip};
use crate::text;
use crate::text::{decimal, opt_str, opt_text, pieces, texts, without_trailing};
use crate::tree::{field, text_field};
use vstd::prelude::*;

verus! {

/// This host's names on the tailnet.
#[derive(Debug)]
pub struct TailscaleInfo {
    /// The full name, without the dot at its end.
    pub dns_name: String,
    /// The first label of the full name.
    pub host_name: String,
}

/// The full name in the output of `tailscale status --json`.
pub open spec fn dns_name_in(status: JsonTree) -> Option<Seq<char>> {
    match field(status, "Self"@) {
        Some(me) => match text_field(me, "DNSName"@) {
            Some(raw) => {
                let name = without_trailing(raw, '.');
                if name.len() == 0 {
                    None
                } else {
                    Some(name)
                }
            },
            None => None,
        },
        None => None,
    }
}

/// The first label of a full name; a name that starts with a dot has none, and the
/// program's own stands for it.
pub open spec fn first_label(name: Seq<char>) -> Seq<char> {
    if pieces(name, '.').len() > 0 && pieces(name, '.')[0].len() > 0 {
        pieces(name, '.')[0]
    } else {
        "sailor"@
    }
}

fn label_of(name: &str) -> (r: String)
    ensures
        r@ == first_label(name@),
{
    let parts = text::split_char(name, '.');
    assert(texts(parts@).len() == parts@.len());
    if parts.len() > 0 {
        assert(texts(parts@)[0] == parts@[0]@);
        if !parts[0].as_str().is_empty() {
            return parts[0].clone();
        }
    }
    text::owned("sailor")
}

/// This host's names in the output of `tailscale status --json`, once parsed.
pub fn tailscale_names(status: &Json) -> (r: Option<TailscaleInfo>)
    ensures
        match r {
            Some(t) => dns_name_in(status@) == Some(t.dns_name@) && t.host_name@ == first_label(
                t.dns_name@,
            ),
            None => dns_name_in(status@) is None,
        },
{
    let me = match status.get("Self") {
        Some(n) => n,
        None => return None,
    };
    let raw = match me.get_str("DNSName") {
        Some(s) => s,
        None => return None,
    };
    let dns_name = text::trim_end_char(raw, '.');
    if dns_name.as_str().is_empty() {
        return None;
    }
    let host_name = label_of(dns_name.as_str());
    Some(TailscaleInfo { dns_name, host_name })
}

/// This host's names in the output of `tailscale status --json`; none where that is
/// not JSON, or the host is not on a tailnet.
pub fn tailscale_info(output: &str) -> (r: Option<TailscaleInfo>)
    ensures
        match json_parsed(output@) {
            Ok(status) => match r {
                Some(t) => dns_name_in(status) == Some(t.dns_name@) && t.host_name@ == first_label(
                    t.dns_name@,
                ),
                None => dns_name_in(status) is None,
            },
            Err(_) => r is None,
        },
{
    match json::parse(output) {
        Ok(status) => tailscale_names(&status),
        Err(_) => None,
    }
}

/// What is announced.
#[derive(Debug)]
pub struct Announcement {
    pub instance: String,
    pub host: String,
    pub address: String,
    pub port: u16,
    pub properties: Vec<(String, String)>,
}

/// The announced properties as the contracts speak of them.
pub open spec fn property_views(v: Seq<(String, String)>) -> Seq<(Seq<char>, Seq<char>)> {
    Seq::new(v.len(), |i: int| (v[i].0@, v[i].1@))
}

/// The service type.
pub const SERVICE_TYPE: &'static str = "_sailor._tcp.local.";

/// What the phone reads from an announcement: the name to connect to, the port to
/// log in on, the user where it is known, whether mosh is there, the version.
pub open spec fn announced_properties(
    dns_name: Option<Seq<char>>,
    lan: Seq<char>,
    ssh_port: u16,
    user: Option<Seq<char>>,
    mosh: bool,
    version: Seq<char>,
) -> Seq<(Seq<char>, Seq<char>)> {
    let first = seq![
        (
            "hostname"@,
            match dns_name {
                Some(n) => n,
                None => lan,
            },
        ),
        ("port"@, decimal(ssh_port as nat)),
    ];
    let last = seq![
        (
            "mosh"@,
            if mosh {
                "1"@
            } else {
                "0"@
            },
        ),
        ("version"@, version),
    ];
    match user {
        Some(u) => first + seq![("username"@, u)] + last,
        None => first + last,
    }
}

/// Puts an announcement together. On a tailnet the phone is told the full name
/// there, so that it stays connected away from the local network; otherwise the
/// local address. `None` where there is no local address.
pub fn build_service(
    tailscale: Option<&TailscaleInfo>,
    lan: Option<&str>,
    ssh_port: u16,
    user: Option<&str>,
    mosh: bool,
    version: &str,
) -> (r: Option<Announcement>)
    ensures
        match r {
            Some(a) => lan is Some && a.address@ == lan->0@ && a.port == ssh_port && a.instance@
                == (match tailscale {
                Some(t) => t.host_name@,
                None => "sailor-"@ + lan->0@,
            }) && a.host@ == a.instance@ + ".local."@ && property_views(a.properties@)
                == announced_properties(
                match tailscale {
                    Some(t) => Some(t.dns_name@),
                    None => None,
                },
                lan->0@,
                ssh_port,
                opt_str(user),
                mosh,
                version@,
            ),
            None => lan is None,
        },
{
    let lan = match lan {
        Some(l) => l,
        None => return None,
    };
    let (instance, hostname) = match tailscale {
        Some(t) => (t.host_name.clone(), t.dns_name.clone()),
        None => (text::concat2("sailor-", lan), text::owned(lan)),
    };
    let ghost named = hostname@;
    let mut properties: Vec<(String, String)> = Vec::new();
    properties.push((text::owned("hostname"), hostname));
    properties.push((text::owned("port"), text::number(ssh_port as u64)));
    if let Some(u) = user {
        properties.push((text::owned("username"), text::owned(u)));
    }
    let flag = if mosh {
        "1"
    } else {
        "0"
    };
    properties.push((text::owned("mosh"), text::owned(flag)));
    properties.push((text::owned("version"), text::owned(version)));
    let host = text::concat2(instance.as_str(), ".local.");
    proof {
        let dns = match tailscale {
            Some(t) => Some(t.dns_name@),
            None => None,
        };
        assert(property_views(properties@) =~= announced_properties(
            dns,
            lan@,
            ssh_port,
            opt_str(user),
            mosh,
            version@,
        ));
    }
    Some(Announcement { instance, host, address: text::owned(lan), port: ssh_port, properties })
}

/// What is said where there is no address to announce.
pub const NO_LAN: &'static str = "no IPv4 LAN address found to advertise";

/// Whether an address can be announced: a four-byte one that is neither loopback
/// nor unspecified.
pub fn is_lan_address(ip: Ip) -> (r: bool)
    ensures
        r == (ip matches Ip::V4(a) && !loops_back(ip) && a != 0),
{
    match ip {
        Ip::V4(a) => !ip.is_loopback() && a != 0,
        Ip::V6(_) => false,
    }
}

/// Where a program may stand: in each directory of the search path.
pub open spec fn places(path: Option<Seq<char>>, name: Seq<char>) -> Seq<Seq<char>> {
    match path {
        Some(p) => Seq::new(
            pieces(p, ':').len(),
            |i: int| path_joined(pieces(p, ':')[i], name),
        ),
        None => Seq::empty(),
    }
}

/// Where a program may stand on the search path.
pub fn on_path(path: Option<&str>, name: &str) -> (r: Vec<String>)
    ensures
        texts(r@) == places(opt_str(path), name@),
{
    let mut out: Vec<String> = Vec::new();
    assert(texts(out@) =~= Seq::empty());
    let p = match path {
        Some(p) => p,
        None => return out,
    };
    let dirs = text::split_char(p, ':');
    assert(texts(dirs@).len() == dirs@.len());
    let mut i: usize = 0;
    while i < dirs.len()
        invariant
            i <= dirs@.len(),
            texts(dirs@) == pieces(p@, ':'),
            texts(dirs@).len() == dirs@.len(),
            out@.len() == i,
            forall|k: int|
                0 <= k < i ==> (#[trigger] out@[k])@ == path_joined(pieces(p@, ':')[k], name@),
        decreases dirs@.len() - i,
    {
        assert(texts(dirs@)[i as int] == dirs@[i as int]@);
        out.push(join_path(dirs[i].as_str(), name));
        i += 1;
    }
    assert(texts(out@) =~= places(opt_str(path), name@));
    out
}

/// The user's name: `USER`, or else `LOGNAME`.
pub fn local_username(user: Option<&str>, logname: Option<&str>) -> (r: Option<String>)
    ensures
        opt_text(r) == if user is Some {
            opt_str(user)
        } else {
            opt_str(logname)
        },
{
    match user {
        Some(u) => Some(text::owned(u)),
        None => match logname {
            Some(l) => Some(text::owned(l)),
            None => None,
        },
    }
}

} // verus!
