//! The decisions of the daemon's start and of its rounds.

use crate::context::Kind;
use crate::inbox::{row_views, Row, RowView};
use crate::paths::{dir_view, join_path, path_joined, state_dir, state_path, DirError};
use crate::text;
use crate::text::{cut_last, opt_str, parsed_number, texts};
use vstd::prelude::*;

verus! {

/// The port that the gateway takes where none is asked for.
pub const GATEWAY_PORT: u16 = 24543;

/// How often archived rows are dropped, in seconds.
pub const PRUNE_INTERVAL: u64 = 600;

/// How often Herdr is asked for the states of its panes, in seconds.
pub const HERDR_POLL_INTERVAL: u64 = 5;

// ---------------------------------------------------------------------------
// Where the gateway listens
// ---------------------------------------------------------------------------

/// What the gateway is bound to.
#[derive(Debug, PartialEq)]
pub enum Host {
    /// The address that was asked for by a flag.
    Asked,
    /// The loopback address.
    Loopback,
    /// An address or a name from the environment.
    Named(String),
}

/// Why `SAILOR_HOOK_GATEWAY_LISTEN` cannot be used.
#[derive(Debug, PartialEq)]
pub enum ListenError {
    /// It holds no `:`. The whole of it.
    NotHostPort(String),
    /// What follows the last `:` is no port. That part.
    BadPort(String),
}

/// A host as the contracts speak of it.
pub enum HostView {
    Asked,
    Loopback,
    Named(Seq<char>),
}

/// An error as the contracts speak of it.
pub enum ListenErrorView {
    NotHostPort(Seq<char>),
    BadPort(Seq<char>),
}

impl View for Host {
    type V = HostView;

    open spec fn view(&self) -> HostView {
        match *self {
            Host::Asked => HostView::Asked,
            Host::Loopback => HostView::Loopback,
            Host::Named(s) => HostView::Named(s@),
        }
    }
}

impl View for ListenError {
    type V = ListenErrorView;

    open spec fn view(&self) -> ListenErrorView {
        match *self {
            ListenError::NotHostPort(s) => ListenErrorView::NotHostPort(s@),
            ListenError::BadPort(s) => ListenErrorView::BadPort(s@),
        }
    }
}

/// The host and the port that `host:port` gives.
pub open spec fn listen_parts(listen: Seq<char>) -> Result<(Seq<char>, u16), ListenErrorView> {
    match cut_last(listen, ':') {
        Some((host, port)) => match parsed_number(port, u16::MAX as nat) {
            Some(n) => Ok((host, n as u16)),
            None => Err(ListenErrorView::BadPort(port)),
        },
        None => Err(ListenErrorView::NotHostPort(listen)),
    }
}

/// Takes `host:port` apart. The host may be an address or a name.
pub fn parse_listen(listen: &str) -> (r: Result<(String, u16), ListenError>)
    ensures
        match r {
            Ok((host, port)) => listen_parts(listen@) == Ok::<
                (Seq<char>, u16),
                ListenErrorView,
            >((host@, port)),
            Err(e) => listen_parts(listen@) == Err::<(Seq<char>, u16), ListenErrorView>(e@),
        },
{
    match text::rsplit_once(listen, ':') {
        Some((host, port)) => match text::parse_u16(port.as_str()) {
            Some(n) => Ok((host, n)),
            None => Err(ListenError::BadPort(port)),
        },
        None => Err(ListenError::NotHostPort(text::owned(listen))),
    }
}

/// Where the gateway listens: what a flag asks for wins, then what the
/// environment says, then the loopback address and the usual port.
pub open spec fn listen_at(bind: bool, port: Option<u16>, env: Option<Seq<char>>) -> Result<
    (HostView, u16),
    ListenErrorView,
> {
    if bind {
        Ok((HostView::Asked, port.unwrap_or(GATEWAY_PORT)))
    } else {
        match env {
            Some(listen) => if listen.len() > 0 {
                match listen_parts(listen) {
                    Ok((host, p)) => Ok((HostView::Named(host), port.unwrap_or(p))),
                    Err(e) => Err(e),
                }
            } else {
                Ok((HostView::Loopback, port.unwrap_or(GATEWAY_PORT)))
            },
            None => Ok((HostView::Loopback, port.unwrap_or(GATEWAY_PORT))),
        }
    }
}

/// Where the gateway listens. `bind` tells whether a flag asks for an address,
/// `port` is the port that a flag asks for, and `env` is what
/// `SAILOR_HOOK_GATEWAY_LISTEN` holds.
pub fn resolve_listen(bind: bool, port: Option<u16>, env: Option<&str>) -> (r: Result<
    (Host, u16),
    ListenError,
>)
    ensures
        match r {
            Ok((host, p)) => listen_at(bind, port, opt_str(env)) == Ok::<
                (HostView, u16),
                ListenErrorView,
            >((host@, p)),
            Err(e) => listen_at(bind, port, opt_str(env)) == Err::<
                (HostView, u16),
                ListenErrorView,
            >(e@),
        },
{
    if bind {
        return Ok((Host::Asked, port.unwrap_or(GATEWAY_PORT)));
    }
    if let Some(listen) = env {
        if !listen.is_empty() {
            return match parse_listen(listen) {
                Ok((host, p)) => Ok((Host::Named(host), port.unwrap_or(p))),
                Err(e) => Err(e),
            };
        }
    }
    Ok((Host::Loopback, port.unwrap_or(GATEWAY_PORT)))
}

/// A flag wins over the environment, and without either the gateway stays on the
/// loopback address.
pub proof fn law_flags_win(bind: bool, port: u16, env: Option<Seq<char>>)
    ensures
        listen_at(true, Some(port), env) == Ok::<(HostView, u16), ListenErrorView>(
            (HostView::Asked, port),
        ),
        listen_at(bind, Some(port), env) matches Ok((_, p)) ==> p == port,
        listen_at(false, None, None) == Ok::<(HostView, u16), ListenErrorView>(
            (HostView::Loopback, GATEWAY_PORT),
        ),
{
}

// ---------------------------------------------------------------------------
// One daemon per host
// ---------------------------------------------------------------------------

/// The file that the daemon holds locked, in the state directory.
pub fn lock_path(state: Option<&str>, home: Option<&str>) -> (r: Result<String, DirError>)
    ensures
        dir_view(r) == match state_path(opt_str(state), opt_str(home)) {
            Ok(dir) => Ok(path_joined(dir, "serve.lock"@)),
            Err(e) => Err(e),
        },
{
    match state_dir(state, home) {
        Ok(dir) => Ok(join_path(dir.as_str(), "serve.lock")),
        Err(e) => Err(e),
    }
}

/// What is said where another daemon holds the lock.
pub fn already_running(lock: &str) -> (r: String)
    ensures
        r@ == "another sailor-hook serve is already running (lock "@ + lock@
            + "). Check `sailor-hook status` or stop it first."@,
{
    text::concat3(
        "another sailor-hook serve is already running (lock ",
        lock,
        "). Check `sailor-hook status` or stop it first.",
    )
}

// ---------------------------------------------------------------------------
// The sessions that Herdr is asked of
// ---------------------------------------------------------------------------

/// The Herdr session that a row's agent runs in.
pub open spec fn herdr_session(row: RowView) -> Option<Seq<char>> {
    match row.terminal {
        Some(t) => if t.kind == Kind::Herdr {
            t.session
        } else {
            None
        },
        None => None,
    }
}

/// The Herdr sessions that rows run in, each once, in the order of the rows.
pub open spec fn herdr_sessions_of(rows: Seq<RowView>) -> Seq<Seq<char>>
    decreases rows.len(),
{
    if rows.len() == 0 {
        Seq::empty()
    } else {
        let rest = herdr_sessions_of(rows.drop_last());
        match herdr_session(rows.last()) {
            Some(s) => if rest.contains(s) {
                rest
            } else {
                rest.push(s)
            },
            None => rest,
        }
    }
}

/// The Herdr sessions that rows run in, each once, in the order of the rows.
pub fn herdr_sessions(rows: &Vec<Row>) -> (r: Vec<String>)
    ensures
        texts(r@) == herdr_sessions_of(row_views(rows@)),
{
    let ghost all = row_views(rows@);
    let mut out: Vec<String> = Vec::new();
    let mut i: usize = 0;
    assert(texts(out@) =~= Seq::empty());
    assert(all.take(0) =~= Seq::empty());
    while i < rows.len()
        invariant
            i <= rows@.len(),
            all == row_views(rows@),
            texts(out@) == herdr_sessions_of(all.take(i as int)),
        decreases rows@.len() - i,
    {
        let ghost before = texts(out@);
        proof {
            assert(all.take(i + 1).drop_last() =~= all.take(i as int));
            assert(all.take(i + 1).last() == rows@[i as int]@);
        }
        if let Some(terminal) = &rows[i].terminal {
            if terminal.kind == Kind::Herdr {
                if let Some(session) = &terminal.session {
                    if !text::list_holds(&out, session.as_str()) {
                        out.push(session.clone());
                        assert(texts(out@) =~= before.push(session@));
                    }
                }
            }
        }
        i += 1;
    }
    assert(all.take(all.len() as int) =~= all);
    out
}

/// Herdr is asked once for each session that a row runs in, and for no other.
pub proof fn law_each_session_is_asked_once(rows: Seq<RowView>)
    ensures
        herdr_sessions_of(rows).no_duplicates(),
        forall|s: Seq<char>| #[trigger]
            herdr_sessions_of(rows).contains(s) <==> exists|i: int|
                0 <= i < rows.len() && herdr_session(#[trigger] rows[i]) == Some(s),
    decreases rows.len(),
{
    if rows.len() > 0 {
        let d = rows.drop_last();
        law_each_session_is_asked_once(d);
        let rest = herdr_sessions_of(d);
        let all = herdr_sessions_of(rows);
        assert forall|s: Seq<char>| #[trigger] all.contains(s) <==> exists|i: int|
            0 <= i < rows.len() && herdr_session(#[trigger] rows[i]) == Some(s) by {
            assert(rest.contains(s) <==> exists|i: int|
                0 <= i < d.len() && herdr_session(#[trigger] d[i]) == Some(s));
            if rest.contains(s) {
                let i = choose|i: int| 0 <= i < d.len() && herdr_session(#[trigger] d[i]) == Some(s);
                assert(rows[i] == d[i]);
                let k = choose|k: int| 0 <= k < rest.len() && rest[k] == s;
                assert(all[k] == s);
            }
            if herdr_session(rows.last()) == Some(s) {
                assert(rows[rows.len() - 1] == rows.last());
                if !rest.contains(s) {
                    assert(all[rest.len() as int] == s);
                }
            }
            if exists|i: int| 0 <= i < rows.len() && herdr_session(#[trigger] rows[i]) == Some(s) {
                let i = choose|i: int|
                    0 <= i < rows.len() && herdr_session(#[trigger] rows[i]) == Some(s);
                if i < d.len() {
                    assert(d[i] == rows[i]);
                }
            }
            if all.contains(s) && !rest.contains(s) {
                let k = choose|k: int| 0 <= k < all.len() && all[k] == s;
                if k < rest.len() {
                    assert(rest[k] == s);
                }
            }
        }
    }
}

} // verus!
