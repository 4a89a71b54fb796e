//! The rules of the HTTP gateway: who may ask, and what an answer to an approval
//! is told.

use crate::inbox::{answered, Inbox, Row, RowView};
use crate::pending::{Pending, PendingView};
use crate::server::NO_APPROVAL;
use crate::text;
use crate::text::{after_prefix, opt_str, opt_text};
use vstd::prelude::*;

verus! {

/// Compares two byte strings without stopping at the first difference: a wrong
/// guess must not tell by its timing how much of it was right.
pub fn constant_time_eq(a: &[u8], b: &[u8]) -> (r: bool)
    ensures
        r == (a@ == b@),
{
    if a.len() != b.len() {
        return false;
    }
    let mut diff: u8 = 0;
    let mut i: usize = 0;
    while i < a.len()
        invariant
            i <= a@.len(),
            a@.len() == b@.len(),
            diff == 0 <==> a@.take(i as int) =~= b@.take(i as int),
        decreases a@.len() - i,
    {
        let x = a[i];
        let y = b[i];
        let before = diff;
        diff = diff | (x ^ y);
        assert((before | (x ^ y)) == 0 <==> before == 0 && x == y) by (bit_vector);
        proof {
            let s = a@.take(i + 1);
            let t = b@.take(i + 1);
            assert(s =~= a@.take(i as int).push(x));
            assert(t =~= b@.take(i as int).push(y));
            if s =~= t {
                assert(s.drop_last() =~= a@.take(i as int));
                assert(t.drop_last() =~= b@.take(i as int));
                assert(s.last() == x && t.last() == y);
            }
        }
        i += 1;
    }
    assert(a@.take(a@.len() as int) =~= a@);
    assert(b@.take(b@.len() as int) =~= b@);
    diff == 0
}

/// The token that a request presents: what follows `Bearer ` in its authorization
/// header, or nothing.
pub open spec fn presented(header: Option<Seq<char>>) -> Seq<char> {
    match header {
        Some(h) => match after_prefix(h, "Bearer "@) {
            Some(t) => t,
            None => ""@,
        },
        None => ""@,
    }
}

/// A request is let in: no token is asked for, or it presents the right one.
pub open spec fn admitted(token: Option<Seq<char>>, header: Option<Seq<char>>) -> bool {
    match token {
        Some(t) => presented(header) == t,
        None => true,
    }
}

/// Whether a request is let in. `token` is `None` where the gateway is on loopback
/// only: then reaching it takes a login on the machine already.
pub fn authorized(token: Option<&str>, header: Option<&str>) -> (r: bool)
    ensures
        r == admitted(opt_str(token), opt_str(header)),
{
    let expected = match token {
        Some(t) => t,
        None => return true,
    };
    let given = match header {
        Some(h) => match text::strip_prefix(h, "Bearer ") {
            Some(t) => t,
            None => text::owned(""),
        },
        None => text::owned(""),
    };
    proof {
        vstd::utf8::encode_utf8_decode_utf8(given@);
        vstd::utf8::encode_utf8_decode_utf8(expected@);
    }
    constant_time_eq(given.as_str().as_bytes(), expected.as_bytes())
}

/// What a request is answered.
#[derive(Debug)]
pub struct Response {
    pub status: u16,
    pub body: &'static str,
}

/// The answer to a request that is not let in.
pub fn unauthorized() -> (r: Response)
    ensures
        r.status == 401,
        r.body@ == "unauthorized"@,
{
    Response { status: 401, body: "unauthorized" }
}

/// Answers a parked approval: the hook that waits hears it, and its row is marked.
/// Gives the answer to the request, and the row to be shown again. Where nothing
/// waits on that identifier, nothing changes but that it is forgotten.
pub fn approve(pending: &mut Pending, inbox: &mut Inbox, id: u128, allow: bool) -> (r: (
    Response,
    Option<Row>,
))
    ensures
        final(pending)@ == old(pending)@.resolved(id, allow),
        old(pending)@.can_answer(id) ==> r.0.status == 200 && r.0.body@ == "ok"@ && match r.1 {
            Some(row) => old(inbox)@.contains_key(row.session_id)
                && old(inbox)@[row.session_id].pending_action_id == Some(id) && row@ == answered(
                old(inbox)@[row.session_id],
                allow,
            ) && final(inbox)@ == old(inbox)@.insert(row.session_id, row@),
            None => final(inbox)@ == old(inbox)@ && forall|k: u128| #[trigger]
                old(inbox)@.contains_key(k) ==> old(inbox)@[k].pending_action_id != Some(id),
        },
        !old(pending)@.can_answer(id) ==> r.0.status == 404 && r.0.body@ == NO_APPROVAL@ && r.1
            is None && final(inbox)@ == old(inbox)@,
{
    if pending.resolve(id, allow) {
        let row = inbox.resolve(id, allow);
        (Response { status: 200, body: "ok" }, row)
    } else {
        (Response { status: 404, body: NO_APPROVAL }, None)
    }
}

/// Which changes a request asks for: those scopes that it names, and all three
/// where it names none.
pub open spec fn scopes_asked(staged: Option<bool>, unstaged: Option<bool>, untracked: Option<bool>)
    -> (bool, bool, bool) {
    let any = staged is Some || unstaged is Some || untracked is Some;
    (
        match staged {
            Some(b) => b,
            None => !any,
        },
        match unstaged {
            Some(b) => b,
            None => !any,
        },
        match untracked {
            Some(b) => b,
            None => !any,
        },
    )
}

/// Which changes a request asks for.
pub fn diff_scopes(staged: Option<bool>, unstaged: Option<bool>, untracked: Option<bool>) -> (r: (
    bool,
    bool,
    bool,
))
    ensures
        r == scopes_asked(staged, unstaged, untracked),
{
    let any = staged.is_some() || unstaged.is_some() || untracked.is_some();
    let a = match staged {
        Some(b) => b,
        None => !any,
    };
    let b = match unstaged {
        Some(b) => b,
        None => !any,
    };
    let c = match untracked {
        Some(b) => b,
        None => !any,
    };
    (a, b, c)
}

/// The repository that a request works on: the one that it names, else the
/// directory that the daemon was started in, else `.`.
pub fn repo_or_cwd(explicit: Option<&str>, cwd: Option<&str>) -> (r: String)
    ensures
        r@ == match explicit {
            Some(p) => p@,
            None => match cwd {
                Some(c) => c@,
                None => "."@,
            },
        },
{
    match explicit {
        Some(p) => text::owned(p),
        None => match cwd {
            Some(c) => text::owned(c),
            None => text::owned("."),
        },
    }
}

/// Why the gateway does not start, if it does not: an address that is not loopback
/// is on a network, and is never bound without a token.
pub fn bind_refusal(bind: &str, loopback: bool, has_token: bool) -> (r: Option<String>)
    ensures
        opt_text(r) == if !loopback && !has_token {
            Some("refusing to bind "@ + bind@ + " without a gateway token"@)
        } else {
            None
        },
{
    if !loopback && !has_token {
        Some(text::concat3("refusing to bind ", bind, " without a gateway token"))
    } else {
        None
    }
}

/// With a token, a request gets in only by presenting exactly that token.
pub proof fn law_token_is_needed(token: Seq<char>, header: Option<Seq<char>>)
    requires
        token.len() > 0,
    ensures
        admitted(Some(token), header) ==> header == Some("Bearer "@ + token),
{
    if admitted(Some(token), header) {
        reveal_strlit("");
        let h = header->0;
        let p = "Bearer "@;
        assert(after_prefix(h, p) is Some);
        assert(h =~= p + token);
    }
}

/// The scopes that a request names are selected exclusively; naming none selects
/// all three.
pub proof fn law_named_scopes_are_exclusive(
    staged: Option<bool>,
    unstaged: Option<bool>,
    untracked: Option<bool>,
)
    ensures
        (staged is Some || unstaged is Some || untracked is Some) ==> {
            let r = scopes_asked(staged, unstaged, untracked);
            (staged is None ==> !r.0) && (unstaged is None ==> !r.1) && (untracked is None ==> !r.2)
        },
        staged is None && unstaged is None && untracked is None ==> scopes_asked(
            staged,
            unstaged,
            untracked,
        ) == (true, true, true),
{
}

} // verus!
