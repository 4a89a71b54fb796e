//! Configuring push delivery and telling of it.

use crate::commands::install::push_line;
use crate::push::{Config, Kind};
use crate::text;
use crate::text::{opt_text, texts};
use vstd::prelude::*;

verus! {

/// The title of a test notification.
pub const TEST_TITLE: &'static str = "sailor: test notification";

/// The text of a test notification.
pub const TEST_BODY: &'static str = "If this reached your phone, push is working.";

/// What is printed once a test notification was delivered.
pub const TEST_DELIVERED: &'static str = "  test:     delivered";

/// Why a configuration is refused.
pub open spec fn refusal(kind: Seq<char>, has_token: bool) -> Option<Seq<char>> {
    match Kind::named(kind) {
        Some(k) => if k == Kind::Gotify && !has_token {
            Some("gotify needs an application token — pass --token"@)
        } else {
            None
        },
        None => Some("unknown push kind `"@ + kind + "` (ntfy|gotify|unifiedpush)"@),
    }
}

/// The configuration that was asked for, or what is said of a kind that there is
/// not, and of Gotify without a token.
pub fn configure(url: String, kind: &str, token: Option<String>) -> (r: Result<Config, String>)
    ensures
        match r {
            Ok(c) => refusal(kind@, token is Some) is None && Kind::named(kind@) == Some(c.kind)
                && c.url@ == url@ && opt_text(c.token) == opt_text(token),
            Err(e) => refusal(kind@, token is Some) == Some(e@),
        },
{
    match Kind::parse(kind) {
        Some(k) => {
            if k == Kind::Gotify && token.is_none() {
                return Err(text::owned("gotify needs an application token — pass --token"));
            }
            Ok(Config { kind: k, url, token })
        },
        None => Err(
            text::concat3("unknown push kind `", kind, "` (ntfy|gotify|unifiedpush)"),
        ),
    }
}

/// What is printed once a configuration was saved.
pub fn saved_line(kind: Kind, path: &str) -> (r: String)
    ensures
        r@ == "push: saved "@ + kind.name() + " config to "@ + path@,
{
    let mut line = text::concat3("push: saved ", kind.as_str(), " config to ");
    line.append(path);
    line
}

/// What is printed of the configuration.
pub open spec fn shown(config: Option<Config>) -> Seq<Seq<char>> {
    match config {
        Some(c) => seq![
            "push: "@ + c.kind.name() + " → "@ + c.url@,
            "  token:    "@ + if c.token is Some {
                "set"@
            } else {
                "(none)"@
            },
        ],
        None => seq![
            "push: not configured"@,
            "  sailor-hook push --set https://ntfy.sh/<your-topic>"@,
        ],
    }
}

/// What is printed of the configuration. A token is never printed.
pub fn show(config: &Option<Config>) -> (r: Vec<String>)
    ensures
        texts(r@) == shown(*config),
{
    let mut lines: Vec<String> = Vec::new();
    assert(texts(lines@) =~= Seq::empty());
    match config {
        Some(c) => {
            let mut line = text::concat3("push: ", c.kind.as_str(), " → ");
            line.append(c.url.as_str());
            push_line(&mut lines, line);
            push_line(
                &mut lines,
                text::concat2(
                    "  token:    ",
                    if c.token.is_some() {
                        "set"
                    } else {
                        "(none)"
                    },
                ),
            );
        },
        None => {
            push_line(&mut lines, text::owned("push: not configured"));
            push_line(
                &mut lines,
                text::owned("  sailor-hook push --set https://ntfy.sh/<your-topic>"),
            );
        },
    }
    assert(texts(lines@) =~= shown(*config));
    lines
}

/// What is printed does not depend on what the token is, only on whether there is
/// one.
pub proof fn law_token_is_not_printed(a: Config, b: Config)
    requires
        a.kind == b.kind,
        a.url@ == b.url@,
        a.token is Some <==> b.token is Some,
    ensures
        shown(Some(a)) == shown(Some(b)),
{
}

} // verus!
