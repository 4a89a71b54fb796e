//! Running the daemon as a systemd user unit.

use crate::paths::{dir_view, join_path, path_joined, DirError};
use crate::text;
use crate::text::texts;
use vstd::prelude::*;

verus! {

/// The name of the unit.
pub const UNIT_NAME: &'static str = "sailor-hook.service";

/// What is said where there is no systemd.
pub const NOT_HERE: &'static str =
    "`service` is only wired up on Linux (systemd user units). On macOS, run the daemon persistently with `brew services start sailor-hook` (Homebrew formula) or start `sailor-hook serve` in a terminal.";

/// What `service` is asked to do.
#[derive(Debug, Clone, Copy, PartialEq, Eq, Structural)]
pub enum Verb {
    Install,
    Uninstall,
    Status,
}

impl Verb {
    /// What a word asks for.
    pub open spec fn named(s: Seq<char>) -> Option<Verb> {
        if s == "install"@ {
            Some(Verb::Install)
        } else if s == "uninstall"@ {
            Some(Verb::Uninstall)
        } else if s == "status"@ {
            Some(Verb::Status)
        } else {
            None
        }
    }

    /// What a word asks for, or what is said of another word.
    pub fn parse(s: &str) -> (r: Result<Verb, String>)
        ensures
            match r {
                Ok(v) => Verb::named(s@) == Some(v),
                Err(e) => Verb::named(s@) is None && e@ == "unknown service verb: "@ + s@
                    + " (install | uninstall | status)"@,
            },
    {
        if text::same(s, "install") {
            Ok(Verb::Install)
        } else if text::same(s, "uninstall") {
            Ok(Verb::Uninstall)
        } else if text::same(s, "status") {
            Ok(Verb::Status)
        } else {
            Err(text::concat3("unknown service verb: ", s, " (install | uninstall | status)"))
        }
    }
}

/// The file of the unit, below the home directory.
pub open spec fn unit_at(home: Option<&str>) -> Result<Seq<char>, DirError> {
    match home {
        Some(h) => Ok(
            path_joined(
                path_joined(path_joined(path_joined(h@, ".config"@), "systemd"@), "user"@),
                "sailor-hook.service"@,
            ),
        ),
        None => Err(DirError::NoHome),
    }
}

/// The file of the unit.
pub fn unit_path(home: Option<&str>) -> (r: Result<String, DirError>)
    ensures
        dir_view(r) == unit_at(home),
{
    match home {
        Some(h) => {
            let config = join_path(h, ".config");
            let systemd = join_path(config.as_str(), "systemd");
            let user = join_path(systemd.as_str(), "user");
            Ok(join_path(user.as_str(), UNIT_NAME))
        },
        None => Err(DirError::NoHome),
    }
}

/// A text with each `c` twice.
pub open spec fn doubled(s: Seq<char>, c: char) -> Seq<char>
    decreases s.len(),
{
    if s.len() == 0 {
        Seq::empty()
    } else {
        let rest = doubled(s.drop_last(), c).push(s.last());
        if s.last() == c {
            rest.push(c)
        } else {
            rest
        }
    }
}

fn double(s: &str, c: char) -> (r: String)
    ensures
        r@ == doubled(s@, c),
{
    let mut out = String::new();
    assert(s@.take(0) =~= Seq::empty());
    for x in it: s.chars()
        invariant
            it.seq() == s@,
            out@ == doubled(s@.take(it.index() as int), c),
    {
        proof {
            let i = it.index() as int;
            assert(s@.take(i + 1).drop_last() =~= s@.take(i));
            assert(s@.take(i + 1).last() == x);
        }
        out.push(x);
        if x == c {
            out.push(c);
        }
    }
    assert(s@.take(s@.len() as int) =~= s@);
    out
}

/// What the unit says. A `%` in the program's path is doubled, as systemd asks.
pub open spec fn unit_text(exe: Seq<char>) -> Seq<char> {
    "# Managed by `sailor-hook service install`; `service uninstall` removes it.\n[Unit]\nDescription=sailor-hook — AI agent events to the sailor app\nAfter=network-online.target\nWants=network-online.target\n\n[Service]\nExecStart="@
        + doubled(exe, '%')
        + " serve\nRestart=on-failure\nRestartSec=3\n\n[Install]\nWantedBy=default.target\n"@
}

/// What the unit says.
pub fn unit_contents(exe: &str) -> (r: String)
    ensures
        r@ == unit_text(exe@),
{
    text::concat3(
        "# Managed by `sailor-hook service install`; `service uninstall` removes it.\n[Unit]\nDescription=sailor-hook — AI agent events to the sailor app\nAfter=network-online.target\nWants=network-online.target\n\n[Service]\nExecStart=",
        double(exe, '%').as_str(),
        " serve\nRestart=on-failure\nRestartSec=3\n\n[Install]\nWantedBy=default.target\n",
    )
}

// ---------------------------------------------------------------------------
// What is done
// ---------------------------------------------------------------------------

/// One step.
#[derive(Debug, PartialEq)]
pub enum Step {
    /// Writes the unit's file.
    WriteUnit { text: String },
    /// Removes the unit's file where it is there.
    RemoveUnit,
    /// Runs `systemctl --user` with these arguments. That it cannot be run ends
    /// everything only where `needed` says so.
    Systemctl { args: Vec<String>, needed: bool },
    /// Prints a line.
    Say { line: String },
}

/// A step as the contracts speak of it.
pub enum StepView {
    WriteUnit { text: Seq<char> },
    RemoveUnit,
    Systemctl { args: Seq<Seq<char>>, needed: bool },
    Say { line: Seq<char> },
}

impl View for Step {
    type V = StepView;

    open spec fn view(&self) -> StepView {
        match *self {
            Step::WriteUnit { text } => StepView::WriteUnit { text: text@ },
            Step::RemoveUnit => StepView::RemoveUnit,
            Step::Systemctl { args, needed } => StepView::Systemctl { args: texts(args@), needed },
            Step::Say { line } => StepView::Say { line: line@ },
        }
    }
}

/// The views of a list of steps.
pub open spec fn step_views(v: Seq<Step>) -> Seq<StepView> {
    Seq::new(v.len(), |i: int| v[i]@)
}

/// The steps for each verb.
pub open spec fn steps(verb: Verb, exe: Seq<char>, path: Seq<char>) -> Seq<StepView> {
    let unit = "sailor-hook.service"@;
    match verb {
        Verb::Install => seq![
            StepView::WriteUnit { text: unit_text(exe) },
            StepView::Say { line: "wrote "@ + path },
            StepView::Systemctl { args: seq!["--user"@, "daemon-reload"@], needed: true },
            StepView::Systemctl {
                args: seq!["--user"@, "enable"@, "--now"@, unit],
                needed: true,
            },
            StepView::Say {
                line: "sailor-hook service installed and started (`sailor-hook service status` to check)."@,
            },
        ],
        Verb::Uninstall => seq![
            StepView::Systemctl {
                args: seq!["--user"@, "disable"@, "--now"@, unit],
                needed: false,
            },
            StepView::RemoveUnit,
            StepView::Systemctl { args: seq!["--user"@, "daemon-reload"@], needed: false },
            StepView::Say { line: "sailor-hook service removed."@ },
        ],
        Verb::Status => seq![
            StepView::Systemctl {
                args: seq!["--user"@, "status"@, unit, "--no-pager"@],
                needed: true,
            },
        ],
    }
}

fn systemctl2(a: &str, needed: bool) -> (r: Step)
    ensures
        r@ == (StepView::Systemctl { args: seq!["--user"@, a@], needed }),
{
    let args = vec![text::owned("--user"), text::owned(a)];
    assert(texts(args@) =~= seq!["--user"@, a@]);
    Step::Systemctl { args, needed }
}

fn systemctl4(a: &str, b: &str, c: &str, needed: bool) -> (r: Step)
    ensures
        r@ == (StepView::Systemctl { args: seq!["--user"@, a@, b@, c@], needed }),
{
    let args = vec![text::owned("--user"), text::owned(a), text::owned(b), text::owned(c)];
    assert(texts(args@) =~= seq!["--user"@, a@, b@, c@]);
    Step::Systemctl { args, needed }
}

/// The steps for a verb. `path` is the unit's file and `exe` this program's.
pub fn run(verb: Verb, exe: &str, path: &str) -> (r: Vec<Step>)
    ensures
        step_views(r@) == steps(verb, exe@, path@),
{
    let list = match verb {
        Verb::Install => vec![
            Step::WriteUnit { text: unit_contents(exe) },
            Step::Say { line: text::concat2("wrote ", path) },
            systemctl2("daemon-reload", true),
            systemctl4("enable", "--now", UNIT_NAME, true),
            Step::Say {
                line: text::owned(
                    "sailor-hook service installed and started (`sailor-hook service status` to check).",
                ),
            },
        ],
        Verb::Uninstall => vec![
            systemctl4("disable", "--now", UNIT_NAME, false),
            Step::RemoveUnit,
            systemctl2("daemon-reload", false),
            Step::Say { line: text::owned("sailor-hook service removed.") },
        ],
        Verb::Status => vec![systemctl4("status", UNIT_NAME, "--no-pager", true)],
    };
    assert(step_views(list@) =~= steps(verb, exe@, path@));
    list
}

/// The unit is disabled before its file is removed: systemd reads the file to
/// disable it.
pub proof fn law_disabled_before_removed(verb: Verb, exe: Seq<char>, path: Seq<char>, i: int)
    requires
        0 <= i < steps(verb, exe, path).len(),
        steps(verb, exe, path)[i] is RemoveUnit,
    ensures
        exists|j: int|
            0 <= j < i && #[trigger] steps(verb, exe, path)[j] == (StepView::Systemctl {
                args: seq!["--user"@, "disable"@, "--now"@, "sailor-hook.service"@],
                needed: false,
            }),
{
    let s = steps(verb, exe, path);
    assert(s[0] is Systemctl || s[0] is WriteUnit);
    if verb == Verb::Install {
        assert(!(s[0] is RemoveUnit) && !(s[1] is RemoveUnit) && !(s[2] is RemoveUnit));
        assert(!(s[3] is RemoveUnit) && !(s[4] is RemoveUnit));
    }
    assert(s[0] == s[0]);
}

} // verus!
