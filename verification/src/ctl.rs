//! The command-line control client: which request its arguments ask for,
//! and the lines it prints for each answer.

use vstd::prelude::*;

use crate::dto::{Request, Response, Status};
use crate::order::texts;
use crate::text::str_eq;

verus! {

/// What the command line asks for.
#[derive(Debug, Clone, PartialEq, Eq)]
pub enum CtlAction {
    /// Send a request to the daemon.
    Send(Request),
    /// `toggle` cannot be done without the current state: print a tip.
    ToggleTip,
    /// Unknown arguments: print the usage.
    Usage,
}

/// Lines for standard output and standard error, in order.
#[derive(Debug, Clone, PartialEq, Eq)]
pub struct Printed {
    pub out: Vec<String>,
    pub err: Vec<String>,
}

/// Whether the arguments are `<word>` alone.
pub open spec fn is_word(args: Seq<Seq<char>>, word: Seq<char>) -> bool {
    args.len() == 1 && args[0] == word
}

/// Whether the arguments are `profile <name>`.
pub open spec fn is_profile_switch(args: Seq<Seq<char>>) -> bool {
    args.len() == 2 && args[0] == "profile"@
}

/// Reads the command line (without the program name): `profile <name>`,
/// `status`, `profiles`, or `toggle`; anything else asks for the usage.
pub fn ctl_action(args: &Vec<String>) -> (a: CtlAction)
    ensures
        is_profile_switch(texts(args@)) ==> (a matches CtlAction::Send(Request::SetProfile { name })
            && name@ == args@[1]@),
        is_word(texts(args@), "status"@) ==> a == CtlAction::Send(Request::GetStatus),
        is_word(texts(args@), "profiles"@) ==> a == CtlAction::Send(Request::ListProfiles),
        is_word(texts(args@), "toggle"@) ==> a == CtlAction::ToggleTip,
        !is_profile_switch(texts(args@)) && !is_word(texts(args@), "status"@) && !is_word(texts(args@), "profiles"@)
            && !is_word(texts(args@), "toggle"@) ==> a == CtlAction::Usage,
{
    proof {
        reveal_strlit("profile");
        reveal_strlit("status");
        reveal_strlit("profiles");
        reveal_strlit("toggle");
        assert("status"@ != "profiles"@) by {
            assert("status"@.len() != "profiles"@.len());
        }
        assert("status"@ != "toggle"@) by {
            assert("status"@[0] != "toggle"@[0]);
        }
        assert("profiles"@ != "toggle"@) by {
            assert("profiles"@.len() != "toggle"@.len());
        }
    }
    if args.len() == 2 && str_eq(args[0].as_str(), "profile") {
        return CtlAction::Send(Request::SetProfile { name: args[1].clone() });
    }
    if args.len() == 1 {
        if str_eq(args[0].as_str(), "status") {
            return CtlAction::Send(Request::GetStatus);
        }
        if str_eq(args[0].as_str(), "profiles") {
            return CtlAction::Send(Request::ListProfiles);
        }
        if str_eq(args[0].as_str(), "toggle") {
            return CtlAction::ToggleTip;
        }
    }
    CtlAction::Usage
}

/// `yes` or `no`.
pub open spec fn yes_no(b: bool) -> Seq<char> {
    if b {
        "yes"@
    } else {
        "no"@
    }
}

/// The lines describing a status.
pub open spec fn status_lines(s: Status) -> Seq<Seq<char>> {
    seq![
        "device:  "@ + if s.device_present {
            "present"@
        } else {
            "absent"@
        },
        "active:  "@ + yes_no(s.enabled),
        "profile: "@ + match s.profile {
            Some(p) => p@,
            None => "none"@,
        },
        "calibrated: "@ + yes_no(s.calibrated),
    ] + match s.error {
        Some(e) => seq!["error:   "@ + e@],
        None => Seq::empty(),
    }
}

fn line(prefix: &str, value: &str) -> (s: String)
    ensures
        s@ == prefix@ + value@,
{
    let mut s = String::from_str(prefix);
    s.append(value);
    s
}

fn yes_no_str(b: bool) -> (s: &'static str)
    ensures
        s@ == yes_no(b),
{
    if b {
        "yes"
    } else {
        "no"
    }
}

/// What is printed for a response: `ok` for success, the status lines,
/// one profile name per line, or the error on standard error.
pub fn response_lines(response: Response) -> (p: Printed)
    ensures
        match response {
            Response::Status(s) => texts(p.out@) == status_lines(s) && p.err@.len() == 0,
            Response::Profiles { names } => texts(p.out@) == texts(names@) && p.err@.len() == 0,
            Response::Error { message } => p.out@.len() == 0 && texts(p.err@) == seq!["error: "@ + message@],
            _ => texts(p.out@) == seq!["ok"@] && p.err@.len() == 0,
        },
{
    match response {
        Response::Status(status) => {
            let mut out: Vec<String> = Vec::new();
            out.push(line("device:  ", if status.device_present { "present" } else { "absent" }));
            out.push(line("active:  ", yes_no_str(status.enabled)));
            let profile = match &status.profile {
                Some(p) => p.as_str(),
                None => "none",
            };
            out.push(line("profile: ", profile));
            out.push(line("calibrated: ", yes_no_str(status.calibrated)));
            match &status.error {
                Some(e) => {
                    out.push(line("error:   ", e.as_str()));
                },
                None => {},
            }
            assert(texts(out@) =~= status_lines(status));
            Printed { out, err: Vec::new() }
        },
        Response::Profiles { names } => Printed { out: names, err: Vec::new() },
        Response::Error { message } => {
            let err = vec![line("error: ", message.as_str())];
            assert(texts(err@) =~= seq!["error: "@ + message@]);
            Printed { out: Vec::new(), err }
        },
        _ => {
            let out = vec![String::from_str("ok")];
            proof {
                reveal_strlit("ok");
            }
            assert(texts(out@) =~= seq!["ok"@]);
            Printed { out, err: Vec::new() }
        },
    }
}

/// The tip printed for `toggle`.
pub fn toggle_tip() -> (p: Printed)
    ensures
        texts(p.out@) == seq!["tip: toggle requires knowing the current state; use `status` then `profile <name>`"@],
        p.err@.len() == 0,
{
    let out = vec![String::from_str("tip: toggle requires knowing the current state; use `status` then `profile <name>`")];
    assert(texts(out@) =~= seq!["tip: toggle requires knowing the current state; use `status` then `profile <name>`"@]);
    Printed { out, err: Vec::new() }
}

/// The usage, on standard error.
pub fn usage() -> (p: Printed)
    ensures
        p.out@.len() == 0,
        texts(p.err@) == seq![
            "usage: trinity-ctl <command> [args]"@,
            ""@,
            "Commands:"@,
            "  status             Show daemon status"@,
            "  profiles           List available profiles"@,
            "  profile <name>     Switch to a profile"@,
        ],
{
    let err = vec![
        String::from_str("usage: trinity-ctl <command> [args]"),
        String::from_str(""),
        String::from_str("Commands:"),
        String::from_str("  status             Show daemon status"),
        String::from_str("  profiles           List available profiles"),
        String::from_str("  profile <name>     Switch to a profile"),
    ];
    assert(texts(err@) =~= seq![
        "usage: trinity-ctl <command> [args]"@,
        ""@,
        "Commands:"@,
        "  status             Show daemon status"@,
        "  profiles           List available profiles"@,
        "  profile <name>     Switch to a profile"@,
    ]);
    Printed { out: Vec::new(), err }
}

/// What is printed when the daemon could not be asked.
pub fn failure_lines(message: &str) -> (p: Printed)
    ensures
        p.out@.len() == 0,
        texts(p.err@) == seq!["error: "@ + message@, "hint: is trinity-daemon running?"@],
{
    let err = vec![line("error: ", message), String::from_str("hint: is trinity-daemon running?")];
    assert(texts(err@) =~= seq!["error: "@ + message@, "hint: is trinity-daemon running?"@]);
    Printed { out: Vec::new(), err }
}

} // verus!
