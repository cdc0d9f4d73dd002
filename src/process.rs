//! External commands as plain values: what to run, and how elevation wraps it.
use vstd::prelude::*;
use crate::text::{copy_string, lit, string_views};

verus! {

/// One external command: a program, its arguments, and whether it needs
/// elevated privileges.
#[derive(Debug, Clone)]
pub struct Invocation {
    pub program: String,
    pub args: Vec<String>,
    pub elevate: bool,
}

pub struct InvocationView {
    pub program: Seq<char>,
    pub args: Seq<Seq<char>>,
    pub elevate: bool,
}

impl View for Invocation {
    type V = InvocationView;

    open spec fn view(&self) -> InvocationView {
        InvocationView {
            program: self.program@,
            args: string_views(self.args@),
            elevate: self.elevate,
        }
    }
}

/// Exit codes that an elevation helper returns when authentication was
/// cancelled or failed.
pub open spec fn is_auth_failure_code(code: Option<i32>) -> bool {
    code == Some(126i32) || code == Some(127i32)
}

pub fn is_auth_failure(code: Option<i32>) -> (r: bool)
    ensures
        r == is_auth_failure_code(code),
{
    match code {
        Some(c) => c == 126 || c == 127,
        None => false,
    }
}

/// The helper that elevates a command: none when already privileged, the
/// graphical one when a display is present, the terminal one otherwise.
pub open spec fn helper_for(is_root: bool, has_display: bool) -> Option<Seq<char>> {
    if is_root {
        None
    } else if has_display {
        Some("pkexec"@)
    } else {
        Some("sudo"@)
    }
}

pub fn elevation_helper(is_root: bool, has_display: bool) -> (r: Option<String>)
    ensures
        match r {
            Some(h) => helper_for(is_root, has_display) == Some(h@),
            None => helper_for(is_root, has_display) is None,
        },
{
    if is_root {
        None
    } else if has_display {
        Some(lit("pkexec"))
    } else {
        Some(lit("sudo"))
    }
}

/// The environment variables that the graphical password prompt needs and
/// that are handed to the elevation helper explicitly.
pub fn forwarded_env_names() -> (r: Vec<String>)
    ensures
        string_views(r@) == seq!["DISPLAY"@, "XAUTHORITY"@, "WAYLAND_DISPLAY"@],
{
    let r = vec![lit("DISPLAY"), lit("XAUTHORITY"), lit("WAYLAND_DISPLAY")];
    assert(string_views(r@) =~= seq!["DISPLAY"@, "XAUTHORITY"@, "WAYLAND_DISPLAY"@]);
    r
}

/// The program and arguments that actually run: an elevated invocation
/// goes through `helper` (when there is one), with the program as its
/// first argument.
pub open spec fn command_line(inv: InvocationView, helper: Option<Seq<char>>) -> (Seq<char>, Seq<Seq<char>>) {
    match helper {
        Some(h) => if inv.elevate {
            (h, seq![inv.program] + inv.args)
        } else {
            (inv.program, inv.args)
        },
        None => (inv.program, inv.args),
    }
}

pub fn to_command_line(inv: &Invocation, helper: &Option<String>) -> (r: (String, Vec<String>))
    ensures
        (r.0@, string_views(r.1@)) == command_line(
            inv@,
            match helper {
                Some(h) => Some(h@),
                None => None,
            },
        ),
{
    let mut args: Vec<String> = Vec::new();
    let program = match helper {
        Some(h) => {
            if inv.elevate {
                args.push(copy_string(&inv.program));
                copy_string(h)
            } else {
                copy_string(&inv.program)
            }
        },
        None => copy_string(&inv.program),
    };
    let ghost start = string_views(args@);
    let mut i: usize = 0;
    while i < inv.args.len()
        invariant
            i <= inv.args.len(),
            string_views(args@) == start + string_views(inv.args@).subrange(0, i as int),
        decreases inv.args.len() - i,
    {
        let ghost before = string_views(args@);
        args.push(copy_string(&inv.args[i]));
        assert(string_views(args@) =~= before.push(inv.args@[i as int]@));
        i += 1;
        assert(string_views(args@) =~= start + string_views(inv.args@).subrange(0, i as int));
    }
    assert(string_views(inv.args@).subrange(0, i as int) =~= string_views(inv.args@));
    proof {
        match helper {
            Some(h) => {
                if inv.elevate {
                    assert(start =~= seq![inv.program@]);
                } else {
                    assert(start =~= seq![]);
                }
            },
            None => {
                assert(start =~= seq![]);
            },
        }
    }
    assert(string_views(args@) =~= command_line(
        inv@,
        match helper {
            Some(h) => Some(h@),
            None => None,
        },
    ).1);
    (program, args)
}

} // verus!
