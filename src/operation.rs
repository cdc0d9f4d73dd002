//! The install / remove workflow as a state machine: the caller performs
//! each returned action (load details, run the command, show a conflict)
//! and feeds what happened back as the next event.
use vstd::prelude::*;
use crate::conflict::{classify, classify_spec, ConflictReport, ReportView};
use crate::meta_search::{distro_flag, DistroType};
use crate::process::{is_auth_failure, is_auth_failure_code, Invocation, InvocationView};
use crate::records::PackageDetail;
use crate::text::{
    append_chars, chars_of, contains, contains_chars, copy_string, lit, lower_chars, lower_of,
    string_of, string_views,
};

verus! {

#[derive(Debug, Clone, Copy, PartialEq, Eq, Structural)]
pub enum OperationKind {
    Install,
    Remove,
}

/// The tool that carries out the operation.
#[derive(Debug, Clone, Copy, PartialEq, Eq, Structural)]
pub enum Backend {
    System,
    Flatpak,
    Meta(DistroType),
}

#[derive(Debug, Clone, Copy, PartialEq, Eq, Structural)]
pub enum Phase {
    Loading,
    Confirming,
    Executing,
    StreamingOutput,
    Complete,
    ConflictDetected,
    Failed,
}

pub open spec fn is_running(p: Phase) -> bool {
    p == Phase::Executing || p == Phase::StreamingOutput
}

/// What the caller is to do next.
#[derive(Debug)]
pub enum OperationAction {
    Nothing,
    /// Fetch the display details of these packages.
    LoadDetails(Vec<String>),
    /// Invalidate the installed-package cache, then run this command and
    /// stream its output.
    InvalidateCacheAndRun(Invocation),
    /// Hand the conflict to the conflict presentation.
    PresentConflict { packages: Vec<String>, summary: String, output: String },
    /// Close the operation's window.
    Close,
}

/// One install or remove workflow.
#[derive(Debug)]
pub struct OperationState {
    pub phase: Phase,
    pub kind: OperationKind,
    pub backend: Backend,
    pub target_packages: Vec<String>,
    pub is_privileged_target: bool,
    pub accumulated_output: String,
    pub conflict: Option<ConflictReport>,
    pub status: String,
    pub failure: Option<String>,
    pub exit_code: Option<i32>,
    pub details: Vec<PackageDetail>,
}

/// A Flatpak application id is well formed when it holds a `.`.
pub open spec fn is_valid_flatpak_id_spec(id: Seq<char>) -> bool {
    contains(id, seq!['.'])
}

pub fn is_valid_flatpak_id(id: &str) -> (r: bool)
    ensures
        r == is_valid_flatpak_id_spec(id@),
{
    let dot: Vec<char> = vec!['.'];
    assert(dot@ =~= seq!['.']);
    contains_chars(&chars_of(id), &dot)
}

/// The first target that is not a well-formed Flatpak application id.
pub open spec fn first_invalid_id(ts: Seq<Seq<char>>) -> Option<Seq<char>>
    decreases ts.len(),
{
    if ts.len() == 0 {
        None
    } else if !is_valid_flatpak_id_spec(ts[0]) {
        Some(ts[0])
    } else {
        first_invalid_id(ts.drop_first())
    }
}

/// The target that makes the tool refuse the request, if any: Flatpak takes
/// only well-formed application ids.
pub open spec fn refused_target(backend: Backend, ts: Seq<Seq<char>>) -> Option<Seq<char>> {
    if backend == Backend::Flatpak {
        first_invalid_id(ts)
    } else {
        None
    }
}

pub open spec fn invalid_id_message(id: Seq<char>) -> Seq<char> {
    "Invalid Flatpak application ID: '"@ + id
        + "'. Application IDs must be in the format 'org.example.App' (containing at least one period)."@
}

fn refused_target_exec(backend: Backend, ts: &Vec<String>) -> (r: Option<String>)
    ensures
        match r {
            Some(id) => refused_target(backend, string_views(ts@)) == Some(id@),
            None => refused_target(backend, string_views(ts@)) is None,
        },
{
    if backend != Backend::Flatpak {
        return None;
    }
    let ghost all = string_views(ts@);
    let mut i: usize = 0;
    assert(all.subrange(0, all.len() as int) =~= all);
    while i < ts.len()
        invariant
            i <= ts.len(),
            all == string_views(ts@),
            backend == Backend::Flatpak,
            first_invalid_id(all) == first_invalid_id(all.subrange(i as int, all.len() as int)),
        decreases ts.len() - i,
    {
        let ghost rest = all.subrange(i as int, all.len() as int);
        assert(rest[0] == ts@[i as int]@);
        assert(rest.drop_first() =~= all.subrange(i + 1, all.len() as int));
        if !is_valid_flatpak_id(ts[i].as_str()) {
            assert(first_invalid_id(rest) == Some(rest[0]));
            return Some(copy_string(&ts[i]));
        }
        i += 1;
    }
    None
}

fn invalid_id_message_exec(id: &String) -> (r: String)
    ensures
        r@ == invalid_id_message(id@),
{
    let mut m = chars_of("Invalid Flatpak application ID: '");
    append_chars(&mut m, &chars_of(id.as_str()));
    append_chars(
        &mut m,
        &chars_of(
            "'. Application IDs must be in the format 'org.example.App' (containing at least one period).",
        ),
    );
    string_of(&m)
}

/// The command that carries out `kind` on `targets` with `backend`.
pub open spec fn operation_command(kind: OperationKind, backend: Backend, targets: Seq<Seq<char>>) -> InvocationView {
    match (kind, backend) {
        (OperationKind::Remove, Backend::System) => InvocationView {
            program: "apt-get"@,
            args: seq!["remove"@, "-y"@] + targets,
            elevate: true,
        },
        (OperationKind::Remove, Backend::Flatpak) => InvocationView {
            program: "flatpak"@,
            args: seq!["uninstall"@, "--noninteractive"@, "-y"@] + targets,
            elevate: false,
        },
        (OperationKind::Remove, Backend::Meta(_)) => InvocationView {
            program: "pikman"@,
            args: seq!["remove"@] + targets,
            elevate: true,
        },
        (OperationKind::Install, Backend::System) => InvocationView {
            program: "apt"@,
            args: seq!["install"@, "-y"@] + targets,
            elevate: true,
        },
        (OperationKind::Install, Backend::Flatpak) => InvocationView {
            program: "flatpak"@,
            args: seq!["install"@, "-y"@] + targets,
            elevate: false,
        },
        (OperationKind::Install, Backend::Meta(d)) => InvocationView {
            program: "pikman"@,
            args: seq!["install"@, "-y"@] + match distro_flag(d) {
                Some(f) => seq![f],
                None => seq![],
            } + targets,
            elevate: true,
        },
    }
}

pub(crate) fn push_all(out: &mut Vec<String>, ts: &Vec<String>)
    ensures
        string_views(final(out)@) == string_views(old(out)@) + string_views(ts@),
{
    let mut i: usize = 0;
    while i < ts.len()
        invariant
            i <= ts.len(),
            string_views(out@) == string_views(old(out)@) + string_views(ts@).subrange(0, i as int),
        decreases ts.len() - i,
    {
        let ghost before = string_views(out@);
        out.push(copy_string(&ts[i]));
        assert(string_views(out@) =~= before.push(ts@[i as int]@));
        i += 1;
        assert(string_views(out@) =~= string_views(old(out)@) + string_views(ts@).subrange(0, i as int));
    }
    assert(string_views(ts@).subrange(0, i as int) =~= string_views(ts@));
}

pub fn command_for(kind: OperationKind, backend: Backend, targets: &Vec<String>) -> (r: Invocation)
    ensures
        r@ == operation_command(kind, backend, string_views(targets@)),
{
    let mut args: Vec<String> = Vec::new();
    let program;
    let elevate;
    match (kind, backend) {
        (OperationKind::Remove, Backend::System) => {
            program = lit("apt-get");
            args.push(lit("remove"));
            args.push(lit("-y"));
            elevate = true;
        },
        (OperationKind::Remove, Backend::Flatpak) => {
            program = lit("flatpak");
            args.push(lit("uninstall"));
            args.push(lit("--noninteractive"));
            args.push(lit("-y"));
            elevate = false;
        },
        (OperationKind::Remove, Backend::Meta(_)) => {
            program = lit("pikman");
            args.push(lit("remove"));
            elevate = true;
        },
        (OperationKind::Install, Backend::System) => {
            program = lit("apt");
            args.push(lit("install"));
            args.push(lit("-y"));
            elevate = true;
        },
        (OperationKind::Install, Backend::Flatpak) => {
            program = lit("flatpak");
            args.push(lit("install"));
            args.push(lit("-y"));
            elevate = false;
        },
        (OperationKind::Install, Backend::Meta(d)) => {
            program = lit("pikman");
            args.push(lit("install"));
            args.push(lit("-y"));
            match d.to_pikman_flag() {
                Some(f) => {
                    args.push(lit(f));
                },
                None => {},
            }
            elevate = true;
        },
    }
    push_all(&mut args, targets);
    let r = Invocation { program, args, elevate };
    assert(r@.args =~= operation_command(kind, backend, string_views(targets@)).args);
    r
}

// ---------------------------------------------------------------------------
// Transitions.
pub open spec fn report_view(c: Option<ConflictReport>) -> Option<ReportView> {
    match c {
        Some(r) => Some(r@),
        None => None,
    }
}

/// The short status that a streamed line sets.
pub open spec fn progress_status(line: Seq<char>, old_status: Seq<char>) -> Seq<char> {
    status_from(lower_of(line), old_status)
}

/// Whether a lower-cased line `ll` reports completion.
pub open spec fn is_completion_line(ll: Seq<char>) -> bool {
    contains(ll, "complete"@) || contains(ll, "done"@) || contains(ll, "success"@) || contains(
        ll,
        "finished"@,
    ) || contains(ll, "0 upgraded, 0 newly installed"@)
}

/// The status that a line whose lower-cased form is `ll` sets.
pub open spec fn status_from(ll: Seq<char>, old_status: Seq<char>) -> Seq<char> {
    if contains(ll, "removing"@) || contains(ll, "purging"@) {
        "Removing packages..."@
    } else if contains(ll, "reading"@) {
        "Reading package lists..."@
    } else if contains(ll, "building"@) {
        "Building dependency tree..."@
    } else if is_completion_line(ll) {
        "Complete!"@
    } else {
        old_status
    }
}

/// Phases in which command output is taken: while the command runs, and
/// after a line has reported completion.
pub open spec fn takes_output(p: Phase) -> bool {
    is_running(p) || p == Phase::Complete
}

pub open spec fn auth_failure_message() -> Seq<char> {
    "Authentication cancelled or failed. Please try again."@
}

/// `b` is `a` in another phase: the same job and the same output so far.
pub open spec fn same_job(a: OperationState, b: OperationState) -> bool {
    &&& a.kind == b.kind
    &&& a.backend == b.backend
    &&& string_views(a.target_packages@) == string_views(b.target_packages@)
    &&& a.is_privileged_target == b.is_privileged_target
}

/// `b` keeps `a`'s output, conflict, failure, exit code and details.
pub open spec fn same_record(a: OperationState, b: OperationState) -> bool {
    &&& a.accumulated_output@ == b.accumulated_output@
    &&& report_view(a.conflict) == report_view(b.conflict)
    &&& a.failure == b.failure
    &&& a.exit_code == b.exit_code
    &&& a.details@ == b.details@
}

fn copy_strings(ts: &Vec<String>) -> (r: Vec<String>)
    ensures
        string_views(r@) == string_views(ts@),
{
    let mut r: Vec<String> = Vec::new();
    push_all(&mut r, ts);
    assert(string_views(r@) =~= string_views(ts@));
    r
}

fn copy_report(r: &ConflictReport) -> (c: ConflictReport)
    ensures
        c@ == r@,
{
    ConflictReport {
        category: r.category,
        summary: copy_string(&r.summary),
        details: copy_string(&r.details),
    }
}

pub fn is_completion_lowered(ll: &Vec<char>) -> (r: bool)
    ensures
        r == is_completion_line(ll@),
{
    contains_chars(ll, &chars_of("complete")) || contains_chars(ll, &chars_of("done"))
        || contains_chars(ll, &chars_of("success")) || contains_chars(ll, &chars_of("finished"))
        || contains_chars(ll, &chars_of("0 upgraded, 0 newly installed"))
}

/// The status that a line whose lower-cased form is `ll` sets.
pub fn status_for_lowered(ll: &Vec<char>, old_status: &String) -> (r: String)
    ensures
        r@ == status_from(ll@, old_status@),
{
    if contains_chars(ll, &chars_of("removing")) || contains_chars(ll, &chars_of("purging")) {
        lit("Removing packages...")
    } else if contains_chars(ll, &chars_of("reading")) {
        lit("Reading package lists...")
    } else if contains_chars(ll, &chars_of("building")) {
        lit("Building dependency tree...")
    } else if is_completion_lowered(ll) {
        lit("Complete!")
    } else {
        copy_string(old_status)
    }
}

impl OperationState {
    /// Starts a workflow: details of the targets are loaded first. A Flatpak
    /// request holding a malformed application id is refused at once, with
    /// a failure that names the id, and nothing runs.
    pub fn new(kind: OperationKind, backend: Backend, target_packages: Vec<String>) -> (r: (
        OperationState,
        OperationAction,
    ))
        ensures
            r.0.kind == kind,
            r.0.backend == backend,
            string_views(r.0.target_packages@) == string_views(target_packages@),
            r.0.is_privileged_target == (backend != Backend::Flatpak),
            r.0.accumulated_output@ == Seq::<char>::empty(),
            r.0.conflict is None,
            r.0.exit_code is None,
            r.0.details@.len() == 0,
            refused_target(backend, string_views(target_packages@)) matches Some(id) ==> {
                &&& r.0.phase == Phase::Failed
                &&& (r.0.failure matches Some(f) && f@ == invalid_id_message(id))
                &&& r.1 is Nothing
            },
            refused_target(backend, string_views(target_packages@)) is None ==> {
                &&& r.0.phase == Phase::Loading
                &&& r.0.failure is None
                &&& (r.1 matches OperationAction::LoadDetails(ns) && string_views(ns@)
                    == string_views(target_packages@))
            },
    {
        let refused = refused_target_exec(backend, &target_packages);
        let load = copy_strings(&target_packages);
        let mut st = OperationState {
            phase: Phase::Loading,
            kind,
            backend,
            target_packages,
            is_privileged_target: backend != Backend::Flatpak,
            accumulated_output: String::new(),
            conflict: None,
            status: lit("Loading package information..."),
            failure: None,
            exit_code: None,
            details: Vec::new(),
        };
        match refused {
            Some(id) => {
                st.phase = Phase::Failed;
                st.failure = Some(invalid_id_message_exec(&id));
                (st, OperationAction::Nothing)
            },
            None => (st, OperationAction::LoadDetails(load)),
        }
    }

    /// The details that could be loaded arrive; packages whose details
    /// failed are only left out of the display. No details at all fails
    /// the operation.
    pub fn on_details_loaded(&mut self, details: Vec<PackageDetail>) -> (a: OperationAction)
        ensures
            a is Nothing,
            same_job(*old(self), *final(self)),
            old(self).phase == Phase::Loading && details.len() == 0 ==> {
                &&& final(self).phase == Phase::Failed
                &&& (final(self).failure matches Some(f) && f@
                    == "Failed to load information for any packages"@)
                &&& final(self).status == old(self).status
                &&& final(self).accumulated_output@ == old(self).accumulated_output@
                &&& report_view(final(self).conflict) == report_view(old(self).conflict)
                &&& final(self).exit_code == old(self).exit_code
                &&& final(self).details@ == old(self).details@
            },
            old(self).phase == Phase::Loading && details.len() > 0 ==> {
                &&& final(self).phase == Phase::Confirming
                &&& final(self).details@ == details@
                &&& final(self).status@ == "Waiting for confirmation"@
                &&& final(self).accumulated_output@ == old(self).accumulated_output@
                &&& report_view(final(self).conflict) == report_view(old(self).conflict)
                &&& final(self).failure == old(self).failure
                &&& final(self).exit_code == old(self).exit_code
            },
            old(self).phase != Phase::Loading ==> *final(self) == *old(self),
    {
        if self.phase == Phase::Loading {
            if details.len() == 0 {
                self.phase = Phase::Failed;
                self.failure = Some(lit("Failed to load information for any packages"));
            } else {
                self.phase = Phase::Confirming;
                self.details = details;
                self.status = lit("Waiting for confirmation");
            }
        }
        OperationAction::Nothing
    }

    /// The user confirms: the cache is invalidated at once, before the
    /// outcome is known, and the command starts.
    pub fn on_confirm(&mut self) -> (a: OperationAction)
        ensures
            same_job(*old(self), *final(self)),
            old(self).phase == Phase::Confirming ==> same_record(*old(self), *final(self))
                && final(self).status@ == "Preparing..."@,
            old(self).phase == Phase::Confirming ==> final(self).phase == Phase::Executing && (
            a matches OperationAction::InvalidateCacheAndRun(inv) && inv@ == operation_command(
                old(self).kind,
                old(self).backend,
                string_views(old(self).target_packages@),
            )),
            old(self).phase != Phase::Confirming ==> *final(self) == *old(self) && a is Nothing,
    {
        if self.phase != Phase::Confirming {
            return OperationAction::Nothing;
        }
        self.phase = Phase::Executing;
        self.status = lit("Preparing...");
        OperationAction::InvalidateCacheAndRun(command_for(self.kind, self.backend, &self.target_packages))
    }

    /// A line of the command's output arrives: it is appended, the whole
    /// output is classified again, and the status follows the line. A line
    /// that reports completion ("complete", "done", "success", "finished",
    /// or apt's "0 upgraded, 0 newly installed") completes the operation,
    /// unless the output shows a conflict, which keeps it streaming; later
    /// lines are still taken in, and the exit code has the last word.
    pub fn on_output_line(&mut self, line: &str) -> (a: OperationAction)
        ensures
            a is Nothing,
            same_job(*old(self), *final(self)),
            takes_output(old(self).phase) ==> {
                &&& final(self).phase == if classify_spec(final(self).accumulated_output@) is None
                    && (old(self).phase == Phase::Complete || is_completion_line(lower_of(line@))) {
                    Phase::Complete
                } else {
                    Phase::StreamingOutput
                }
                &&& final(self).failure == old(self).failure
                &&& final(self).exit_code == old(self).exit_code
                &&& final(self).details@ == old(self).details@
                &&& final(self).accumulated_output@ == old(self).accumulated_output@ + line@
                    + seq!['\n']
                &&& report_view(final(self).conflict) == classify_spec(
                    final(self).accumulated_output@,
                )
                &&& final(self).status@ == progress_status(line@, old(self).status@)
            },
            !takes_output(old(self).phase) ==> *final(self) == *old(self),
    {
        if !(self.phase == Phase::Executing || self.phase == Phase::StreamingOutput || self.phase
            == Phase::Complete) {
            return OperationAction::Nothing;
        }
        let l = chars_of(line);
        let ll = lower_chars(&l);
        let mut acc = chars_of(self.accumulated_output.as_str());
        append_chars(&mut acc, &l);
        acc.push('\n');
        self.accumulated_output = string_of(&acc);
        self.conflict = classify(self.accumulated_output.as_str());
        self.phase = if self.conflict.is_none() && (self.phase == Phase::Complete
            || is_completion_lowered(&ll)) {
            Phase::Complete
        } else {
            Phase::StreamingOutput
        };
        self.status = status_for_lowered(&ll, &self.status);
        OperationAction::Nothing
    }

    /// The command ended; its exit code decides, also after a line reported
    /// completion. Under elevation, exit codes 126 and 127 mean
    /// authentication was cancelled or failed, whatever the output holds.
    /// Otherwise success completes, and any other failure is a conflict when
    /// the output shows one, else an ordinary failure with the error text
    /// verbatim.
    pub fn on_exit(&mut self, code: Option<i32>, stderr: &str) -> (a: OperationAction)
        ensures
            same_job(*old(self), *final(self)),
            final(self).accumulated_output@ == old(self).accumulated_output@,
            takes_output(old(self).phase) && old(self).is_privileged_target && is_auth_failure_code(
                code,
            ) ==> {
                &&& final(self).phase == Phase::Failed
                &&& (final(self).failure matches Some(f) && f@ == auth_failure_message())
                &&& final(self).conflict is None
                &&& final(self).exit_code == code
                &&& a is Nothing
            },
            takes_output(old(self).phase) && !(old(self).is_privileged_target && is_auth_failure_code(
                code,
            )) && code == Some(0i32) ==> {
                &&& final(self).phase == Phase::Complete
                &&& final(self).conflict is None
                &&& final(self).failure is None
                &&& final(self).exit_code == code
                &&& a is Nothing
            },
            takes_output(old(self).phase) && !(old(self).is_privileged_target
                && is_auth_failure_code(code)) && code != Some(0i32) ==> {
                let c = if old(self).conflict is Some {
                    report_view(old(self).conflict)
                } else {
                    classify_spec(old(self).accumulated_output@)
                };
                &&& final(self).exit_code == code
                &&& c is Some ==> final(self).phase == Phase::ConflictDetected && report_view(
                    final(self).conflict,
                ) == c && (a matches OperationAction::PresentConflict { packages, summary, output }
                    && string_views(packages@) == string_views(old(self).target_packages@)
                    && summary@ == c->0.summary && output@ == old(self).accumulated_output@)
                &&& c is None ==> final(self).phase == Phase::Failed && (
                final(self).failure matches Some(f) && f@ == stderr@) && a is Nothing
            },
            !takes_output(old(self).phase) ==> *final(self) == *old(self) && a is Nothing,
    {
        if !(self.phase == Phase::Executing || self.phase == Phase::StreamingOutput || self.phase
            == Phase::Complete) {
            return OperationAction::Nothing;
        }
        self.exit_code = code;
        if self.is_privileged_target && is_auth_failure(code) {
            self.phase = Phase::Failed;
            self.failure = Some(lit("Authentication cancelled or failed. Please try again."));
            self.conflict = None;
            return OperationAction::Nothing;
        }
        if code == Some(0i32) {
            self.phase = Phase::Complete;
            self.conflict = None;
            self.failure = None;
            self.status = lit("Completed successfully!");
            return OperationAction::Nothing;
        }
        let found = match &self.conflict {
            Some(r) => Some(copy_report(r)),
            None => classify(self.accumulated_output.as_str()),
        };
        match found {
            Some(r) => {
                let summary = copy_string(&r.summary);
                self.phase = Phase::ConflictDetected;
                self.conflict = Some(r);
                OperationAction::PresentConflict {
                    packages: copy_strings(&self.target_packages),
                    summary,
                    output: copy_string(&self.accumulated_output),
                }
            },
            None => {
                self.phase = Phase::Failed;
                self.failure = Some(lit(stderr));
                OperationAction::Nothing
            },
        }
    }

    /// The command could not be started at all.
    pub fn on_launch_failed(&mut self, reason: &str) -> (a: OperationAction)
        ensures
            a is Nothing,
            same_job(*old(self), *final(self)),
            is_running(old(self).phase) ==> final(self).phase == Phase::Failed && (
            final(self).failure matches Some(f) && f@ == "Failed to launch the command: "@
                + reason@),
            !is_running(old(self).phase) ==> *final(self) == *old(self),
    {
        if !(self.phase == Phase::Executing || self.phase == Phase::StreamingOutput) {
            return OperationAction::Nothing;
        }
        let mut m = chars_of("Failed to launch the command: ");
        append_chars(&mut m, &chars_of(reason));
        self.phase = Phase::Failed;
        self.failure = Some(string_of(&m));
        OperationAction::Nothing
    }

    /// The window is dismissed: it closes. A running command is not
    /// stopped.
    pub fn on_cancel(&self) -> (a: OperationAction)
        ensures
            a is Close,
    {
        OperationAction::Close
    }
}

} // verus!
