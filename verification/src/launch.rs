//! The launcher's decisions: which runtime a launch takes, how the steps of a detached
//! tmux session follow each other, what tmux is asked to do, and what the user is told of
//! the process that ran.
use vstd::prelude::*;
use vstd::string::StrSliceExecFns;
use vstd::utf8::encode_utf8;
use crate::launch_args::string_views;
use crate::launch_env::{
    asks_tmux, env_lookup, forbids_tmux, running_inside_tmux, tmux_forced_off, tmux_opt_in,
    LaunchEnv,
};
use crate::text::{i32_decimal_chars, signed_decimal, str_eq, string_from_chars};

verus! {

/// What a launch printed and how it ended.
#[derive(Debug, Clone, PartialEq, Eq)]
pub struct LaunchExecution {
    pub stdout: Vec<u8>,
    pub stderr: Vec<u8>,
    pub exit_code: i32,
}

/// A launch that could not be carried out, with its message.
#[derive(Debug, Clone, PartialEq, Eq)]
pub struct LaunchError(String);

impl View for LaunchError {
    type V = Seq<char>;

    closed spec fn view(&self) -> Seq<char> {
        self.0@
    }
}

impl LaunchError {
    /// An error with the message `message`.
    pub fn new(message: &str) -> (e: LaunchError)
        ensures
            e@ == message@,
    {
        LaunchError(message.to_owned())
    }

    /// The message (what `Display` shows).
    pub fn message(&self) -> (s: &str)
        ensures
            s@ == self@,
    {
        self.0.as_str()
    }
}

/// Why a program could not be started.
#[derive(Debug, Clone, Copy, PartialEq, Eq, Structural)]
pub enum SpawnErrorKind {
    /// No executable of that name on `PATH`.
    Missing,
    /// The executable exists but may not be run here.
    Blocked,
    /// Any other failure to start it.
    Error,
}

/// What running a program gave back.
#[derive(Debug, Clone, PartialEq, Eq)]
pub struct ProcessOutcome {
    pub stdout: Vec<u8>,
    pub stderr: Vec<u8>,
    /// The exit status, where the program exited normally.
    pub status_code: Option<i32>,
    /// The signal that ended the program, where one did.
    pub terminating_signal: Option<i32>,
    /// Why the program could not be started, where it could not.
    pub spawn_error_kind: Option<SpawnErrorKind>,
}

// ---------------------------------------------------------------------------
// Reporting a finished process
// ---------------------------------------------------------------------------

/// The line that tells why `program` could not be started (without its newline).
pub open spec fn spawn_failure_message(kind: SpawnErrorKind, program: Seq<char>) -> Seq<char> {
    match kind {
        SpawnErrorKind::Missing => "[omx] failed to launch "@ + program
            + ": executable not found in PATH"@,
        SpawnErrorKind::Blocked => "[omx] failed to launch "@ + program
            + ": executable is present but blocked in the current environment"@,
        SpawnErrorKind::Error => "[omx] failed to launch "@ + program,
    }
}

/// The line that tells that `program` was ended by `signal`.
pub open spec fn signal_message(program: Seq<char>, signal: int) -> Seq<char> {
    "[omx] "@ + program + " exited due to signal "@ + signed_decimal(signal) + "\n"@
}

/// The message, as UTF-8 bytes.
fn utf8_bytes(s: &String) -> (b: Vec<u8>)
    ensures
        b@ == encode_utf8(s@),
{
    s.as_str().as_bytes_vec()
}

/// The launch's report of a finished `program`. Where it could not be started: nothing
/// on stdout, the reason and a newline on stderr, exit code 1. Otherwise its stdout,
/// its stderr followed by a line naming the signal that ended it (if one did), and its
/// exit status (1 where it has none).
pub fn finalize_process_result(result: ProcessOutcome, program_name: &str) -> (out:
    LaunchExecution)
    ensures
        match result.spawn_error_kind {
            Some(kind) => {
                &&& out.stdout@ == Seq::<u8>::empty()
                &&& out.stderr@ == encode_utf8(spawn_failure_message(kind, program_name@) + "\n"@)
                &&& out.exit_code == 1
            },
            None => {
                &&& out.stdout@ == result.stdout@
                &&& out.stderr@ == match result.terminating_signal {
                    Some(sig) => result.stderr@ + encode_utf8(
                        signal_message(program_name@, sig as int),
                    ),
                    None => result.stderr@,
                }
                &&& out.exit_code == match result.status_code {
                    Some(c) => c,
                    None => 1i32,
                }
            },
        },
{
    if let Some(kind) = result.spawn_error_kind {
        let mut message = String::new();
        message.append("[omx] failed to launch ");
        message.append(program_name);
        match kind {
            SpawnErrorKind::Missing => message.append(": executable not found in PATH"),
            SpawnErrorKind::Blocked => message.append(
                ": executable is present but blocked in the current environment",
            ),
            SpawnErrorKind::Error => {},
        }
        message.append("\n");
        return LaunchExecution { stdout: Vec::new(), stderr: utf8_bytes(&message), exit_code: 1 };
    }
    let mut stderr = result.stderr;
    let exit_code = match result.status_code {
        Some(c) => c,
        None => 1,
    };
    if let Some(signal) = result.terminating_signal {
        let mut message = String::new();
        message.append("[omx] ");
        message.append(program_name);
        message.append(" exited due to signal ");
        let digits = i32_decimal_chars(signal);
        let number = string_from_chars(digits.as_slice());
        message.append(number.as_str());
        message.append("\n");
        let bytes = utf8_bytes(&message);
        stderr.extend_from_slice(bytes.as_slice());
    }
    LaunchExecution { stdout: result.stdout, stderr, exit_code }
}

/// What the launch reports for a help request: the help text on stdout, exit code 0.
pub fn help_execution(help_output: &str) -> (out: LaunchExecution)
    ensures
        out.stdout@ == encode_utf8(help_output@),
        out.stderr@ == Seq::<u8>::empty(),
        out.exit_code == 0,
{
    LaunchExecution { stdout: help_output.as_bytes_vec(), stderr: Vec::new(), exit_code: 0 }
}

/// A tmux command's outcome as the launcher uses it: none where tmux itself is missing.
pub fn tmux_command_result(result: ProcessOutcome) -> (out: Option<ProcessOutcome>)
    ensures
        out == if result.spawn_error_kind == Some(SpawnErrorKind::Missing) {
            None
        } else {
            Some(result)
        },
{
    match result.spawn_error_kind {
        Some(SpawnErrorKind::Missing) => None,
        _ => Some(result),
    }
}

// ---------------------------------------------------------------------------
// Choosing the runtime
// ---------------------------------------------------------------------------

/// How a launch proceeds.
#[derive(Debug, Clone, Copy, PartialEq, Eq, Structural)]
pub enum LaunchPlan {
    /// Print the help text.
    Help,
    /// Run codex in the current tmux pane with a HUD pane beside it.
    InsideTmux,
    /// Ask whether tmux is available, then decide with `plan_after_probe`.
    ProbeTmux,
    /// Run codex in a new detached tmux session with a HUD pane, and attach to it.
    DetachedTmux,
    /// Run codex directly.
    Direct,
}

/// The first argument asks for help (`--help`, `-h` or `help`).
pub open spec fn is_help_request(args: Seq<Seq<char>>) -> bool {
    args.len() > 0 && (args[0] == "--help"@ || args[0] == "-h"@ || args[0] == "help"@)
}

/// How a launch with `args` in `env` proceeds: help first; inside tmux, the tmux pane
/// runtime unless tmux is forbidden; outside it, a probe for tmux where the user asked
/// for tmux and did not forbid it; else codex runs directly.
pub open spec fn launch_plan(args: Seq<Seq<char>>, env: Map<Seq<char>, Seq<char>>) -> LaunchPlan {
    if is_help_request(args) {
        LaunchPlan::Help
    } else if env_lookup(env, "TMUX"@).is_some() && !forbids_tmux(args, env) {
        LaunchPlan::InsideTmux
    } else if !forbids_tmux(args, env) && asks_tmux(args, env) {
        LaunchPlan::ProbeTmux
    } else {
        LaunchPlan::Direct
    }
}

/// Whether the first argument asks for help.
fn help_requested(args: &[String]) -> (r: bool)
    ensures
        r == is_help_request(string_views(args@)),
{
    if args.len() == 0 {
        return false;
    }
    assert(string_views(args@)[0] == args@[0]@);
    let a = args[0].as_str();
    str_eq(a, "--help") || str_eq(a, "-h") || str_eq(a, "help")
}

/// How a launch with `args` in `env` proceeds.
pub fn plan_launch(args: &[String], env: &LaunchEnv) -> (plan: LaunchPlan)
    ensures
        plan == launch_plan(string_views(args@), env@),
{
    if help_requested(args) {
        return LaunchPlan::Help;
    }
    let opt_in = tmux_opt_in(args, env);
    let forced_off = tmux_forced_off(args, env);
    if running_inside_tmux(env) && !forced_off {
        LaunchPlan::InsideTmux
    } else if !forced_off && opt_in {
        LaunchPlan::ProbeTmux
    } else {
        LaunchPlan::Direct
    }
}

/// How a launch proceeds once the probe has told whether tmux is available.
pub fn plan_after_probe(tmux_available: bool) -> (plan: LaunchPlan)
    ensures
        plan == if tmux_available {
            LaunchPlan::DetachedTmux
        } else {
            LaunchPlan::Direct
        },
{
    if tmux_available {
        LaunchPlan::DetachedTmux
    } else {
        LaunchPlan::Direct
    }
}

/// The tmux session that a launch inside tmux names its surfaces after: the session
/// tmux reported, or `attached-session` where it reported none.
pub fn inside_session_name(reported: Option<String>) -> (name: String)
    ensures
        name@ == match reported {
            Some(r) => r@,
            None => "attached-session"@,
        },
{
    match reported {
        Some(r) => r,
        None => "attached-session".to_owned(),
    }
}

// ---------------------------------------------------------------------------
// The launch inside tmux
// ---------------------------------------------------------------------------

/// The steps of a launch inside tmux, in order. Only codex's own result decides the
/// launch's; the tmux steps are best-effort and never stop the sequence.
#[derive(Debug, Clone, Copy, PartialEq, Eq, Structural)]
pub enum InsideStep {
    /// List the panes to find stale watching HUD panes.
    ListStalePanes,
    /// Kill those stale HUD panes.
    KillStalePanes,
    /// Split a new HUD pane below the current one.
    SplitHud,
    /// Run codex in the current pane.
    RunCodex,
    /// List the panes again to find the HUD panes left.
    ListRemainingPanes,
    /// Kill the HUD panes left and the one this launch created.
    CleanUp,
}

/// The step after `step`, or none after the clean-up.
pub open spec fn inside_transition(step: InsideStep) -> Option<InsideStep> {
    match step {
        InsideStep::ListStalePanes => Some(InsideStep::KillStalePanes),
        InsideStep::KillStalePanes => Some(InsideStep::SplitHud),
        InsideStep::SplitHud => Some(InsideStep::RunCodex),
        InsideStep::RunCodex => Some(InsideStep::ListRemainingPanes),
        InsideStep::ListRemainingPanes => Some(InsideStep::CleanUp),
        InsideStep::CleanUp => None,
    }
}

/// The first step of a launch inside tmux.
pub fn inside_first_step() -> (step: InsideStep)
    ensures
        step == InsideStep::ListStalePanes,
{
    InsideStep::ListStalePanes
}

/// The step after `step`, or none after the clean-up.
pub fn inside_next(step: InsideStep) -> (next: Option<InsideStep>)
    ensures
        next == inside_transition(step),
{
    match step {
        InsideStep::ListStalePanes => Some(InsideStep::KillStalePanes),
        InsideStep::KillStalePanes => Some(InsideStep::SplitHud),
        InsideStep::SplitHud => Some(InsideStep::RunCodex),
        InsideStep::RunCodex => Some(InsideStep::ListRemainingPanes),
        InsideStep::ListRemainingPanes => Some(InsideStep::CleanUp),
        InsideStep::CleanUp => None,
    }
}

/// The steps taken from `step` on, for at most `fuel` steps.
pub open spec fn inside_trace(step: InsideStep, fuel: nat) -> Seq<InsideStep>
    decreases fuel,
{
    if fuel == 0 {
        seq![]
    } else {
        match inside_transition(step) {
            Some(next) => seq![step] + inside_trace(next, (fuel - 1) as nat),
            None => seq![step],
        }
    }
}

/// A launch inside tmux kills the stale HUD panes before it splits a new one, runs codex
/// exactly once after the split, and always cleans up after codex: its whole sequence of
/// steps is fixed, and it ends.
pub proof fn inside_tmux_sequence(fuel: nat)
    requires
        fuel >= 6,
    ensures
        inside_trace(InsideStep::ListStalePanes, fuel) == seq![
            InsideStep::ListStalePanes,
            InsideStep::KillStalePanes,
            InsideStep::SplitHud,
            InsideStep::RunCodex,
            InsideStep::ListRemainingPanes,
            InsideStep::CleanUp,
        ],
{
    reveal_with_fuel(inside_trace, 7);
    let f = fuel;
    assert(inside_trace(InsideStep::CleanUp, (f - 5) as nat) == seq![InsideStep::CleanUp]);
    assert(inside_trace(InsideStep::ListRemainingPanes, (f - 4) as nat) =~= seq![
        InsideStep::ListRemainingPanes,
        InsideStep::CleanUp,
    ]);
    assert(inside_trace(InsideStep::RunCodex, (f - 3) as nat) =~= seq![
        InsideStep::RunCodex,
        InsideStep::ListRemainingPanes,
        InsideStep::CleanUp,
    ]);
    assert(inside_trace(InsideStep::SplitHud, (f - 2) as nat) =~= seq![
        InsideStep::SplitHud,
        InsideStep::RunCodex,
        InsideStep::ListRemainingPanes,
        InsideStep::CleanUp,
    ]);
    assert(inside_trace(InsideStep::KillStalePanes, (f - 1) as nat) =~= seq![
        InsideStep::KillStalePanes,
        InsideStep::SplitHud,
        InsideStep::RunCodex,
        InsideStep::ListRemainingPanes,
        InsideStep::CleanUp,
    ]);
    assert(inside_trace(InsideStep::ListStalePanes, f) =~= seq![
        InsideStep::ListStalePanes,
        InsideStep::KillStalePanes,
        InsideStep::SplitHud,
        InsideStep::RunCodex,
        InsideStep::ListRemainingPanes,
        InsideStep::CleanUp,
    ]);
}

// ---------------------------------------------------------------------------
// The detached tmux session
// ---------------------------------------------------------------------------

/// The tmux commands that set up a detached launch session, in order. The hook and
/// resize steps are conveniences: whether they succeed never changes what follows.
#[derive(Debug, Clone, Copy, PartialEq, Eq, Structural)]
pub enum DetachedStep {
    /// `new-session`, with codex in its main pane.
    CreateSession,
    /// `split-window`, with the HUD in the new pane.
    SplitHud,
    /// `set-hook client-attached`: re-fit the HUD when a client attaches.
    HookClientAttached,
    /// `set-hook client-resized`: re-fit the HUD when the client is resized.
    HookClientResized,
    /// `resize-pane`: fit the HUD to its height now.
    ReconcileHud,
    /// `attach-session`.
    Attach,
}

/// What the launcher does after one step of the detached session.
#[derive(Debug, Clone, Copy, PartialEq, Eq, Structural)]
pub enum DetachedAction {
    /// Run this step next.
    Run(DetachedStep),
    /// The session is attached; its result is the launch's, reported as tmux's.
    Attached,
    /// Give up on tmux and run codex directly, first removing the HUD hooks where
    /// `remove_hooks` says so, then killing the session where `kill_session` says so.
    FallBackDirect { remove_hooks: bool, kill_session: bool },
}

/// The step that opens a detached session.
pub fn detached_first_step() -> (step: DetachedStep)
    ensures
        step == DetachedStep::CreateSession,
{
    DetachedStep::CreateSession
}

/// What follows `step` when it succeeded or failed: a failed session or split gives up
/// (killing the session once it exists), the hooks and the resize are best-effort, and
/// a failed attach gives up after removing the hooks and killing the session.
pub open spec fn detached_transition(step: DetachedStep, succeeded: bool) -> DetachedAction {
    match step {
        DetachedStep::CreateSession => if succeeded {
            DetachedAction::Run(DetachedStep::SplitHud)
        } else {
            DetachedAction::FallBackDirect { remove_hooks: false, kill_session: false }
        },
        DetachedStep::SplitHud => if succeeded {
            DetachedAction::Run(DetachedStep::HookClientAttached)
        } else {
            DetachedAction::FallBackDirect { remove_hooks: false, kill_session: true }
        },
        DetachedStep::HookClientAttached => DetachedAction::Run(DetachedStep::HookClientResized),
        DetachedStep::HookClientResized => DetachedAction::Run(DetachedStep::ReconcileHud),
        DetachedStep::ReconcileHud => DetachedAction::Run(DetachedStep::Attach),
        DetachedStep::Attach => if succeeded {
            DetachedAction::Attached
        } else {
            DetachedAction::FallBackDirect { remove_hooks: true, kill_session: true }
        },
    }
}

/// What the launcher does after `step` succeeded or failed.
pub fn detached_next(step: DetachedStep, succeeded: bool) -> (action: DetachedAction)
    ensures
        action == detached_transition(step, succeeded),
{
    match step {
        DetachedStep::CreateSession => if succeeded {
            DetachedAction::Run(DetachedStep::SplitHud)
        } else {
            DetachedAction::FallBackDirect { remove_hooks: false, kill_session: false }
        },
        DetachedStep::SplitHud => if succeeded {
            DetachedAction::Run(DetachedStep::HookClientAttached)
        } else {
            DetachedAction::FallBackDirect { remove_hooks: false, kill_session: true }
        },
        DetachedStep::HookClientAttached => DetachedAction::Run(DetachedStep::HookClientResized),
        DetachedStep::HookClientResized => DetachedAction::Run(DetachedStep::ReconcileHud),
        DetachedStep::ReconcileHud => DetachedAction::Run(DetachedStep::Attach),
        DetachedStep::Attach => if succeeded {
            DetachedAction::Attached
        } else {
            DetachedAction::FallBackDirect { remove_hooks: true, kill_session: true }
        },
    }
}

/// How a detached launch ends when its steps give the `outcomes`, in order: the machine
/// is run from `step` and stops at the first action that is not another step.
pub open spec fn detached_run(step: DetachedStep, outcomes: Seq<bool>) -> Option<DetachedAction>
    decreases outcomes.len(),
{
    if outcomes.len() == 0 {
        None
    } else {
        match detached_transition(step, outcomes[0]) {
            DetachedAction::Run(next) => detached_run(next, outcomes.drop_first()),
            other => Some(other),
        }
    }
}

// ---------------------------------------------------------------------------
// Arguments of the tmux commands
// ---------------------------------------------------------------------------

/// Appends the text `s`.
fn push_text(v: &mut Vec<String>, s: &str)
    ensures
        string_views(final(v)@) == string_views(old(v)@).push(s@),
{
    let ghost before = string_views(v@);
    v.push(s.to_owned());
    assert(string_views(v@) =~= before.push(s@));
}

/// The HUD's height in lines.
pub open spec fn hud_height() -> Seq<char> {
    "2"@
}

/// The `list-panes` format: pane id, current command and start command, tab-separated.
pub open spec fn pane_list_format() -> Seq<char> {
    "#{pane_id}\t#{pane_current_command}\t#{pane_start_command}"@
}

/// `tmux list-panes -F <pane_list_format>`.
pub fn list_panes_args() -> (v: Vec<String>)
    ensures
        string_views(v@) == seq!["list-panes"@, "-F"@, pane_list_format()],
{
    let mut v: Vec<String> = Vec::new();
    push_text(&mut v, "list-panes");
    push_text(&mut v, "-F");
    push_text(&mut v, "#{pane_id}\t#{pane_current_command}\t#{pane_start_command}");
    v
}

/// `tmux display-message -p [-t <pane>] '#S'`, which prints the session name.
pub fn display_message_args(target: Option<&str>) -> (v: Vec<String>)
    ensures
        string_views(v@) == match target {
            Some(t) => seq!["display-message"@, "-p"@, "-t"@, t@, "#S"@],
            None => seq!["display-message"@, "-p"@, "#S"@],
        },
{
    let mut v: Vec<String> = Vec::new();
    push_text(&mut v, "display-message");
    push_text(&mut v, "-p");
    if let Some(t) = target {
        push_text(&mut v, "-t");
        push_text(&mut v, t);
    }
    push_text(&mut v, "#S");
    v
}

/// `tmux split-window -v -l 2 -d [-t <session>] -c <cwd> -P -F '#{pane_id}' <hud_command>`:
/// a HUD pane below the current one (or in `session`), printing the new pane's id.
pub fn split_hud_args(session: Option<&str>, cwd: &str, hud_command: &str) -> (v: Vec<String>)
    ensures
        string_views(v@) == seq!["split-window"@, "-v"@, "-l"@, hud_height(), "-d"@] + match session {
            Some(s) => seq!["-t"@, s@],
            None => Seq::<Seq<char>>::empty(),
        } + seq!["-c"@, cwd@, "-P"@, "-F"@, "#{pane_id}"@, hud_command@],
{
    let mut v: Vec<String> = Vec::new();
    push_text(&mut v, "split-window");
    push_text(&mut v, "-v");
    push_text(&mut v, "-l");
    push_text(&mut v, "2");
    push_text(&mut v, "-d");
    if let Some(s) = session {
        push_text(&mut v, "-t");
        push_text(&mut v, s);
    }
    push_text(&mut v, "-c");
    push_text(&mut v, cwd);
    push_text(&mut v, "-P");
    push_text(&mut v, "-F");
    push_text(&mut v, "#{pane_id}");
    push_text(&mut v, hud_command);
    v
}

/// `tmux new-session -d -s <session> -c <cwd> <codex_command>`.
pub fn new_session_args(session: &str, cwd: &str, codex_command: &str) -> (v: Vec<String>)
    ensures
        string_views(v@) == seq![
            "new-session"@,
            "-d"@,
            "-s"@,
            session@,
            "-c"@,
            cwd@,
            codex_command@,
        ],
{
    let mut v: Vec<String> = Vec::new();
    push_text(&mut v, "new-session");
    push_text(&mut v, "-d");
    push_text(&mut v, "-s");
    push_text(&mut v, session);
    push_text(&mut v, "-c");
    push_text(&mut v, cwd);
    push_text(&mut v, codex_command);
    v
}

/// `tmux attach-session -t <session>`.
pub fn attach_session_args(session: &str) -> (v: Vec<String>)
    ensures
        string_views(v@) == seq!["attach-session"@, "-t"@, session@],
{
    let mut v: Vec<String> = Vec::new();
    push_text(&mut v, "attach-session");
    push_text(&mut v, "-t");
    push_text(&mut v, session);
    v
}

/// `tmux kill-session -t <session>`.
pub fn kill_session_args(session: &str) -> (v: Vec<String>)
    ensures
        string_views(v@) == seq!["kill-session"@, "-t"@, session@],
{
    let mut v: Vec<String> = Vec::new();
    push_text(&mut v, "kill-session");
    push_text(&mut v, "-t");
    push_text(&mut v, session);
    v
}

/// The arguments of `omx` that show the HUD: `hud`, and `--watch` for a watching HUD.
pub fn hud_command_args(watch: bool) -> (v: Vec<String>)
    ensures
        string_views(v@) == if watch {
            seq!["hud"@, "--watch"@]
        } else {
            seq!["hud"@]
        },
{
    let mut v: Vec<String> = Vec::new();
    push_text(&mut v, "hud");
    if watch {
        push_text(&mut v, "--watch");
    }
    v
}

/// The tmux hooks that keep the HUD at its height.
#[derive(Debug, Clone, Copy, PartialEq, Eq, Structural)]
pub enum HudHook {
    /// Fired when a client attaches to the session.
    ClientAttached,
    /// Fired when the attached client is resized.
    ClientResized,
}

/// The tmux name of a hook.
pub open spec fn hook_name(hook: HudHook) -> Seq<char> {
    match hook {
        HudHook::ClientAttached => "client-attached"@,
        HudHook::ClientResized => "client-resized"@,
    }
}

fn hook_name_str(hook: HudHook) -> (s: &'static str)
    ensures
        s@ == hook_name(hook),
{
    match hook {
        HudHook::ClientAttached => "client-attached",
        HudHook::ClientResized => "client-resized",
    }
}

/// The tmux command that fits the HUD pane `pane` to its height.
pub open spec fn hud_fit_command(pane: Seq<char>) -> Seq<char> {
    "resize-pane -t "@ + pane + " -y "@ + hud_height()
}

/// `tmux set-hook -t <session> <hook> 'resize-pane -t <pane> -y 2'`.
pub fn set_hud_hook_args(session: &str, hook: HudHook, pane: &str) -> (v: Vec<String>)
    ensures
        string_views(v@) == seq!["set-hook"@, "-t"@, session@, hook_name(hook), hud_fit_command(pane@)],
{
    let mut fit = String::new();
    fit.append("resize-pane -t ");
    fit.append(pane);
    fit.append(" -y ");
    fit.append("2");
    let mut v: Vec<String> = Vec::new();
    push_text(&mut v, "set-hook");
    push_text(&mut v, "-t");
    push_text(&mut v, session);
    push_text(&mut v, hook_name_str(hook));
    push_text(&mut v, fit.as_str());
    v
}

/// `tmux set-hook -u -t <session> <hook>`, which removes the hook.
pub fn unset_hud_hook_args(session: &str, hook: HudHook) -> (v: Vec<String>)
    ensures
        string_views(v@) == seq!["set-hook"@, "-u"@, "-t"@, session@, hook_name(hook)],
{
    let mut v: Vec<String> = Vec::new();
    push_text(&mut v, "set-hook");
    push_text(&mut v, "-u");
    push_text(&mut v, "-t");
    push_text(&mut v, session);
    push_text(&mut v, hook_name_str(hook));
    v
}

/// `tmux resize-pane -t <pane> -y 2`.
pub fn reconcile_hud_args(pane: &str) -> (v: Vec<String>)
    ensures
        string_views(v@) == seq!["resize-pane"@, "-t"@, pane@, "-y"@, hud_height()],
{
    let mut v: Vec<String> = Vec::new();
    push_text(&mut v, "resize-pane");
    push_text(&mut v, "-t");
    push_text(&mut v, pane);
    push_text(&mut v, "-y");
    push_text(&mut v, "2");
    v
}

/// The tmux arguments of one detached step, for the session `session` started in `cwd`,
/// running `codex_command`, with the HUD started by `hud_command`, whose pane (printed by
/// the split) is `hud_pane`. The hook and resize steps need that pane; without it they
/// have nothing to run and count as failed.
pub open spec fn detached_step_args_of(
    step: DetachedStep,
    session: Seq<char>,
    cwd: Seq<char>,
    codex_command: Seq<char>,
    hud_command: Seq<char>,
    hud_pane: Option<Seq<char>>,
) -> Option<Seq<Seq<char>>> {
    match step {
        DetachedStep::CreateSession => Some(
            seq!["new-session"@, "-d"@, "-s"@, session, "-c"@, cwd, codex_command],
        ),
        DetachedStep::SplitHud => Some(
            seq![
                "split-window"@,
                "-v"@,
                "-l"@,
                hud_height(),
                "-d"@,
                "-t"@,
                session,
                "-c"@,
                cwd,
                "-P"@,
                "-F"@,
                "#{pane_id}"@,
                hud_command,
            ],
        ),
        DetachedStep::HookClientAttached => match hud_pane {
            Some(p) => Some(
                seq!["set-hook"@, "-t"@, session, hook_name(HudHook::ClientAttached), hud_fit_command(p)],
            ),
            None => None,
        },
        DetachedStep::HookClientResized => match hud_pane {
            Some(p) => Some(
                seq!["set-hook"@, "-t"@, session, hook_name(HudHook::ClientResized), hud_fit_command(p)],
            ),
            None => None,
        },
        DetachedStep::ReconcileHud => match hud_pane {
            Some(p) => Some(seq!["resize-pane"@, "-t"@, p, "-y"@, hud_height()]),
            None => None,
        },
        DetachedStep::Attach => Some(seq!["attach-session"@, "-t"@, session]),
    }
}

/// The tmux arguments of one detached step.
pub fn detached_step_args(
    step: DetachedStep,
    session: &str,
    cwd: &str,
    codex_command: &str,
    hud_command: &str,
    hud_pane: Option<&str>,
) -> (out: Option<Vec<String>>)
    ensures
        match (
            out,
            detached_step_args_of(
                step,
                session@,
                cwd@,
                codex_command@,
                hud_command@,
                match hud_pane {
                    Some(p) => Some(p@),
                    None => None,
                },
            ),
        ) {
            (Some(v), Some(w)) => string_views(v@) == w,
            (None, None) => true,
            _ => false,
        },
{
    match step {
        DetachedStep::CreateSession => Some(new_session_args(session, cwd, codex_command)),
        DetachedStep::SplitHud => Some(split_hud_args(Some(session), cwd, hud_command)),
        DetachedStep::HookClientAttached => match hud_pane {
            Some(p) => Some(set_hud_hook_args(session, HudHook::ClientAttached, p)),
            None => None,
        },
        DetachedStep::HookClientResized => match hud_pane {
            Some(p) => Some(set_hud_hook_args(session, HudHook::ClientResized, p)),
            None => None,
        },
        DetachedStep::ReconcileHud => match hud_pane {
            Some(p) => Some(reconcile_hud_args(p)),
            None => None,
        },
        DetachedStep::Attach => Some(attach_session_args(session)),
    }
}

/// The tmux commands that roll a detached session back, in order: the two HUD hooks
/// removed where `remove_hooks` says so, then the session killed where `kill_session`
/// says so.
pub open spec fn rollback_commands_of(session: Seq<char>, remove_hooks: bool, kill_session: bool) -> Seq<
    Seq<Seq<char>>,
> {
    (if remove_hooks {
        seq![
            seq!["set-hook"@, "-u"@, "-t"@, session, hook_name(HudHook::ClientAttached)],
            seq!["set-hook"@, "-u"@, "-t"@, session, hook_name(HudHook::ClientResized)],
        ]
    } else {
        Seq::<Seq<Seq<char>>>::empty()
    }) + (if kill_session {
        seq![seq!["kill-session"@, "-t"@, session]]
    } else {
        Seq::<Seq<Seq<char>>>::empty()
    })
}

/// The argument lists of a sequence of commands.
pub open spec fn command_views(v: Seq<Vec<String>>) -> Seq<Seq<Seq<char>>> {
    v.map_values(|c: Vec<String>| string_views(c@))
}

/// The tmux commands that roll a detached session back before codex runs directly.
pub fn rollback_commands(session: &str, remove_hooks: bool, kill_session: bool) -> (out: Vec<
    Vec<String>,
>)
    ensures
        command_views(out@) == rollback_commands_of(session@, remove_hooks, kill_session),
{
    let mut out: Vec<Vec<String>> = Vec::new();
    if remove_hooks {
        out.push(unset_hud_hook_args(session, HudHook::ClientAttached));
        out.push(unset_hud_hook_args(session, HudHook::ClientResized));
    }
    if kill_session {
        let ghost before = command_views(out@);
        out.push(kill_session_args(session));
        assert(command_views(out@) =~= before.push(seq!["kill-session"@, "-t"@, session@]));
    }
    assert(command_views(out@) =~= rollback_commands_of(session@, remove_hooks, kill_session));
    out
}

// ---------------------------------------------------------------------------
// Laws
// ---------------------------------------------------------------------------

/// A help request is answered with help, whatever the environment.
pub proof fn help_always_wins(args: Seq<Seq<char>>, env: Map<Seq<char>, Seq<char>>)
    requires
        is_help_request(args),
    ensures
        launch_plan(args, env) == LaunchPlan::Help,
{
}

/// Where tmux is forbidden (`--no-tmux`, `OMX_LAUNCH_NO_TMUX`, `OMX_NO_TMUX`,
/// `OMX_LAUNCH_MODE=native`), the launch never uses tmux, even inside tmux or when also
/// asked for it.
pub proof fn forbidden_tmux_launches_natively(
    args: Seq<Seq<char>>,
    env: Map<Seq<char>, Seq<char>>,
)
    requires
        forbids_tmux(args, env),
    ensures
        launch_plan(args, env) == LaunchPlan::Help || launch_plan(args, env) == LaunchPlan::Direct,
{
}

/// Outside tmux, a tmux session is only tried where the user asked for it: without
/// `--tmux`, `OMX_LAUNCH_TMUX` or `OMX_LAUNCH_MODE=tmux`, codex runs directly.
pub proof fn detached_tmux_only_on_request(
    args: Seq<Seq<char>>,
    env: Map<Seq<char>, Seq<char>>,
)
    requires
        !is_help_request(args),
        env_lookup(env, "TMUX"@).is_none(),
        !asks_tmux(args, env),
    ensures
        launch_plan(args, env) == LaunchPlan::Direct,
{
}

/// Inside tmux, and unless tmux is forbidden, the launch keeps the tmux HUD split.
pub proof fn inside_tmux_keeps_hud(args: Seq<Seq<char>>, env: Map<Seq<char>, Seq<char>>)
    requires
        !is_help_request(args),
        env_lookup(env, "TMUX"@).is_some(),
        !forbids_tmux(args, env),
    ensures
        launch_plan(args, env) == LaunchPlan::InsideTmux,
{
}

/// Outside tmux, `--tmux` anywhere among the arguments makes the launch try a detached
/// tmux session, unless tmux is forbidden or help is asked for.
pub proof fn tmux_flag_outside_tmux_probes(args: Seq<Seq<char>>, env: Map<Seq<char>, Seq<char>>)
    requires
        args.contains("--tmux"@),
        !is_help_request(args),
        !env.contains_key("TMUX"@),
        !forbids_tmux(args, env),
    ensures
        launch_plan(args, env) == LaunchPlan::ProbeTmux,
{
    crate::launch_env::tmux_flag_anywhere_asks_for_tmux(args, env);
}

/// `--no-tmux` anywhere among the arguments keeps the launch off tmux, even inside tmux
/// and even with `--tmux` also given.
pub proof fn no_tmux_flag_launches_natively(args: Seq<Seq<char>>, env: Map<Seq<char>, Seq<char>>)
    requires
        args.contains("--no-tmux"@),
    ensures
        launch_plan(args, env) == LaunchPlan::Help || launch_plan(args, env) == LaunchPlan::Direct,
{
    crate::launch_env::no_tmux_flag_anywhere_forbids_tmux(args, env);
}

/// `--help`, `-h` or `help` as the first argument asks for help, whatever follows and
/// whatever the environment; a first argument other than these never does.
pub proof fn help_is_the_first_argument(args: Seq<Seq<char>>, env: Map<Seq<char>, Seq<char>>)
    ensures
        args.len() > 0 && (args[0] == "--help"@ || args[0] == "-h"@ || args[0] == "help"@)
            ==> launch_plan(args, env) == LaunchPlan::Help,
        (args.len() == 0 || (args[0] != "--help"@ && args[0] != "-h"@ && args[0] != "help"@))
            ==> launch_plan(args, env) != LaunchPlan::Help,
{
}

/// With `TMUX` set (to anything, even empty), no help asked for and nothing forbidding
/// tmux, the launch runs inside tmux with its HUD, whether or not tmux was asked for.
pub proof fn tmux_server_means_inside_launch(args: Seq<Seq<char>>, env: Map<Seq<char>, Seq<char>>)
    requires
        env.contains_key("TMUX"@),
        !is_help_request(args),
        !forbids_tmux(args, env),
    ensures
        launch_plan(args, env) == LaunchPlan::InsideTmux,
{
}

/// Outside tmux and without anything asking for tmux, codex runs directly.
pub proof fn no_tmux_server_no_request_runs_directly(
    args: Seq<Seq<char>>,
    env: Map<Seq<char>, Seq<char>>,
)
    requires
        !env.contains_key("TMUX"@),
        !is_help_request(args),
        !args.contains("--tmux"@),
        !env.contains_key("OMX_LAUNCH_TMUX"@),
        !env.contains_key("OMX_LAUNCH_MODE"@),
    ensures
        launch_plan(args, env) == LaunchPlan::Direct,
{
    crate::launch_env::nothing_asks_for_tmux_by_default(args, env);
}

/// The six outcomes of a full detached run, one per step in order.
pub open spec fn full_run(outcomes: Seq<bool>) -> Option<DetachedAction> {
    detached_run(DetachedStep::CreateSession, outcomes)
}

/// The detached run with every outcome spelled out.
proof fn lemma_full_run(outcomes: Seq<bool>)
    requires
        outcomes.len() == 6,
    ensures
        full_run(outcomes) == if !outcomes[0] {
            Some(DetachedAction::FallBackDirect { remove_hooks: false, kill_session: false })
        } else if !outcomes[1] {
            Some(DetachedAction::FallBackDirect { remove_hooks: false, kill_session: true })
        } else if outcomes[5] {
            Some(DetachedAction::Attached)
        } else {
            Some(DetachedAction::FallBackDirect { remove_hooks: true, kill_session: true })
        },
{
    let o1 = outcomes.drop_first();
    let o2 = o1.drop_first();
    let o3 = o2.drop_first();
    let o4 = o3.drop_first();
    let o5 = o4.drop_first();
    let o6 = o5.drop_first();
    assert(o1[0] == outcomes[1]);
    assert(o5[0] == outcomes[5]);
    assert(o6.len() == 0);
    reveal_with_fuel(detached_run, 7);
}

/// A detached launch attaches exactly when creating the session, splitting the HUD and
/// attaching succeed, whatever the hook and resize steps gave.
pub proof fn detached_attaches_iff_required_steps_succeed(outcomes: Seq<bool>)
    requires
        outcomes.len() == 6,
    ensures
        full_run(outcomes) == Some(DetachedAction::Attached) <==> (outcomes[0] && outcomes[1]
            && outcomes[5]),
{
    lemma_full_run(outcomes);
}

/// A failed hook registration or resize never changes how a detached launch ends: the
/// run is the same whatever those three steps gave.
pub proof fn detached_hooks_never_block(outcomes: Seq<bool>, h1: bool, h2: bool, h3: bool)
    requires
        outcomes.len() == 6,
    ensures
        full_run(outcomes) == full_run(outcomes.update(2, h1).update(3, h2).update(4, h3)),
{
    let other = outcomes.update(2, h1).update(3, h2).update(4, h3);
    lemma_full_run(outcomes);
    lemma_full_run(other);
}

/// A detached launch that gives up runs codex directly, after rolling back what it set
/// up: it removes the HUD hooks where the split (after which they are registered)
/// succeeded, and kills the session where it was created; a failed `new-session` leaves
/// nothing behind.
pub proof fn detached_fallback_rolls_back(outcomes: Seq<bool>, remove: bool, kill: bool)
    requires
        outcomes.len() == 6,
        full_run(outcomes) == Some(
            DetachedAction::FallBackDirect { remove_hooks: remove, kill_session: kill },
        ),
    ensures
        kill == outcomes[0],
        remove == (outcomes[0] && outcomes[1]),
        !(outcomes[0] && outcomes[1] && outcomes[5]),
{
    lemma_full_run(outcomes);
}

/// Giving up after the HUD split rolls back everything: both HUD hooks are removed,
/// then the session is killed.
pub proof fn detached_fallback_after_split_removes_hooks_and_session(
    outcomes: Seq<bool>,
    session: Seq<char>,
    remove: bool,
    kill: bool,
)
    requires
        outcomes.len() == 6,
        outcomes[0] && outcomes[1],
        full_run(outcomes) == Some(
            DetachedAction::FallBackDirect { remove_hooks: remove, kill_session: kill },
        ),
    ensures
        rollback_commands_of(session, remove, kill) == seq![
            seq!["set-hook"@, "-u"@, "-t"@, session, hook_name(HudHook::ClientAttached)],
            seq!["set-hook"@, "-u"@, "-t"@, session, hook_name(HudHook::ClientResized)],
            seq!["kill-session"@, "-t"@, session],
        ],
{
    lemma_full_run(outcomes);
    assert(rollback_commands_of(session, remove, kill) =~= seq![
        seq!["set-hook"@, "-u"@, "-t"@, session, hook_name(HudHook::ClientAttached)],
        seq!["set-hook"@, "-u"@, "-t"@, session, hook_name(HudHook::ClientResized)],
        seq!["kill-session"@, "-t"@, session],
    ]);
}

/// Six outcomes always bring a detached launch to an end: attached or fallen back.
pub proof fn detached_run_ends(outcomes: Seq<bool>)
    requires
        outcomes.len() == 6,
    ensures
        full_run(outcomes).is_some(),
{
    lemma_full_run(outcomes);
}

/// In a detached launch the hooks are registered and the HUD fitted after the split and
/// before the attach: the steps come in this order.
pub proof fn detached_steps_in_order()
    ensures
        detached_transition(DetachedStep::SplitHud, true) == DetachedAction::Run(
            DetachedStep::HookClientAttached,
        ),
        forall|b: bool|
            detached_transition(DetachedStep::HookClientAttached, b) == DetachedAction::Run(
                DetachedStep::HookClientResized,
            ),
        forall|b: bool|
            detached_transition(DetachedStep::HookClientResized, b) == DetachedAction::Run(
                DetachedStep::ReconcileHud,
            ),
        forall|b: bool|
            detached_transition(DetachedStep::ReconcileHud, b) == DetachedAction::Run(
                DetachedStep::Attach,
            ),
{
}

} // verus!
