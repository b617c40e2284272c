use omx_cli::launch::{
    attach_session_args, detached_first_step, detached_next, display_message_args,
    finalize_process_result, help_execution, hud_command_args, kill_session_args,
    list_panes_args, new_session_args, plan_after_probe, plan_launch, split_hud_args,
    tmux_command_result, DetachedAction, DetachedStep, LaunchError, LaunchExecution, LaunchPlan,
    ProcessOutcome, SpawnErrorKind, detached_step_args, rollback_commands, set_hud_hook_args,
    unset_hud_hook_args, reconcile_hud_args, HudHook, inside_first_step, inside_next,
    inside_session_name, InsideStep,
};
use omx_cli::launch_env::{env_string, env_truthy, running_inside_tmux, tmux_forced_off, tmux_opt_in, LaunchEnv};

fn strings(items: &[&str]) -> Vec<String> {
    items.iter().map(|s| s.to_string()).collect()
}

fn env(pairs: &[(&str, &str)]) -> LaunchEnv {
    let mut e = LaunchEnv::new();
    for (k, v) in pairs {
        e.insert(k.to_string(), v.to_string());
    }
    e
}

fn outcome(stdout: &[u8], stderr: &[u8], status: Option<i32>, signal: Option<i32>, spawn: Option<SpawnErrorKind>) -> ProcessOutcome {
    ProcessOutcome {
        stdout: stdout.to_vec(),
        stderr: stderr.to_vec(),
        status_code: status,
        terminating_signal: signal,
        spawn_error_kind: spawn,
    }
}

#[test]
fn help_variants_print_help() {
    for first in ["--help", "-h", "help"] {
        let plan = plan_launch(&strings(&[first, "--tmux"]), &env(&[("TMUX", "/tmp/sock")]));
        assert_eq!(plan, LaunchPlan::Help);
    }
    let out = help_execution("top-level help\n");
    assert_eq!(out.stdout, b"top-level help\n".to_vec());
    assert!(out.stderr.is_empty());
    assert_eq!(out.exit_code, 0);
}

#[test]
fn help_only_as_first_argument() {
    assert_eq!(plan_launch(&strings(&["--model", "--help"]), &env(&[])), LaunchPlan::Direct);
}

#[test]
fn inside_tmux_uses_tmux_hud_unless_forbidden() {
    let inside = env(&[("TMUX", "/tmp/fake-tmux,123,0"), ("TMUX_PANE", "%1")]);
    assert_eq!(plan_launch(&strings(&["--model", "gpt-5"]), &inside), LaunchPlan::InsideTmux);
    assert_eq!(plan_launch(&strings(&["--no-tmux"]), &inside), LaunchPlan::Direct);
    let native = env(&[("TMUX", "x"), ("OMX_LAUNCH_MODE", "native")]);
    assert_eq!(plan_launch(&strings(&[]), &native), LaunchPlan::Direct);
    // TMUX set to an empty value still counts as inside tmux.
    assert_eq!(plan_launch(&strings(&[]), &env(&[("TMUX", "")])), LaunchPlan::InsideTmux);
}

#[test]
fn outside_tmux_probes_only_when_opted_in() {
    assert_eq!(plan_launch(&strings(&["--xhigh"]), &env(&[])), LaunchPlan::Direct);
    assert_eq!(plan_launch(&strings(&[]), &env(&[("OMX_LAUNCH_TMUX", "1")])), LaunchPlan::ProbeTmux);
    assert_eq!(plan_launch(&strings(&["--tmux"]), &env(&[])), LaunchPlan::ProbeTmux);
    assert_eq!(plan_launch(&strings(&[]), &env(&[("OMX_LAUNCH_MODE", "tmux")])), LaunchPlan::ProbeTmux);
    assert_eq!(plan_launch(&strings(&["--tmux", "--no-tmux"]), &env(&[])), LaunchPlan::Direct);
    assert_eq!(
        plan_launch(&strings(&["--tmux"]), &env(&[("OMX_NO_TMUX", "yes")])),
        LaunchPlan::Direct
    );
    assert_eq!(plan_after_probe(true), LaunchPlan::DetachedTmux);
    assert_eq!(plan_after_probe(false), LaunchPlan::Direct);
}

#[test]
fn env_values_and_truthiness() {
    let e = env(&[("A", "  "), ("B", "0"), ("C", "Yes"), ("D", "1"), ("E", " 1"), ("F", "no"), ("B", "TRUE")]);
    assert_eq!(env_string(&e, "A"), None);
    assert_eq!(env_string(&e, "B"), Some("TRUE".to_string()));
    assert_eq!(env_string(&e, "Z"), None);
    assert!(env_truthy(&e, "B"));
    assert!(env_truthy(&e, "C"));
    assert!(env_truthy(&e, "D"));
    assert!(!env_truthy(&e, "E"));
    assert!(!env_truthy(&e, "F"));
    assert!(!env_truthy(&e, "A"));
    assert!(!running_inside_tmux(&e));
    assert!(running_inside_tmux(&env(&[("TMUX", "")])));
    assert!(tmux_opt_in(&strings(&[]), &env(&[("OMX_LAUNCH_TMUX", "true")])));
    assert!(!tmux_opt_in(&strings(&[]), &env(&[("OMX_LAUNCH_MODE", "TMUX")])));
    assert!(tmux_forced_off(&strings(&[]), &env(&[("OMX_LAUNCH_NO_TMUX", "1")])));
    assert!(!tmux_forced_off(&strings(&["-no-tmux"]), &env(&[])));
}

#[test]
fn detached_session_steps() {
    let give_up = |remove_hooks, kill_session| DetachedAction::FallBackDirect { remove_hooks, kill_session };
    assert_eq!(detached_first_step(), DetachedStep::CreateSession);
    assert_eq!(detached_next(DetachedStep::CreateSession, true), DetachedAction::Run(DetachedStep::SplitHud));
    assert_eq!(detached_next(DetachedStep::CreateSession, false), give_up(false, false));
    assert_eq!(detached_next(DetachedStep::SplitHud, true), DetachedAction::Run(DetachedStep::HookClientAttached));
    assert_eq!(detached_next(DetachedStep::SplitHud, false), give_up(false, true));
    for ok in [true, false] {
        assert_eq!(detached_next(DetachedStep::HookClientAttached, ok), DetachedAction::Run(DetachedStep::HookClientResized));
        assert_eq!(detached_next(DetachedStep::HookClientResized, ok), DetachedAction::Run(DetachedStep::ReconcileHud));
        assert_eq!(detached_next(DetachedStep::ReconcileHud, ok), DetachedAction::Run(DetachedStep::Attach));
    }
    assert_eq!(detached_next(DetachedStep::Attach, true), DetachedAction::Attached);
    assert_eq!(detached_next(DetachedStep::Attach, false), give_up(true, true));
}

fn run_detached(outcomes: [bool; 6]) -> DetachedAction {
    let mut step = detached_first_step();
    let mut i = 0;
    loop {
        match detached_next(step, outcomes[i]) {
            DetachedAction::Run(next) => step = next,
            other => return other,
        }
        i += 1;
    }
}

#[test]
fn failed_hooks_never_block_the_attach() {
    for hooks in 0..8u8 {
        let (a, b, c) = (hooks & 1 != 0, hooks & 2 != 0, hooks & 4 != 0);
        assert_eq!(run_detached([true, true, a, b, c, true]), DetachedAction::Attached);
        assert_eq!(
            run_detached([true, true, a, b, c, false]),
            DetachedAction::FallBackDirect { remove_hooks: true, kill_session: true }
        );
    }
}

#[test]
fn detached_step_arguments_and_rollback() {
    let args = |step| detached_step_args(step, "omx-w-1", "/w", "codex", "hud", Some("%42"));
    assert_eq!(args(DetachedStep::CreateSession), Some(strings(&["new-session", "-d", "-s", "omx-w-1", "-c", "/w", "codex"])));
    assert_eq!(
        args(DetachedStep::SplitHud),
        Some(strings(&["split-window", "-v", "-l", "2", "-d", "-t", "omx-w-1", "-c", "/w", "-P", "-F", "#{pane_id}", "hud"]))
    );
    assert_eq!(
        args(DetachedStep::HookClientAttached),
        Some(strings(&["set-hook", "-t", "omx-w-1", "client-attached", "resize-pane -t %42 -y 2"]))
    );
    assert_eq!(
        args(DetachedStep::HookClientResized),
        Some(strings(&["set-hook", "-t", "omx-w-1", "client-resized", "resize-pane -t %42 -y 2"]))
    );
    assert_eq!(args(DetachedStep::ReconcileHud), Some(strings(&["resize-pane", "-t", "%42", "-y", "2"])));
    assert_eq!(args(DetachedStep::Attach), Some(strings(&["attach-session", "-t", "omx-w-1"])));
    assert_eq!(detached_step_args(DetachedStep::ReconcileHud, "s", "/w", "c", "h", None), None);
    assert_eq!(detached_step_args(DetachedStep::HookClientAttached, "s", "/w", "c", "h", None), None);
    assert_eq!(
        rollback_commands("s", true, true),
        vec![
            strings(&["set-hook", "-u", "-t", "s", "client-attached"]),
            strings(&["set-hook", "-u", "-t", "s", "client-resized"]),
            strings(&["kill-session", "-t", "s"]),
        ]
    );
    assert_eq!(rollback_commands("s", false, true), vec![strings(&["kill-session", "-t", "s"])]);
    assert!(rollback_commands("s", false, false).is_empty());
    assert_eq!(set_hud_hook_args("s", HudHook::ClientResized, "%1"), strings(&["set-hook", "-t", "s", "client-resized", "resize-pane -t %1 -y 2"]));
    assert_eq!(unset_hud_hook_args("s", HudHook::ClientAttached), strings(&["set-hook", "-u", "-t", "s", "client-attached"]));
    assert_eq!(reconcile_hud_args("%1"), strings(&["resize-pane", "-t", "%1", "-y", "2"]));
}

#[test]
fn inside_tmux_sequence_and_session_name() {
    let mut steps = vec![];
    let mut step = Some(inside_first_step());
    while let Some(s) = step {
        steps.push(s);
        step = inside_next(s);
    }
    assert_eq!(
        steps,
        vec![
            InsideStep::ListStalePanes,
            InsideStep::KillStalePanes,
            InsideStep::SplitHud,
            InsideStep::RunCodex,
            InsideStep::ListRemainingPanes,
            InsideStep::CleanUp,
        ]
    );
    assert_eq!(inside_session_name(None), "attached-session");
    assert_eq!(inside_session_name(Some("fixture-session".to_string())), "fixture-session");
}

#[test]
fn reports_missing_blocked_and_failed_spawns() {
    let missing = finalize_process_result(outcome(b"x", b"y", Some(0), None, Some(SpawnErrorKind::Missing)), "codex");
    assert_eq!(missing.exit_code, 1);
    assert!(missing.stdout.is_empty());
    assert_eq!(
        String::from_utf8(missing.stderr).unwrap(),
        "[omx] failed to launch codex: executable not found in PATH\n"
    );
    let blocked = finalize_process_result(outcome(b"", b"", None, None, Some(SpawnErrorKind::Blocked)), "tmux");
    assert_eq!(
        String::from_utf8(blocked.stderr).unwrap(),
        "[omx] failed to launch tmux: executable is present but blocked in the current environment\n"
    );
    let other = finalize_process_result(outcome(b"", b"", None, None, Some(SpawnErrorKind::Error)), "codex");
    assert_eq!(String::from_utf8(other.stderr).unwrap(), "[omx] failed to launch codex\n");
}

#[test]
fn reports_exit_status_and_signal() {
    let ok = finalize_process_result(outcome(b"out", b"err", Some(3), None, None), "codex");
    assert_eq!(ok, LaunchExecution { stdout: b"out".to_vec(), stderr: b"err".to_vec(), exit_code: 3 });
    let killed = finalize_process_result(outcome(b"o", b"e\n", None, Some(9), None), "codex");
    assert_eq!(killed.exit_code, 1);
    assert_eq!(String::from_utf8(killed.stderr).unwrap(), "e\n[omx] codex exited due to signal 9\n");
    let odd = finalize_process_result(outcome(b"", b"", Some(0), Some(-15), None), "tmux");
    assert_eq!(odd.exit_code, 0);
    assert_eq!(String::from_utf8(odd.stderr).unwrap(), "[omx] tmux exited due to signal -15\n");
}

#[test]
fn missing_tmux_is_no_result() {
    assert_eq!(tmux_command_result(outcome(b"", b"", None, None, Some(SpawnErrorKind::Missing))), None);
    let blocked = outcome(b"", b"", None, None, Some(SpawnErrorKind::Blocked));
    assert_eq!(tmux_command_result(blocked.clone()), Some(blocked));
    let fine = outcome(b"%1", b"", Some(0), None, None);
    assert_eq!(tmux_command_result(fine.clone()), Some(fine));
}

#[test]
fn tmux_command_arguments() {
    assert_eq!(list_panes_args(), strings(&["list-panes", "-F", "#{pane_id}\t#{pane_current_command}\t#{pane_start_command}"]));
    assert_eq!(display_message_args(Some("%1")), strings(&["display-message", "-p", "-t", "%1", "#S"]));
    assert_eq!(display_message_args(None), strings(&["display-message", "-p", "#S"]));
    assert_eq!(
        split_hud_args(None, "/w", "omx hud --watch"),
        strings(&["split-window", "-v", "-l", "2", "-d", "-c", "/w", "-P", "-F", "#{pane_id}", "omx hud --watch"])
    );
    assert_eq!(
        split_hud_args(Some("omx-w-1"), "/w", "h"),
        strings(&["split-window", "-v", "-l", "2", "-d", "-t", "omx-w-1", "-c", "/w", "-P", "-F", "#{pane_id}", "h"])
    );
    assert_eq!(new_session_args("s", "/w", "codex"), strings(&["new-session", "-d", "-s", "s", "-c", "/w", "codex"]));
    assert_eq!(attach_session_args("s"), strings(&["attach-session", "-t", "s"]));
    assert_eq!(kill_session_args("s"), strings(&["kill-session", "-t", "s"]));
    assert_eq!(hud_command_args(true), strings(&["hud", "--watch"]));
    assert_eq!(hud_command_args(false), strings(&["hud"]));
}

#[test]
fn launch_error_message() {
    let e = LaunchError::new("boom");
    assert_eq!(e.message(), "boom");
}
