# omx_cli

The decision logic of the `omx` launcher and of the `omx sparkshell` sidecar, verified
with Verus.

- `src/launch_args.rs`: which launch arguments reach codex (`normalize_launch_args`),
  with the laws that the result is clean, that normalising is idempotent, that the
  bypass flag appears exactly when asked for, and that the last reasoning flag decides.
- `src/launch_env.rs`: the environment snapshot (a map of unique names) and the tmux
  opt-in / force-off rules.
- `src/launch.rs`: the launch plan, the inside-tmux step sequence, the detached-session
  state machine (session, HUD split, best-effort resize hooks and HUD fit, attach, and
  rollback of hooks and session on fallback), the tmux command arguments and the report
  of a finished process.
- `src/tmux_panes.rs`: parsing tmux output (pane listings, pane ids, session names),
  HUD pane selection and cleanup, detached session names.
- `src/surface_runtime.rs`: surface ids of the native and tmux backends.
- `src/sparkshell.rs`: raw-or-summary choice and the sidecar's messages.
- `src/text.rs`: character-level string helpers (trim, lines, split, ASCII case,
  decimal numerals) with their specifications.

`app/` runs the processes (codex, tmux) and performs the I/O around these decisions.
