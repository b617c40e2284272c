use omx_cli::launch_args::normalize_launch_args;

fn strings(items: &[&str]) -> Vec<String> {
    items.iter().map(|s| s.to_string()).collect()
}

#[test]
fn normalizes_launch_shorthand_flags_to_codex_args() {
    assert_eq!(
        normalize_launch_args(&["--xhigh".to_string(), "--madmax".to_string()]),
        vec![
            "--dangerously-bypass-approvals-and-sandbox".to_string(),
            "-c".to_string(),
            "model_reasoning_effort=\"xhigh\"".to_string()
        ]
    );
}

#[test]
fn strips_worker_only_and_notify_temp_flags_from_leader_args() {
    assert_eq!(
        normalize_launch_args(&[
            "--notify-temp".to_string(),
            "--discord".to_string(),
            "--custom".to_string(),
            "openclaw:ops".to_string(),
            "--spark".to_string(),
            "--model".to_string(),
            "gpt-5".to_string()
        ]),
        vec!["--model".to_string(), "gpt-5".to_string()]
    );
}

#[test]
fn strips_worktree_flags_before_launching_codex() {
    assert_eq!(
        normalize_launch_args(&[
            "--worktree".to_string(),
            "feature/demo".to_string(),
            "--yolo".to_string()
        ]),
        vec!["--yolo".to_string()]
    );
    assert_eq!(
        normalize_launch_args(&[
            "--worktree=feature/demo".to_string(),
            "--model".to_string(),
            "gpt-5".to_string()
        ]),
        vec!["--model".to_string(), "gpt-5".to_string()]
    );
}

#[test]
fn normalizing_twice_changes_nothing() {
    let inputs = [
        strings(&["--xhigh", "--madmax", "--model", "gpt-5"]),
        strings(&["-w", "x", "--high", "--tmux", "--dangerously-bypass-approvals-and-sandbox", "a"]),
        strings(&["--custom", "--slack", "--madmax-spark", "--no-tmux", "b"]),
        strings(&[]),
    ];
    for args in inputs.iter() {
        let once = normalize_launch_args(args);
        let twice = normalize_launch_args(&once);
        assert_eq!(once, twice);
    }
}

#[test]
fn bypass_flag_appears_once_where_first_written() {
    assert_eq!(
        normalize_launch_args(&strings(&[
            "a",
            "--dangerously-bypass-approvals-and-sandbox",
            "--madmax",
            "--dangerously-bypass-approvals-and-sandbox",
            "b"
        ])),
        strings(&["a", "--dangerously-bypass-approvals-and-sandbox", "b"])
    );
}

#[test]
fn last_reasoning_flag_wins_and_goes_last() {
    assert_eq!(
        normalize_launch_args(&strings(&["--high", "x", "--xhigh", "--high", "y"])),
        strings(&["x", "y", "-c", "model_reasoning_effort=\"high\""])
    );
}

#[test]
fn worktree_flag_keeps_a_following_flag() {
    assert_eq!(
        normalize_launch_args(&strings(&["-w", "--model", "m", "--custom"])),
        strings(&["--model", "m"])
    );
    assert_eq!(
        normalize_launch_args(&strings(&["--custom=x", "--telegram", "--tmux", "z"])),
        strings(&["z"])
    );
}
