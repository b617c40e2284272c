use omx_cli::tmux_panes::{
    build_detached_session_name, cleanup_targets, is_hud_watch_pane, parse_pane_id,
    parse_session_name, parse_tmux_pane_snapshot, select_hud_watch_panes, TmuxPaneSnapshot,
};

fn pane(id: &str, current: &str, start: &str) -> TmuxPaneSnapshot {
    TmuxPaneSnapshot {
        pane_id: id.to_string(),
        pane_current_command: current.to_string(),
        pane_start_command: start.to_string(),
    }
}

#[test]
fn parses_pane_listing() {
    let raw = "%1\tzsh\t/bin/zsh -l\n%9\tomx\t'/bin/sh' -lc 'exec /tmp/omx hud --watch'\n";
    assert_eq!(
        parse_tmux_pane_snapshot(raw),
        vec![
            pane("%1", "zsh", "/bin/zsh -l"),
            pane("%9", "omx", "'/bin/sh' -lc 'exec /tmp/omx hud --watch'"),
        ]
    );
}

#[test]
fn pane_listing_trims_fields_and_skips_short_lines() {
    let raw = " %2 \t bash\t a\tb \r\nno tabs here\n%3\tonly one\n\n%4\t\t\n";
    assert_eq!(
        parse_tmux_pane_snapshot(raw),
        vec![pane("%2", "bash", "a\tb"), pane("%4", "", "")]
    );
    assert!(parse_tmux_pane_snapshot("").is_empty());
}

#[test]
fn recognises_watching_hud_panes() {
    assert!(is_hud_watch_pane(&pane("%9", "omx", "'/bin/sh' -lc 'exec /tmp/omx hud --watch'")));
    assert!(is_hud_watch_pane(&pane("%9", "node", "OMX HUD --WATCH")));
    assert!(!is_hud_watch_pane(&pane("%9", "omx", "omx hud")));
    assert!(!is_hud_watch_pane(&pane("%9", "hud", "--watch only")));
}

#[test]
fn selects_hud_panes_other_than_current() {
    let raw = "%1\tzsh\t/bin/zsh -l\n%9\tomx\t'/bin/sh' -lc 'exec /tmp/omx hud --watch'\n%5\tomx\tomx hud --watch\n";
    assert_eq!(select_hud_watch_panes(raw, Some("%1")), vec!["%9".to_string(), "%5".to_string()]);
    assert_eq!(select_hud_watch_panes(raw, Some("%5")), vec!["%9".to_string()]);
    assert_eq!(select_hud_watch_panes(raw, None), vec!["%9".to_string(), "%5".to_string()]);
}

#[test]
fn parses_printed_pane_id() {
    assert_eq!(parse_pane_id("%77\n"), Some("%77".to_string()));
    assert_eq!(parse_pane_id("  %4 \nrest"), Some("%4".to_string()));
    assert_eq!(parse_pane_id("77\n"), None);
    assert_eq!(parse_pane_id(""), None);
    assert_eq!(parse_pane_id("\n%5"), None);
}

#[test]
fn parses_printed_session_name() {
    assert_eq!(parse_session_name("fixture-session\n"), Some("fixture-session".to_string()));
    assert_eq!(parse_session_name(" \n\t"), None);
}

#[test]
fn cleanup_adds_created_pane_once() {
    let listed = vec!["%9".to_string()];
    assert_eq!(cleanup_targets(listed.clone(), Some("%77".to_string())), vec!["%9".to_string(), "%77".to_string()]);
    assert_eq!(cleanup_targets(listed.clone(), Some("%9".to_string())), vec!["%9".to_string()]);
    assert_eq!(cleanup_targets(listed, None), vec!["%9".to_string()]);
}

#[test]
fn detached_session_names() {
    assert_eq!(build_detached_session_name(Some("my proj.v2"), 1700000000123), "omx-my-proj-v2-1700000000123");
    assert_eq!(build_detached_session_name(None, 0), "omx-omx-0");
    assert_eq!(build_detached_session_name(Some("é"), 7), "omx---7");
}
