use pmux::agent_status::AgentStatus;
use pmux::runtime::agent_runtime::{AgentStateChange, RuntimeError, TerminalEvent};
use pmux::runtime::backends::tmux::{
    merge_queued_input, new_window_args, window_needed,
    pane_tty_path, target_pane_id,
    escape_for_tmux_send_keys, is_enter_input, key_input_bytes, pane_target,
    parse_pane_dimensions, parse_pane_ids, prepare_initial_content, review_window_name,
    tmux_key_to_bytes,
};
use pmux::runtime::backends::tmux_control_mode::{
    build_hex_send_keys, build_send_keys_commands, strip_tmux_title_sequences, unescape_tmux_output, ControlModeEvent,
    ControlModeParser,
};
use pmux::runtime::backends::{
    choose_backend, plan_runtime, recovery_target, session_name_for_workspace, window_name_for_worktree,
    window_target, RuntimePlan, DEFAULT_BACKEND,
};
use pmux::runtime::state::{RuntimeState, WorktreeState};

fn worktree(backend: &str, panes: Vec<&str>) -> WorktreeState {
    WorktreeState {
        branch: "main".to_string(),
        path: "/repo".to_string(),
        agent_id: "pmux-repo:main".to_string(),
        pane_ids: panes.into_iter().map(|p| p.to_string()).collect(),
        backend: backend.to_string(),
        backend_session_id: "pmux-repo".to_string(),
        backend_window_id: "@0".to_string(),
        split_tree_json: None,
    }
}

#[test]
fn test_runtime_error_display() {
    let err = RuntimeError::Backend("test".to_string());
    assert!(err.message().contains("test"));
}

#[test]
fn test_terminal_event_creation() {
    let ev = TerminalEvent { bytes: vec![1, 2, 3], pane_id: "%0".to_string(), timestamp: 0 };
    assert_eq!(ev.pane_id, "%0");
    assert_eq!(ev.bytes.len(), 3);
}

#[test]
fn test_agent_state_change_creation() {
    let ev = AgentStateChange { agent_id: "agent-1".to_string(), state: AgentStatus::Running };
    assert_eq!(ev.agent_id, "agent-1");
}

#[test]
fn test_default_backend_is_local() {
    assert_eq!(DEFAULT_BACKEND, "local");
}

#[test]
fn backend_choice_order() {
    assert_eq!(choose_backend(None, None), "local");
    assert_eq!(choose_backend(Some("tmux"), Some("local")), "tmux");
    assert_eq!(choose_backend(None, Some("tmux")), "tmux");
    assert_eq!(choose_backend(Some("local"), Some("tmux")), "local");
    assert_eq!(choose_backend(None, Some("docker")), DEFAULT_BACKEND);
}

#[test]
fn test_recover_runtime_unknown_backend() {
    let state = worktree("unknown", vec![]);
    let result = recovery_target("unknown_backend", &state);
    assert!(result.is_err());
}

#[test]
fn test_recover_runtime_local_pty_not_supported() {
    let state = worktree("local", vec![]);
    let result = recovery_target("local", &state);
    match result {
        Err(e) => assert!(e.message().contains("does not support")),
        Ok(_) => panic!("a local terminal cannot be reattached"),
    }
}

#[test]
fn recover_tmux_gives_session_and_window() {
    let state = worktree("tmux", vec!["%0"]);
    let (s, w) = recovery_target("tmux", &state).ok().unwrap();
    assert_eq!(s, "pmux-repo");
    assert_eq!(w, "@0");
}

#[test]
fn session_and_window_names() {
    assert_eq!(session_name_for_workspace("/foo/repo"), "pmux-repo");
    assert_eq!(session_name_for_workspace("/"), "pmux-default");
    assert_eq!(window_name_for_worktree("/foo/repo", ""), "main");
    assert_eq!(window_name_for_worktree("/foo/repo", "feat/x y"), "feat-x-y");
    assert_eq!(window_target("/foo/repo", "main"), "pmux-repo:main");
}

#[test]
fn runtime_plan_falls_back_without_tmux() {
    match plan_runtime("tmux", false, "/r", "/r", "main") {
        RuntimePlan::Local { fallback_message: Some(m) } => assert!(m.contains("local")),
        _ => panic!("expected a local fallback"),
    }
    match plan_runtime("tmux", true, "/w/r", "/w/r", "feat") {
        RuntimePlan::Tmux { session_name, window_name } => {
            assert_eq!(session_name, "pmux-r");
            assert_eq!(window_name, "feat");
        }
        _ => panic!("expected tmux"),
    }
    assert!(matches!(plan_runtime("local", true, "/r", "/r", "m"), RuntimePlan::Local { fallback_message: None }));
}

#[test]
fn test_tmux_runtime_new() {
    assert_eq!(pane_target("pmux-test", "main", "%0"), "pmux-test:main.%0");
}

#[test]
fn test_tmux_runtime_pane_target() {
    assert_eq!(pane_target("mysession", "mywindow", "%1"), "mysession:mywindow.%1");
}

#[test]
fn test_escape_for_tmux_send_keys() {
    assert_eq!(escape_for_tmux_send_keys("hello"), "hello");
    assert_eq!(escape_for_tmux_send_keys("it's"), "it\\'s");
    assert_eq!(escape_for_tmux_send_keys("path\\to"), "path\\\\to");
}

#[test]
fn test_tmux_key_to_bytes() {
    assert_eq!(tmux_key_to_bytes("Enter"), Some(vec![b'\r', b'\n']));
    assert_eq!(tmux_key_to_bytes("Tab"), Some(vec![b'\t']));
    assert_eq!(tmux_key_to_bytes("Up"), Some(vec![0x1b, b'[', b'A']));
    assert_eq!(tmux_key_to_bytes("Down"), Some(vec![0x1b, b'[', b'B']));
    assert_eq!(tmux_key_to_bytes("Escape"), Some(vec![0x1b]));
    assert_eq!(tmux_key_to_bytes("unknown"), None);
}

#[test]
fn test_tmux_runtime_get_pane_dimensions_invalid() {
    assert_eq!(parse_pane_dimensions(""), (80, 24));
    assert_eq!(parse_pane_dimensions("120 40\n"), (120, 40));
    assert_eq!(parse_pane_dimensions("x 40"), (80, 24));
}

#[test]
fn tmux_helpers() {
    assert!(is_enter_input(b"\r"));
    assert!(is_enter_input(b"\r\n"));
    assert!(!is_enter_input(b"a\r"));
    assert_eq!(key_input_bytes("Up", false), vec![0x1b, b'[', b'A']);
    assert_eq!(key_input_bytes("Up", true), b"Up".to_vec());
    assert_eq!(parse_pane_ids(" %0\n\n%1 \n"), vec!["%0".to_string(), "%1".to_string()]);
    assert_eq!(review_window_name("feat/a b"), "review-feat-a-b");
    assert_eq!(prepare_initial_content(&b"\n\n".to_vec()), None);
    assert_eq!(prepare_initial_content(&b"$ ls\n\n".to_vec()), Some(b"$ ls".to_vec()));
}

#[test]
fn test_parse_output_event() {
    let mut parser = ControlModeParser::new();
    let events = parser.feed(b"%output %0 hello world\n");
    assert_eq!(events.len(), 1);
    match &events[0] {
        ControlModeEvent::Output { pane_id, data } => {
            assert_eq!(pane_id, "%0");
            assert_eq!(data, b"hello world");
        }
        _ => panic!("expected Output event, got {:?}", events[0]),
    }
}

#[test]
fn test_parse_output_unescapes_octal() {
    let mut parser = ControlModeParser::new();
    let events = parser.feed(b"%output %0 \\033[32mhello\\033[0m\\015\\012\n");
    assert_eq!(events.len(), 1);
    match &events[0] {
        ControlModeEvent::Output { pane_id, data } => {
            assert_eq!(pane_id, "%0");
            assert_eq!(data, b"\x1b[32mhello\x1b[0m\r\n");
        }
        _ => panic!("expected Output event, got {:?}", events[0]),
    }
}

#[test]
fn test_parse_output_unescapes_backslash() {
    let mut parser = ControlModeParser::new();
    let events = parser.feed(b"%output %0 path\\\\to\\\\file\n");
    assert_eq!(events.len(), 1);
    match &events[0] {
        ControlModeEvent::Output { pane_id, data } => {
            assert_eq!(pane_id, "%0");
            assert_eq!(data, b"path\\to\\file");
        }
        _ => panic!("expected Output event, got {:?}", events[0]),
    }
}

#[test]
fn test_unescape_tmux_output() {
    assert_eq!(unescape_tmux_output(b"hello"), b"hello");
    assert_eq!(unescape_tmux_output(b"\\033"), b"\x1b");
    assert_eq!(unescape_tmux_output(b"\\\\"), b"\\");
    assert_eq!(unescape_tmux_output(b"a\\015\\012b"), b"a\r\nb");
    assert_eq!(unescape_tmux_output(b"\\177"), b"\x7f");
    assert_eq!(unescape_tmux_output(b"\\01"), b"\\01");
}

#[test]
fn test_parse_exit_event() {
    let mut parser = ControlModeParser::new();
    let events = parser.feed(b"%exit\n");
    assert_eq!(events.len(), 1);
    assert!(matches!(events[0], ControlModeEvent::Exit));
}

#[test]
fn test_parse_partial_line() {
    let mut parser = ControlModeParser::new();
    let events1 = parser.feed(b"%output %0 hel");
    assert!(events1.is_empty(), "partial line should not emit events");
    let events2 = parser.feed(b"lo\n");
    assert_eq!(events2.len(), 1);
    match &events2[0] {
        ControlModeEvent::Output { pane_id, data } => {
            assert_eq!(pane_id, "%0");
            assert_eq!(data, b"hello");
        }
        _ => panic!("expected Output event"),
    }
}

#[test]
fn test_parse_begin_end() {
    let mut parser = ControlModeParser::new();
    let events = parser.feed(b"%begin 1234567890 1 0\nsome response\n%end 1234567890 1 0\n");
    assert!(
        events.iter().any(|e| matches!(e, ControlModeEvent::BeginEnd { .. })),
        "should have BeginEnd event, got: {:?}",
        events
    );
}

#[test]
fn test_parse_session_changed() {
    let mut parser = ControlModeParser::new();
    let events = parser.feed(b"%session-changed $1 mysession\n");
    assert_eq!(events.len(), 1);
    match &events[0] {
        ControlModeEvent::SessionChanged { session_id, name } => {
            assert_eq!(session_id, "$1");
            assert_eq!(name, "mysession");
        }
        _ => panic!("expected SessionChanged"),
    }
}

#[test]
fn test_parse_multiple_outputs() {
    let mut parser = ControlModeParser::new();
    let events = parser.feed(b"%output %0 line1\n%output %1 line2\n%exit\n");
    assert_eq!(events.len(), 3);
    assert!(matches!(&events[0], ControlModeEvent::Output { pane_id, .. } if pane_id == "%0"));
    assert!(matches!(&events[1], ControlModeEvent::Output { pane_id, .. } if pane_id == "%1"));
    assert!(matches!(&events[2], ControlModeEvent::Exit));
}

#[test]
fn window_title_sequences_are_dropped() {
    assert_eq!(strip_tmux_title_sequences(&b"a\x1bktitle\x1b\\b".to_vec()), b"ab".to_vec());
    assert_eq!(strip_tmux_title_sequences(&b"a\x1bkt\x07b".to_vec()), b"ab".to_vec());
}

#[test]
fn test_build_hex_send_keys_empty() {
    let cmds = build_hex_send_keys("%0", &[]);
    assert!(cmds.is_empty());
}

#[test]
fn test_build_hex_send_keys_printable() {
    let cmds = build_hex_send_keys("%0", b"hello");
    assert_eq!(cmds.len(), 1);
    assert_eq!(cmds[0], "send-keys -H -t %0 68 65 6c 6c 6f");
}

#[test]
fn test_build_hex_send_keys_with_enter() {
    let cmds = build_hex_send_keys("%0", b"ls\r");
    assert_eq!(cmds.len(), 1);
    assert_eq!(cmds[0], "send-keys -H -t %0 6c 73 0d");
}

#[test]
fn test_build_hex_send_keys_escape_sequence() {
    let cmds = build_hex_send_keys("%0", b"\x1b[A");
    assert_eq!(cmds.len(), 1);
    assert_eq!(cmds[0], "send-keys -H -t %0 1b 5b 41");
}

#[test]
fn test_build_hex_send_keys_ctrl_c() {
    let cmds = build_hex_send_keys("%0", b"\x03");
    assert_eq!(cmds.len(), 1);
    assert_eq!(cmds[0], "send-keys -H -t %0 03");
}

#[test]
fn test_build_hex_send_keys_utf8() {
    let cmds = build_hex_send_keys("%0", "你".as_bytes());
    assert_eq!(cmds.len(), 1);
    assert_eq!(cmds[0], "send-keys -H -t %0 e4 bd a0");
}

#[test]
fn test_build_hex_send_keys_chunking() {
    let data = vec![0x61u8; 600];
    let cmds = build_hex_send_keys("%0", &data);
    assert_eq!(cmds.len(), 2);
    let hex_count_1 = cmds[0].trim_start_matches("send-keys -H -t %0 ").split_whitespace().count();
    assert_eq!(hex_count_1, 512);
    let hex_count_2 = cmds[1].trim_start_matches("send-keys -H -t %0 ").split_whitespace().count();
    assert_eq!(hex_count_2, 88);
}

#[test]
fn test_runtime_state_default() {
    let state = RuntimeState::default();
    assert!(state.workspaces.is_empty());
}

#[test]
fn test_upsert_worktree_new_workspace() {
    let mut state = RuntimeState::default();
    state.upsert_worktree("/repo", worktree("tmux", vec!["%0"]));
    assert_eq!(state.workspaces.len(), 1);
    assert_eq!(state.workspaces[0].worktrees.len(), 1);
    assert_eq!(state.workspaces[0].worktrees[0].branch, "main");
}

#[test]
fn test_upsert_worktree_update_existing() {
    let mut state = RuntimeState::default();
    state.upsert_worktree("/repo", worktree("tmux", vec!["%0"]));
    state.upsert_worktree("/repo", worktree("tmux", vec!["%0", "%1"]));
    assert_eq!(state.workspaces[0].worktrees.len(), 1);
    assert_eq!(state.workspaces[0].worktrees[0].pane_ids.len(), 2);
}

#[test]
fn test_find_workspace() {
    let mut state = RuntimeState::default();
    state.upsert_worktree("/repo", worktree("tmux", vec![]));
    let ws = state.find_workspace("/repo");
    assert!(ws.is_some());
    assert!(state.find_workspace("/other").is_none());
}

#[test]
fn upsert_twice_is_upsert_once() {
    let mut a = RuntimeState::default();
    a.upsert_worktree("/repo", worktree("tmux", vec!["%0"]));
    let mut b = RuntimeState::default();
    b.upsert_worktree("/repo", worktree("tmux", vec!["%0"]));
    b.upsert_worktree("/repo", worktree("tmux", vec!["%0"]));
    assert_eq!(a.workspaces.len(), b.workspaces.len());
    assert_eq!(a.workspaces[0].worktrees.len(), b.workspaces[0].worktrees.len());
}

#[test]
fn find_workspace_mut_changes_in_place() {
    let mut state = RuntimeState::default();
    state.upsert_worktree("/repo", worktree("tmux", vec!["%0"]));
    state.upsert_worktree("/other", worktree("tmux", vec![]));
    match state.find_workspace_mut("/repo") {
        Some(ws) => ws.worktrees.clear(),
        None => panic!("the workspace was recorded"),
    }
    assert!(state.workspaces[0].worktrees.is_empty());
    assert_eq!(state.workspaces[1].path, "/other");
    assert!(state.find_workspace_mut("/missing").is_none());
}

#[test]
fn send_keys_commands_split_text_and_keys() {
    assert!(build_send_keys_commands("%0", b"").is_empty());
    assert_eq!(
        build_send_keys_commands("%0", b"ls -la\r"),
        vec!["send-keys -l -t %0 'ls -la'".to_string(), "send-keys -t %0 Enter".to_string()]
    );
    assert_eq!(build_send_keys_commands("%0", b"it's"), vec!["send-keys -l -t %0 'it'\\''s'".to_string()]);
    assert_eq!(
        build_send_keys_commands("%1", b"\x1b[A\x03\t\x7f"),
        vec![
            "send-keys -t %1 Up".to_string(),
            "send-keys -t %1 C-c".to_string(),
            "send-keys -t %1 Tab".to_string(),
            "send-keys -t %1 BSpace".to_string(),
        ]
    );
    assert_eq!(
        build_send_keys_commands("%0", b"\x1b[5~\x1b[9~"),
        vec![
            "send-keys -t %0 PPage".to_string(),
            "send-keys -t %0 Escape".to_string(),
            "send-keys -l -t %0 '[9~'".to_string(),
        ]
    );
    assert_eq!(build_send_keys_commands("%0", "é".as_bytes()), vec!["send-keys -l -t %0 'é'".to_string()]);
}

#[test]
fn test_target_pane_id_takes_last_part() {
    assert_eq!(target_pane_id("pmux-repo:feat.%3"), "%3");
    assert_eq!(target_pane_id("a.b.c"), "c");
    assert_eq!(target_pane_id("%7"), "%7");
    assert_eq!(target_pane_id("ends."), "");
}

#[test]
fn test_pane_tty_path_from_tmux_answer() {
    assert_eq!(pane_tty_path(true, "/dev/ttys004\n", "").unwrap(), "/dev/ttys004");
    match pane_tty_path(false, "", "  can't find pane: %9\n") {
        Err(RuntimeError::Backend(m)) => assert_eq!(m, "tmux display failed: can't find pane: %9"),
        other => panic!("unexpected {:?}", other),
    }
    match pane_tty_path(true, " \n", "") {
        Err(RuntimeError::Backend(m)) => assert_eq!(m, "tmux returned empty pane_tty"),
        other => panic!("unexpected {:?}", other),
    }
}

#[test]
fn test_window_needed_after_duplicate_session() {
    assert!(!window_needed(true, "", None, "feat"));
    assert!(!window_needed(false, "some other failure", None, "feat"));
    assert!(window_needed(false, "duplicate session: pmux-repo\n", None, "feat"));
    assert!(window_needed(false, "duplicate session: pmux-repo", Some("main\nother\n"), "feat"));
    assert!(!window_needed(false, "duplicate session: pmux-repo", Some("main\n feat \n"), "feat"));
}

#[test]
fn test_new_window_args() {
    assert_eq!(new_window_args("s", "w", None), vec!["new-window", "-d", "-t", "s", "-n", "w"]);
    assert_eq!(new_window_args("s", "w", Some("/tmp/x")), vec!["new-window", "-d", "-t", "s", "-n", "w", "-c", "/tmp/x"]);
}

#[test]
fn test_merge_queued_input_joins_neighbours() {
    let q = vec![
        ("%1".to_string(), b"a".to_vec()),
        ("%1".to_string(), b"b".to_vec()),
        ("%2".to_string(), b"c".to_vec()),
        ("%1".to_string(), b"d".to_vec()),
    ];
    assert_eq!(
        merge_queued_input(q),
        vec![("%1".to_string(), b"ab".to_vec()), ("%2".to_string(), b"c".to_vec()), ("%1".to_string(), b"d".to_vec())]
    );
    assert!(merge_queued_input(vec![]).is_empty());
}
