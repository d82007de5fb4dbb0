use pmux::new_branch_orchestrator::{session_error_text, CreationResult, CreationStep, NewBranchOrchestrator};
use pmux::notification::NotificationType;
use pmux::new_branch_dialog::{generate_unique_tmux_session_name, generate_worktree_path};
use pmux::remotes::channel::{
    check_discord_webhook, check_feishu_bot, check_kook_bot, format_remote_message, kook_ws_url,
    push_signed_decimal, RemoteMessage, RemoteSendError, TokenCache,
};
use pmux::remotes::gateway::{
    discord_command, discord_help_text, format_agents, format_status, kook_command, kook_help_text,
    plan_send, repo_worktree_id, DiscordCommand, KookCommand, SendPlan,
};
use pmux::remotes::secrets::Secrets;
use pmux::runtime::state::{RuntimeState, WorktreeState};
use pmux::terminal::content_extractor::ContentExtractor;
use pmux::terminal::cursor_coords::LogicalCursor;
use pmux::terminal::search::search_lines;
use pmux::shell_integration::ShellPhase;

fn tree(path: &str, branch: &str, backend: &str) -> WorktreeState {
    WorktreeState {
        branch: branch.to_string(),
        path: path.to_string(),
        agent_id: String::new(),
        pane_ids: vec![],
        backend: backend.to_string(),
        backend_session_id: "pmux-repo".to_string(),
        backend_window_id: "feat".to_string(),
        split_tree_json: None,
    }
}

fn api_text(e: RemoteSendError) -> String {
    match e {
        RemoteSendError::Api(m) => m,
        RemoteSendError::Http(m) => panic!("unexpected transport error {}", m),
    }
}

#[test]
fn discord_webhook_must_be_set() {
    assert_eq!(api_text(check_discord_webhook("").unwrap_err()), "webhook_url empty");
    assert!(check_discord_webhook("https://discord.com/api/webhooks/123/abc").is_ok());
}

#[test]
fn kook_settings_checked_in_order() {
    assert_eq!(api_text(check_kook_bot("", "123").unwrap_err()), "bot_token empty");
    assert_eq!(api_text(check_kook_bot("token", "").unwrap_err()), "channel_id empty");
    assert!(check_kook_bot("token", "123").is_ok());
}

#[test]
fn feishu_settings_checked_in_order() {
    assert_eq!(api_text(check_feishu_bot("", "secret", "chat").unwrap_err()), "app_id empty");
    assert_eq!(api_text(check_feishu_bot("app", "", "chat").unwrap_err()), "app_secret empty");
    assert_eq!(api_text(check_feishu_bot("app", "secret", "").unwrap_err()), "chat_id empty");
    assert!(check_feishu_bot("app", "secret", "chat").is_ok());
}

#[test]
fn remote_message_text() {
    let m = RemoteMessage {
        workspace: "repo".to_string(),
        worktree: "feat".to_string(),
        title: "Error".to_string(),
        body: "boom".to_string(),
    };
    assert_eq!(format_remote_message(&m), "[pmux] **repo** / **feat** — Error\nboom");
}

#[test]
fn kook_gateway_address() {
    assert_eq!(kook_ws_url("wss://x/gw", "T"), "wss://x/gw?compress=0&token=T");
    assert_eq!(kook_ws_url("wss://x/gw?a=1", "T"), "wss://x/gw?a=1&token=T");
}

#[test]
fn signed_numbers() {
    let mut v = Vec::new();
    push_signed_decimal(&mut v, -42);
    assert_eq!(v.iter().collect::<String>(), "-42");
    let mut v = Vec::new();
    push_signed_decimal(&mut v, i64::MIN);
    assert_eq!(v.iter().collect::<String>(), "-9223372036854775808");
}

#[test]
fn feishu_token_cache() {
    let mut cache = TokenCache::new();
    assert_eq!(cache.valid_at(0), None);
    let e = cache.accept_response(99991663, "bad", "", 7200, 0).unwrap_err();
    assert_eq!(api_text(e), "Feishu token error 99991663: bad");
    assert!(cache.token.is_none());
    let e = cache.accept_response(0, "ok", "", 7200, 0).unwrap_err();
    assert_eq!(api_text(e), "Feishu token empty");
    let t = cache.accept_response(0, "ok", "tok", 7200, 1_000).unwrap();
    assert_eq!(t, "tok");
    assert_eq!(cache.expires_at, Some(1_000 + (7200 - 300) * 1000));
    assert_eq!(cache.valid_at(1_000), Some("tok".to_string()));
    assert_eq!(cache.valid_at(1_000 + 6900 * 1000), None);
}

#[test]
fn discord_commands() {
    assert_eq!(discord_command("!pmux status"), Some(DiscordCommand::Status));
    assert_eq!(discord_command("  !pmux  "), Some(DiscordCommand::Help));
    assert_eq!(discord_command("!pmux help"), Some(DiscordCommand::Help));
    assert_eq!(discord_command("!pmux dance"), None);
    assert_eq!(discord_command("hello"), None);
    assert!(discord_help_text().contains("!pmux status"));
}

#[test]
fn kook_commands() {
    assert!(matches!(kook_command("/agents"), Some(KookCommand::Agents)));
    assert!(matches!(kook_command("!pmux status"), Some(KookCommand::Agents)));
    match kook_command("!pmux send repo-feat  hello   world") {
        Some(KookCommand::Send(a)) => assert_eq!(a, "repo-feat hello world"),
        _ => panic!("expected send"),
    }
    assert!(matches!(kook_command("/pmux help"), Some(KookCommand::Help)));
    assert!(kook_command("/pmux jump").is_none());
    assert!(kook_command("hi").is_none());
    assert!(kook_help_text().contains("send"));
}

#[test]
fn status_and_agents_replies() {
    let empty = RuntimeState::new();
    assert_eq!(format_status(&empty), "No workspaces.");
    assert_eq!(format_agents(&empty), "No agents.");
    let mut state = RuntimeState::new();
    state.upsert_worktree("/w/repo", tree("/w/repo/feat", "feat", "tmux"));
    assert_eq!(format_status(&state), "**pmux status**\n📁 **repo**\n  └ feat (`feat`)");
    assert_eq!(repo_worktree_id("/w/repo", &tree("/w/repo/feat", "feat", "tmux")), "repo-feat");
    assert!(format_agents(&state).contains("• `repo-feat`"));
}

#[test]
fn send_plans() {
    let mut state = RuntimeState::new();
    state.upsert_worktree("/w/repo", tree("/w/repo/feat", "feat", "tmux"));
    state.upsert_worktree("/w/repo", tree("/w/repo/loc", "loc", "local"));
    match plan_send(&state, "repo-feat") {
        SendPlan::Reply(t) => assert_eq!(t, "Usage: !pmux send <repo-worktree> <message>"),
        _ => panic!("expected usage"),
    }
    match plan_send(&state, "nobody hi") {
        SendPlan::Reply(t) => assert_eq!(t, "Agent `nobody` not found. Use `/agents` to list."),
        _ => panic!("expected not found"),
    }
    match plan_send(&state, "repo-loc hi") {
        SendPlan::Reply(t) => assert!(t.contains("only supported for tmux")),
        _ => panic!("expected refusal"),
    }
    match plan_send(&state, "repo-feat run\ntests") {
        SendPlan::Run { target, tmux_target, text } => {
            assert_eq!(target, "repo-feat");
            assert_eq!(tmux_target, "pmux-repo:feat");
            assert_eq!(text, "run tests");
        }
        _ => panic!("expected a run"),
    }
}

#[test]
fn default_secrets_are_empty() {
    let s = Secrets::default();
    assert!(s.remote_channels.discord.bot_token.is_none());
    assert!(s.remote_channels.kook.bot_token.is_none());
    assert!(s.remote_channels.feishu.app_id.is_none());
}

#[test]
fn test_orchestrator_creation() {
    let orchestrator = NewBranchOrchestrator::new("/tmp/test");
    assert_eq!(orchestrator.repo_path, "/tmp/test");
}

#[test]
fn test_validate_valid_branch_name() {
    let orchestrator = NewBranchOrchestrator::new("/tmp/test");
    assert!(orchestrator.validate_branch_name("feature/test").is_ok());
}

#[test]
fn test_validate_invalid_branch_name() {
    let orchestrator = NewBranchOrchestrator::new("/tmp/test");
    assert!(orchestrator.validate_branch_name("feature test").is_err());
}

#[test]
fn test_worktree_path_generation() {
    let worktree_path = generate_worktree_path("/tmp/project", "feature/test");
    assert_eq!(worktree_path, "/tmp/project/feature-test");
}

#[test]
fn test_tmux_session_name_generation() {
    let session_name = generate_unique_tmux_session_name("/tmp/project/feature-test");
    assert!(!session_name.is_empty());
    assert!(session_name.starts_with("pmux-"));
}

#[test]
fn orchestrator_steps() {
    let o = NewBranchOrchestrator::new("/tmp/project");
    assert!(matches!(o.start("bad name"), CreationStep::Finish { result: CreationResult::ValidationFailed { .. }, notification: None }));
    assert!(matches!(o.start("feat/x"), CreationStep::CheckBranch));
    assert!(matches!(o.after_branch_check("feat/x", true), CreationStep::Finish { result: CreationResult::BranchExists { .. }, .. }));
    match o.after_branch_check("feat/x", false) {
        CreationStep::CreateWorktree { worktree_path } => assert_eq!(worktree_path, "/tmp/project/feat-x"),
        _ => panic!("expected worktree creation"),
    }
    match o.after_worktree("feat/x", false, None) {
        CreationStep::Finish { result: CreationResult::GitFailed { error }, .. } => assert_eq!(error, "Unknown error"),
        _ => panic!("expected git failure"),
    }
    match o.after_session("feat/x", Ok(())) {
        CreationStep::Finish { result: CreationResult::Success { worktree_path, .. }, notification: Some((t, n)) } => {
            assert_eq!(worktree_path, "/tmp/project/feat-x");
            assert_eq!(t, NotificationType::Info);
            assert_eq!(n, "Created branch 'feat/x' and worktree");
        }
        _ => panic!("expected success"),
    }
    match o.after_session("feat/x", Err("no server")) {
        CreationStep::Finish { result: CreationResult::TmuxFailed { error, .. }, notification: Some((t, _)) } => {
            assert_eq!(error, "Failed to create tmux session: no server");
            assert_eq!(t, NotificationType::Error);
        }
        _ => panic!("expected tmux failure"),
    }
    assert_eq!(session_error_text("s", "e"), "Failed to create tmux session 's': e");
}

#[test]
fn content_extractor_tracks_phase_and_text() {
    let mut x = ContentExtractor::new();
    x.feed(b"\x1b]133;C\x07hello \x1b[31mworld\x1b[0m\n");
    assert_eq!(x.shell_phase(), ShellPhase::Running);
    let (text, ()) = x.take_content();
    assert_eq!(text, "hello world\n");
    let (text, ()) = x.take_content();
    assert_eq!(text, "");
}

#[test]
fn cursor_conversions() {
    let c = LogicalCursor { line: -3, col: 4 };
    let v = c.to_visual(2);
    assert_eq!(v.line, -5);
    assert_eq!(v.col, 4);
    assert_eq!(c.to_tmux(1).row, 0);
    assert_eq!(c.to_tmux(5).row, 2);
}

#[test]
fn search_visible_lines() {
    let lines = vec!["abcabc".to_string(), "xx".to_string(), "aaaa".to_string(), "é ab".to_string()];
    assert!(search_lines(&lines, "").is_empty());
    assert!(search_lines(&lines, "zzz_no_match").is_empty());
    let m = search_lines(&lines, "ab");
    let got: Vec<(i32, usize, usize)> = m.iter().map(|x| (x.line, x.col, x.len)).collect();
    assert_eq!(got, vec![(0, 0, 2), (0, 3, 2), (3, 3, 2)]);
    let m = search_lines(&lines, "aa");
    let got: Vec<(i32, usize)> = m.iter().map(|x| (x.line, x.col)).collect();
    assert_eq!(got, vec![(2, 0), (2, 2)]);
}
