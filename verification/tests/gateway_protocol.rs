use pmux::remotes::channel::{check_api_reply, RemoteSendError};
use pmux::remotes::gateway::{DiscordCommand, KookCommand};
use pmux::remotes::protocol::{
    kook_gateway_url, DiscordAction, DiscordFrame, DiscordSession, KookAction, KookFrame, KookSession,
    DISCORD_DEFAULT_HEARTBEAT_MS,
};

fn discord_frame(op: Option<u64>, seq: Option<u64>) -> DiscordFrame {
    DiscordFrame { op, seq, heartbeat_interval: None, event: None, channel_id: None, content: None }
}

fn discord_message(channel: &str, content: &str) -> DiscordFrame {
    DiscordFrame {
        op: Some(0),
        seq: Some(7),
        heartbeat_interval: None,
        event: Some("MESSAGE_CREATE".to_string()),
        channel_id: Some(channel.to_string()),
        content: Some(content.to_string()),
    }
}

fn kook_message(target: &str, channel_type: &str, author: &str, msg_type: i64, content: &str) -> KookFrame {
    KookFrame {
        s: Some(0),
        sn: Some(3),
        code: None,
        target_id: Some(target.to_string()),
        channel_type: Some(channel_type.to_string()),
        author_is_bot: Some(false),
        msg_type: Some(msg_type),
        author_id: Some(author.to_string()),
        content: Some(content.to_string()),
    }
}

fn api_message(r: Result<(), RemoteSendError>) -> String {
    match r {
        Err(RemoteSendError::Api(m)) => m,
        other => panic!("expected an API error, got {:?}", other),
    }
}

#[test]
fn test_discord_hello_identifies_with_its_interval() {
    let mut s = DiscordSession::new();
    let mut f = discord_frame(Some(10), None);
    f.heartbeat_interval = Some(45000);
    assert_eq!(s.on_frame(&f, "c1"), DiscordAction::Identify { heartbeat_interval_ms: 45000 });
    let g = discord_frame(Some(10), None);
    assert_eq!(s.on_frame(&g, "c1"), DiscordAction::Identify { heartbeat_interval_ms: DISCORD_DEFAULT_HEARTBEAT_MS });
    assert_eq!(DISCORD_DEFAULT_HEARTBEAT_MS, 41250);
}

#[test]
fn test_discord_message_in_channel_is_answered() {
    let mut s = DiscordSession::new();
    assert_eq!(s.on_frame(&discord_message("c1", "  !pmux status "), "c1"), DiscordAction::Answer(DiscordCommand::Status));
    assert_eq!(s.last_seq, 7);
    assert_eq!(s.on_frame(&discord_message("c1", "!pmux"), "c1"), DiscordAction::Answer(DiscordCommand::Help));
    assert_eq!(s.on_frame(&discord_message("c1", "hello"), "c1"), DiscordAction::Ignore);
}

#[test]
fn test_discord_message_elsewhere_is_ignored() {
    let mut s = DiscordSession::new();
    assert_eq!(s.on_frame(&discord_message("other", "!pmux status"), "c1"), DiscordAction::Ignore);
    let mut f = discord_message("c1", "!pmux status");
    f.event = Some("MESSAGE_UPDATE".to_string());
    assert_eq!(s.on_frame(&f, "c1"), DiscordAction::Ignore);
    assert_eq!(s.on_frame(&discord_frame(Some(11), None), "c1"), DiscordAction::Ignore);
}

#[test]
fn test_discord_heartbeat_carries_last_sequence() {
    let mut s = DiscordSession::new();
    assert_eq!(s.heartbeat(), "{\"d\":null,\"op\":1}");
    s.on_frame(&discord_frame(Some(0), Some(42)), "c1");
    assert_eq!(s.heartbeat(), "{\"d\":42,\"op\":1}");
    s.on_frame(&discord_frame(Some(11), None), "c1");
    assert_eq!(s.last_seq, 42);
}

#[test]
fn test_kook_hello() {
    let mut s = KookSession::new();
    let ok = KookFrame {
        s: Some(1), sn: None, code: Some(0), target_id: None, channel_type: None,
        author_is_bot: None, msg_type: None, author_id: None, content: None,
    };
    assert!(matches!(s.on_frame(&ok, "c1"), KookAction::StartPing));
    let refused = KookFrame { code: Some(40103), ..ok.clone() };
    match s.on_frame(&refused, "c1") {
        KookAction::Fail(m) => assert_eq!(m, "KOOK gateway auth failed: code 40103"),
        other => panic!("unexpected {:?}", other),
    }
    let no_code = KookFrame { code: None, ..ok };
    match s.on_frame(&no_code, "c1") {
        KookAction::Fail(m) => assert_eq!(m, "KOOK gateway auth failed: code -1"),
        other => panic!("unexpected {:?}", other),
    }
}

#[test]
fn test_kook_channel_message_answered_in_channel() {
    let mut s = KookSession::new();
    match s.on_frame(&kook_message("c1", "GROUP", "u9", 9, " /agents "), "c1") {
        KookAction::Answer { target, command } => {
            assert_eq!(target, "c1");
            assert!(matches!(command, KookCommand::Agents));
        }
        other => panic!("unexpected {:?}", other),
    }
    assert_eq!(s.last_sn, 3);
}

#[test]
fn test_kook_direct_message_answered_to_author() {
    let mut s = KookSession::new();
    match s.on_frame(&kook_message("me", "PERSON", "u9", 1, "!pmux send repo-main hi there"), "c1") {
        KookAction::Answer { target, command: KookCommand::Send(args) } => {
            assert_eq!(target, "u9");
            assert_eq!(args, "repo-main hi there");
        }
        other => panic!("unexpected {:?}", other),
    }
    assert!(matches!(s.on_frame(&kook_message("me", "PERSON", "", 1, "!pmux help"), "c1"), KookAction::Ignore));
    assert!(matches!(s.on_frame(&kook_message("other", "GROUP", "u9", 1, "!pmux help"), "c1"), KookAction::Ignore));
}

#[test]
fn test_kook_ignores_bots_other_types_and_non_commands() {
    let mut s = KookSession::new();
    let mut bot = kook_message("c1", "GROUP", "u9", 1, "!pmux help");
    bot.author_is_bot = Some(true);
    assert!(matches!(s.on_frame(&bot, "c1"), KookAction::Ignore));
    assert!(matches!(s.on_frame(&kook_message("c1", "GROUP", "u9", 2, "!pmux help"), "c1"), KookAction::Ignore));
    assert!(matches!(s.on_frame(&kook_message("c1", "GROUP", "u9", 1, "hello"), "c1"), KookAction::Ignore));
    let pong = KookFrame { s: Some(3), ..kook_message("c1", "GROUP", "u9", 1, "!pmux help") };
    assert!(matches!(s.on_frame(&pong, "c1"), KookAction::Ignore));
}

#[test]
fn test_kook_ping_carries_last_serial() {
    let mut s = KookSession::new();
    assert_eq!(s.ping(), "{\"s\":2,\"sn\":0}");
    s.on_frame(&kook_message("x", "GROUP", "u", 1, "hi"), "c1");
    assert_eq!(s.ping(), "{\"s\":2,\"sn\":3}");
}

#[test]
fn test_kook_gateway_url_from_reply() {
    assert_eq!(kook_gateway_url(Some(0), None, Some("wss://ws.kookapp.cn/gateway")).unwrap(), "wss://ws.kookapp.cn/gateway");
    match kook_gateway_url(Some(0), None, None) {
        Err(RemoteSendError::Api(m)) => assert_eq!(m, "KOOK gateway url missing"),
        other => panic!("unexpected {:?}", other),
    }
    match kook_gateway_url(Some(401), Some("unauthorized"), Some("wss://x")) {
        Err(RemoteSendError::Api(m)) => assert_eq!(m, "KOOK gateway index error 401: unauthorized"),
        other => panic!("unexpected {:?}", other),
    }
}

#[test]
fn test_check_api_reply_codes() {
    assert!(check_api_reply("KOOK API error ", Some(0), Some("ok")).is_ok());
    assert_eq!(api_message(check_api_reply("KOOK API error ", Some(40000), Some("bad target"))), "KOOK API error 40000: bad target");
    assert_eq!(api_message(check_api_reply("Feishu API ", None, None)), "Feishu API -1: unknown");
}
