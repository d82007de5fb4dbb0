use pmux::remotes::channel::{DiscordChannel, FeishuBot, KookBot, RemoteSendError};

#[test]
fn test_discord_channel_new_empty_fails() {
    assert!(DiscordChannel::new(String::new()).is_err());
}

#[test]
fn test_discord_channel_new_valid() {
    let c = DiscordChannel::new("https://discord.com/api/webhooks/123/abc".to_string()).unwrap();
    assert_eq!(c.name(), "discord");
}

#[test]
fn test_kook_bot_new_empty_token_fails() {
    assert!(KookBot::new(String::new(), "123".to_string()).is_err());
}

#[test]
fn test_kook_bot_new_empty_channel_fails() {
    assert!(KookBot::new("token".to_string(), String::new()).is_err());
}

#[test]
fn test_kook_bot_new_valid() {
    let b = KookBot::new("token".to_string(), "123".to_string()).unwrap();
    assert_eq!(b.name(), "kook");
}

#[test]
fn test_feishu_bot_new_empty_app_id_fails() {
    assert!(FeishuBot::new(
        String::new(),
        "secret".to_string(),
        "chat".to_string()
    )
    .is_err());
}

#[test]
fn test_feishu_bot_new_valid() {
    let b = FeishuBot::new(
        "app".to_string(),
        "secret".to_string(),
        "chat".to_string(),
    )
    .unwrap();
    assert_eq!(b.name(), "feishu");
}

#[test]
fn test_bot_constructors_name_the_missing_setting() {
    let msg = |r: Result<(), RemoteSendError>| match r {
        Err(RemoteSendError::Api(m)) => m,
        other => panic!("unexpected {:?}", other),
    };
    assert_eq!(msg(KookBot::new("t".to_string(), String::new()).map(|_| ())), "channel_id empty");
    assert_eq!(msg(FeishuBot::new("a".to_string(), String::new(), "c".to_string()).map(|_| ())), "app_secret empty");
    assert_eq!(msg(FeishuBot::new("a".to_string(), "s".to_string(), String::new()).map(|_| ())), "chat_id empty");
    assert_eq!(msg(DiscordChannel::new(String::new()).map(|_| ())), "webhook_url empty");
    let b = KookBot::new("tok".to_string(), "c".to_string()).unwrap();
    assert_eq!(b.bot_token(), "tok");
    let f = FeishuBot::new("a".to_string(), "s".to_string(), "c".to_string()).unwrap();
    assert!(f.token_cache.token.is_none());
}
