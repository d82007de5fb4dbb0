//! Credentials of the remote channels, as kept in the secrets file.
use vstd::prelude::*;

verus! {

/// Discord credentials.
#[derive(Debug, Clone)]
pub struct DiscordSecrets {
    /// Bot token for the Bot API and the Gateway.
    pub bot_token: Option<String>,
}

/// KOOK credentials.
#[derive(Debug, Clone)]
pub struct KookSecrets {
    pub bot_token: Option<String>,
}

/// Feishu credentials.
#[derive(Debug, Clone)]
pub struct FeishuSecrets {
    /// App id, for the tenant access token.
    pub app_id: Option<String>,
    /// App secret, for the tenant access token.
    pub app_secret: Option<String>,
}

/// Credentials of every channel.
#[derive(Debug, Clone)]
pub struct RemoteChannelSecrets {
    pub discord: DiscordSecrets,
    pub kook: KookSecrets,
    pub feishu: FeishuSecrets,
}

/// The secrets file.
#[derive(Debug, Clone)]
pub struct Secrets {
    pub remote_channels: RemoteChannelSecrets,
}

impl Default for DiscordSecrets {
    fn default() -> (r: Self)
        ensures
            r.bot_token is None,
    {
        DiscordSecrets { bot_token: None }
    }
}

impl Default for KookSecrets {
    fn default() -> (r: Self)
        ensures
            r.bot_token is None,
    {
        KookSecrets { bot_token: None }
    }
}

impl Default for FeishuSecrets {
    fn default() -> (r: Self)
        ensures
            r.app_id is None,
            r.app_secret is None,
    {
        FeishuSecrets { app_id: None, app_secret: None }
    }
}

impl Default for RemoteChannelSecrets {
    fn default() -> (r: Self)
        ensures
            r.discord.bot_token is None,
            r.kook.bot_token is None,
            r.feishu.app_id is None,
            r.feishu.app_secret is None,
    {
        RemoteChannelSecrets { discord: DiscordSecrets::default(), kook: KookSecrets::default(), feishu: FeishuSecrets::default() }
    }
}

impl Default for Secrets {
    fn default() -> (r: Self)
        ensures
            r.remote_channels.discord.bot_token is None,
            r.remote_channels.kook.bot_token is None,
            r.remote_channels.feishu.app_id is None,
            r.remote_channels.feishu.app_secret is None,
    {
        Secrets { remote_channels: RemoteChannelSecrets::default() }
    }
}

} // verus!
