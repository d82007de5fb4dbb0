//! What the remote channels share: the message text, the checks on their settings,
//! the Gateway address of KOOK, and the cached Feishu access token.
use vstd::prelude::*;
use crate::text::{extend_str, string_from_chars, push_decimal, decimal};

verus! {

/// Why a message could not be sent.
#[derive(Debug, Clone)]
pub enum RemoteSendError {
    /// The service refused, or a setting is missing; the text says which.
    Api(String),
    /// The request itself failed; the text says why.
    Http(String),
}

/// A notification for the remote channels.
#[derive(Debug, Clone)]
pub struct RemoteMessage {
    pub workspace: String,
    pub worktree: String,
    pub title: String,
    pub body: String,
}

/// The text sent for a message: `[pmux] **workspace** / **worktree** — title`, then the
/// body on the next line.
pub open spec fn message_text(m: RemoteMessage) -> Seq<char> {
    "[pmux] **"@ + m.workspace@ + "** / **"@ + m.worktree@ + "** — "@ + m.title@ + "\n"@ + m.body@
}

/// The text sent for a message.
pub fn format_remote_message(msg: &RemoteMessage) -> (r: String)
    ensures
        r@ == message_text(*msg),
{
    let mut v: Vec<char> = Vec::new();
    extend_str(&mut v, "[pmux] **");
    extend_str(&mut v, msg.workspace.as_str());
    extend_str(&mut v, "** / **");
    extend_str(&mut v, msg.worktree.as_str());
    extend_str(&mut v, "** — ");
    extend_str(&mut v, msg.title.as_str());
    extend_str(&mut v, "\n");
    extend_str(&mut v, msg.body.as_str());
    string_from_chars(&v)
}

fn api_error(text: &str) -> (r: RemoteSendError)
    ensures
        r matches RemoteSendError::Api(m) && m@ == text@,
{
    RemoteSendError::Api(text.to_string())
}

/// A Discord webhook needs its address.
pub fn check_discord_webhook(webhook_url: &str) -> (r: Result<(), RemoteSendError>)
    ensures
        webhook_url@.len() == 0 ==> (r matches Err(RemoteSendError::Api(m)) && m@ == "webhook_url empty"@),
        webhook_url@.len() > 0 ==> r is Ok,
{
    if webhook_url.is_empty() { Err(api_error("webhook_url empty")) } else { Ok(()) }
}

/// A KOOK bot needs a token and a channel, checked in that order.
pub fn check_kook_bot(bot_token: &str, channel_id: &str) -> (r: Result<(), RemoteSendError>)
    ensures
        bot_token@.len() == 0 ==> (r matches Err(RemoteSendError::Api(m)) && m@ == "bot_token empty"@),
        bot_token@.len() > 0 && channel_id@.len() == 0 ==> (r matches Err(RemoteSendError::Api(m)) && m@ == "channel_id empty"@),
        bot_token@.len() > 0 && channel_id@.len() > 0 ==> r is Ok,
{
    if bot_token.is_empty() {
        return Err(api_error("bot_token empty"));
    }
    if channel_id.is_empty() {
        return Err(api_error("channel_id empty"));
    }
    Ok(())
}

/// A Feishu bot needs an app id, an app secret and a chat, checked in that order.
pub fn check_feishu_bot(app_id: &str, app_secret: &str, chat_id: &str) -> (r: Result<(), RemoteSendError>)
    ensures
        app_id@.len() == 0 ==> (r matches Err(RemoteSendError::Api(m)) && m@ == "app_id empty"@),
        app_id@.len() > 0 && app_secret@.len() == 0 ==> (r matches Err(RemoteSendError::Api(m)) && m@ == "app_secret empty"@),
        app_id@.len() > 0 && app_secret@.len() > 0 && chat_id@.len() == 0 ==> (r matches Err(RemoteSendError::Api(m)) && m@ == "chat_id empty"@),
        app_id@.len() > 0 && app_secret@.len() > 0 && chat_id@.len() > 0 ==> r is Ok,
{
    if app_id.is_empty() {
        return Err(api_error("app_id empty"));
    }
    if app_secret.is_empty() {
        return Err(api_error("app_secret empty"));
    }
    if chat_id.is_empty() {
        return Err(api_error("chat_id empty"));
    }
    Ok(())
}

/// A Discord channel reached through a webhook.
#[derive(Debug, Clone)]
pub struct DiscordChannel {
    pub webhook_url: String,
}

impl DiscordChannel {
    /// A channel for this webhook; refused without an address.
    pub fn new(webhook_url: String) -> (r: Result<Self, RemoteSendError>)
        ensures
            webhook_url@.len() == 0 ==> (r matches Err(RemoteSendError::Api(m)) && m@ == "webhook_url empty"@),
            webhook_url@.len() > 0 ==> (r matches Ok(c) && c.webhook_url@ == webhook_url@),
    {
        match check_discord_webhook(webhook_url.as_str()) {
            Err(e) => Err(e),
            Ok(()) => Ok(DiscordChannel { webhook_url }),
        }
    }

    /// The channel's name among the remote channels.
    pub fn name(&self) -> (r: &'static str)
        ensures
            r@ == "discord"@,
    {
        "discord"
    }
}

/// A KOOK bot posting to a channel.
#[derive(Debug, Clone)]
pub struct KookBot {
    pub bot_token: String,
    pub channel_id: String,
}

impl KookBot {
    /// A bot with this token for this channel; refused without a token, then without a
    /// channel.
    pub fn new(bot_token: String, channel_id: String) -> (r: Result<Self, RemoteSendError>)
        ensures
            bot_token@.len() == 0 ==> (r matches Err(RemoteSendError::Api(m)) && m@ == "bot_token empty"@),
            bot_token@.len() > 0 && channel_id@.len() == 0 ==> (r matches Err(RemoteSendError::Api(m)) && m@ == "channel_id empty"@),
            bot_token@.len() > 0 && channel_id@.len() > 0 ==> (r matches Ok(b) && b.bot_token@ == bot_token@ && b.channel_id@ == channel_id@),
    {
        match check_kook_bot(bot_token.as_str(), channel_id.as_str()) {
            Err(e) => Err(e),
            Ok(()) => Ok(KookBot { bot_token, channel_id }),
        }
    }

    /// The bot's token.
    pub fn bot_token(&self) -> (r: &str)
        ensures
            r@ == self.bot_token@,
    {
        self.bot_token.as_str()
    }

    /// The channel's name among the remote channels.
    pub fn name(&self) -> (r: &'static str)
        ensures
            r@ == "kook"@,
    {
        "kook"
    }
}

/// A Feishu bot posting to a group chat, with its cached access token.
#[derive(Debug, Clone)]
pub struct FeishuBot {
    pub app_id: String,
    pub app_secret: String,
    pub chat_id: String,
    pub token_cache: TokenCache,
}

impl FeishuBot {
    /// A bot for this app and chat, with no token yet; refused without an app id, then
    /// without a secret, then without a chat.
    pub fn new(app_id: String, app_secret: String, chat_id: String) -> (r: Result<Self, RemoteSendError>)
        ensures
            app_id@.len() == 0 ==> (r matches Err(RemoteSendError::Api(m)) && m@ == "app_id empty"@),
            app_id@.len() > 0 && app_secret@.len() == 0 ==> (r matches Err(RemoteSendError::Api(m)) && m@ == "app_secret empty"@),
            app_id@.len() > 0 && app_secret@.len() > 0 && chat_id@.len() == 0 ==> (r matches Err(RemoteSendError::Api(m)) && m@ == "chat_id empty"@),
            app_id@.len() > 0 && app_secret@.len() > 0 && chat_id@.len() > 0 ==> (r matches Ok(b) && b.app_id@ == app_id@
                && b.app_secret@ == app_secret@ && b.chat_id@ == chat_id@ && b.token_cache.token is None && b.token_cache.expires_at is None),
    {
        match check_feishu_bot(app_id.as_str(), app_secret.as_str(), chat_id.as_str()) {
            Err(e) => Err(e),
            Ok(()) => Ok(FeishuBot { app_id, app_secret, chat_id, token_cache: TokenCache::new() }),
        }
    }

    /// The channel's name among the remote channels.
    pub fn name(&self) -> (r: &'static str)
        ensures
            r@ == "feishu"@,
    {
        "feishu"
    }
}

/// The WebSocket address for the KOOK Gateway: the token is added as another query
/// parameter, or after `compress=0` where the address has no query yet.
pub open spec fn kook_ws_url_spec(gateway_url: Seq<char>, token: Seq<char>) -> Seq<char> {
    if gateway_url.contains('?') {
        gateway_url + "&token="@ + token
    } else {
        gateway_url + "?compress=0&token="@ + token
    }
}

/// The WebSocket address for the KOOK Gateway.
pub fn kook_ws_url(gateway_url: &str, token: &str) -> (r: String)
    ensures
        r@ == kook_ws_url_spec(gateway_url@, token@),
{
    let mut v: Vec<char> = Vec::new();
    extend_str(&mut v, gateway_url);
    let mut has_query = false;
    let mut i: usize = 0;
    while i < v.len()
        invariant
            i <= v.len(),
            v@ == gateway_url@,
            has_query == (exists|j: int| 0 <= j < i && v@[j] == '?'),
        decreases v.len() - i,
    {
        if v[i] == '?' {
            has_query = true;
        }
        i = i + 1;
    }
    if has_query {
        extend_str(&mut v, "&token=");
    } else {
        extend_str(&mut v, "?compress=0&token=");
    }
    extend_str(&mut v, token);
    string_from_chars(&v)
}

/// The code of a service reply; a reply without one counts as -1.
pub open spec fn reply_code(code: Option<i64>) -> i64 {
    match code { Some(c) => c, None => -1i64 }
}

/// The message of a service reply, or `unknown` where it has none.
pub open spec fn reply_message(message: Option<&str>) -> Seq<char> {
    match message { Some(m) => m@, None => "unknown"@ }
}

/// The error for a service reply whose code is not 0: `prefix`, the code, `: ` and the
/// reply's message.
pub open spec fn api_reply_error(prefix: Seq<char>, code: Option<i64>, message: Option<&str>) -> Seq<char> {
    prefix + signed_decimal(reply_code(code)) + ": "@ + reply_message(message)
}

/// Checks the JSON reply of a chat service (KOOK, Feishu): it succeeded only where its
/// `code` is 0; otherwise the error names the code and the reply's message.
pub fn check_api_reply(prefix: &str, code: Option<i64>, message: Option<&str>) -> (r: Result<(), RemoteSendError>)
    ensures
        code == Some(0i64) ==> r is Ok,
        code != Some(0i64) ==> (r matches Err(RemoteSendError::Api(m)) && m@ == api_reply_error(prefix@, code, message)),
{
    let c: i64 = match code { Some(c) => c, None => -1 };
    if c == 0 {
        return Ok(());
    }
    let mut v: Vec<char> = Vec::new();
    extend_str(&mut v, prefix);
    push_signed_decimal(&mut v, c);
    extend_str(&mut v, ": ");
    match message {
        Some(m) => extend_str(&mut v, m),
        None => extend_str(&mut v, "unknown"),
    }
    Err(RemoteSendError::Api(string_from_chars(&v)))
}

/// Seconds before its expiry at which a Feishu token is renewed.
pub const TOKEN_EXPIRE_BUFFER_SECS: u64 = 300;

/// Decimal text of a signed number.
pub open spec fn signed_decimal(n: i64) -> Seq<char> {
    if n < 0 { seq!['-'] + decimal((-n) as nat) } else { decimal(n as nat) }
}

/// Appends the decimal text of a signed number.
pub fn push_signed_decimal(v: &mut Vec<char>, n: i64)
    ensures
        final(v)@ == old(v)@ + signed_decimal(n),
{
    if n < 0 {
        v.push('-');
        let m: u64 = if n == i64::MIN { 9223372036854775808u64 } else { (-n) as u64 };
        push_decimal(v, m);
        proof { assert(final(v)@ =~= old(v)@ + signed_decimal(n)); }
    } else {
        push_decimal(v, n as u64);
    }
}

/// The cached Feishu access token and when it must be renewed (milliseconds since the
/// Unix epoch).
#[derive(Debug, Clone)]
pub struct TokenCache {
    pub token: Option<String>,
    pub expires_at: Option<u64>,
}

/// `secs` seconds in milliseconds, at most the largest `u64`.
pub open spec fn secs_to_ms(secs: u64) -> u64 {
    if secs > u64::MAX / 1000 { u64::MAX } else { (secs * 1000) as u64 }
}

/// The message for a refused token request.
pub open spec fn token_error_text(code: i64, msg: Seq<char>) -> Seq<char> {
    "Feishu token error "@ + signed_decimal(code) + ": "@ + msg
}

impl TokenCache {
    /// Nothing cached.
    pub fn new() -> (r: Self)
        ensures
            r.token is None,
            r.expires_at is None,
    {
        TokenCache { token: None, expires_at: None }
    }

    /// The cached token, while it is valid at time `now`.
    pub fn valid_at(&self, now: u64) -> (r: Option<String>)
        ensures
            match (self.token, self.expires_at) {
                (Some(t), Some(e)) => if now < e { r matches Some(x) && x@ == t@ } else { r is None },
                _ => r is None,
            },
    {
        match (&self.token, self.expires_at) {
            (Some(t), Some(e)) => if now < e { Some(t.clone()) } else { None },
            _ => None,
        }
    }

    /// Takes the answer to a token request made at time `now`: a non-zero `code` or an
    /// empty token is an error and changes nothing; otherwise the token is cached until
    /// 300 seconds before it expires, and returned.
    pub fn accept_response(&mut self, code: i64, msg: &str, token: &str, expire_secs: u64, now: u64) -> (r: Result<String, RemoteSendError>)
        ensures
            code != 0 ==> (r matches Err(RemoteSendError::Api(m)) && m@ == token_error_text(code, msg@)) && *final(self) == *old(self),
            code == 0 && token@.len() == 0 ==> (r matches Err(RemoteSendError::Api(m)) && m@ == "Feishu token empty"@) && *final(self) == *old(self),
            code == 0 && token@.len() > 0 ==> {
                &&& r matches Ok(t) && t@ == token@
                &&& final(self).token matches Some(t) && t@ == token@
                &&& final(self).expires_at == Some(now.saturating_add(secs_to_ms(expire_secs.saturating_sub(TOKEN_EXPIRE_BUFFER_SECS))))
            },
    {
        if code != 0 {
            let mut v: Vec<char> = Vec::new();
            extend_str(&mut v, "Feishu token error ");
            push_signed_decimal(&mut v, code);
            extend_str(&mut v, ": ");
            extend_str(&mut v, msg);
            return Err(RemoteSendError::Api(string_from_chars(&v)));
        }
        if token.is_empty() {
            return Err(api_error("Feishu token empty"));
        }
        let secs = expire_secs.saturating_sub(TOKEN_EXPIRE_BUFFER_SECS);
        self.token = Some(token.to_string());
        let ms: u64 = if secs > u64::MAX / 1000 { u64::MAX } else { secs * 1000 };
        self.expires_at = Some(now.saturating_add(ms));
        Ok(token.to_string())
    }
}

impl Default for TokenCache {
    fn default() -> (r: Self)
        ensures
            r.token is None,
            r.expires_at is None,
    {
        TokenCache::new()
    }
}

/// A token accepted at time `now` that lasts longer than the renewal margin is still
/// valid at that time.
pub proof fn law_fresh_token_valid(now: u64, expire_secs: u64)
    requires
        expire_secs > TOKEN_EXPIRE_BUFFER_SECS,
        now < u64::MAX,
    ensures
        now < now.saturating_add(secs_to_ms(expire_secs.saturating_sub(TOKEN_EXPIRE_BUFFER_SECS))),
{
}

} // verus!
