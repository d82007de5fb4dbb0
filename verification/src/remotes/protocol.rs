//! The decisions of the Discord and KOOK Gateway connections: what each received frame
//! asks for, the keep-alive frames sent back, and where the KOOK Gateway lives.
//!
//! The connection itself (WebSocket, timers, JSON decoding) belongs to the caller, which
//! hands each frame over as the plain fields below and carries out the action returned.
use vstd::prelude::*;
use crate::text::{extend_str, string_from_chars, push_decimal, decimal, str_equal, string_of};
use crate::remotes::channel::{RemoteSendError, check_api_reply, api_reply_error, signed_decimal, push_signed_decimal};
use crate::remotes::gateway::{
    DiscordCommand, discord_command, discord_command_spec, KookCommand, KookCommandView,
    kook_command, kook_command_spec, kook_view,
};

verus! {

/// Heartbeat interval used when Discord's hello names none (milliseconds).
pub const DISCORD_DEFAULT_HEARTBEAT_MS: u64 = 41250;

/// Gateway intents asked for when identifying to Discord: guild messages and message
/// content.
pub const DISCORD_INTENTS: u64 = 33280;

/// Seconds between two pings on the KOOK Gateway.
pub const KOOK_PING_SECS: u64 = 25;

/// The text of an optional field; empty where it is missing.
pub open spec fn field_text(f: Option<String>) -> Seq<char> {
    match f { Some(s) => s@, None => Seq::empty() }
}

fn field_str(f: &Option<String>) -> (r: &str)
    ensures
        r@ == field_text(*f),
{
    match f {
        Some(s) => s.as_str(),
        None => {
            proof { reveal_strlit(""); }
            ""
        },
    }
}

/// The fields of a Discord Gateway frame that the connection reads: `op`, `s`,
/// `d.heartbeat_interval`, `t`, `d.channel_id` and `d.content`.
#[derive(Debug, Clone)]
pub struct DiscordFrame {
    pub op: Option<u64>,
    pub seq: Option<u64>,
    pub heartbeat_interval: Option<u64>,
    pub event: Option<String>,
    pub channel_id: Option<String>,
    pub content: Option<String>,
}

/// What a Discord frame asks of the connection.
#[derive(Debug, Clone, Copy, PartialEq, Eq, Structural)]
pub enum DiscordAction {
    /// The hello: identify, then send a heartbeat every so many milliseconds.
    Identify { heartbeat_interval_ms: u64 },
    /// A command in the listened channel, to be answered there.
    Answer(DiscordCommand),
    /// Nothing to do.
    Ignore,
}

/// What a Discord frame asks for, on a connection that listens to `channel`: the hello
/// (op 10) starts the session; a message created in `channel` (op 0, `MESSAGE_CREATE`)
/// is answered if it holds a command; everything else is ignored. A frame without an op
/// counts as op 0.
pub open spec fn discord_action(f: DiscordFrame, channel: Seq<char>) -> DiscordAction {
    let op: u64 = match f.op { Some(o) => o, None => 0u64 };
    if op == 10 {
        DiscordAction::Identify {
            heartbeat_interval_ms: match f.heartbeat_interval { Some(h) => h, None => DISCORD_DEFAULT_HEARTBEAT_MS },
        }
    } else if op == 0 && field_text(f.event) == "MESSAGE_CREATE"@ && field_text(f.channel_id) == channel {
        match discord_command_spec(field_text(f.content)) {
            Some(c) => DiscordAction::Answer(c),
            None => DiscordAction::Ignore,
        }
    } else {
        DiscordAction::Ignore
    }
}

/// The state a Discord connection keeps between frames: the last sequence number seen
/// (0 before any).
#[derive(Debug, Clone, Copy, PartialEq, Eq, Structural)]
pub struct DiscordSession {
    pub last_seq: u64,
}

impl DiscordSession {
    /// A fresh connection.
    pub fn new() -> (r: Self)
        ensures
            r.last_seq == 0,
    {
        DiscordSession { last_seq: 0 }
    }

    /// Takes one frame: remembers its sequence number, if it has one, and says what it
    /// asks for.
    pub fn on_frame(&mut self, frame: &DiscordFrame, channel_id: &str) -> (r: DiscordAction)
        ensures
            final(self).last_seq == match frame.seq { Some(s) => s, None => old(self).last_seq },
            r == discord_action(*frame, channel_id@),
    {
        if let Some(s) = frame.seq {
            self.last_seq = s;
        }
        let op: u64 = match frame.op { Some(o) => o, None => 0 };
        if op == 10 {
            let h: u64 = match frame.heartbeat_interval { Some(h) => h, None => DISCORD_DEFAULT_HEARTBEAT_MS };
            return DiscordAction::Identify { heartbeat_interval_ms: h };
        }
        if op == 0 && str_equal(field_str(&frame.event), "MESSAGE_CREATE")
            && str_equal(field_str(&frame.channel_id), channel_id) {
            match discord_command(field_str(&frame.content)) {
                Some(c) => DiscordAction::Answer(c),
                None => DiscordAction::Ignore,
            }
        } else {
            DiscordAction::Ignore
        }
    }

    /// The heartbeat frame: op 1 with the last sequence number, or `null` before any.
    pub fn heartbeat(&self) -> (r: String)
        ensures
            r@ == discord_heartbeat_text(self.last_seq),
    {
        let mut v: Vec<char> = Vec::new();
        extend_str(&mut v, "{\"d\":");
        if self.last_seq == 0 {
            extend_str(&mut v, "null");
        } else {
            push_decimal(&mut v, self.last_seq);
        }
        extend_str(&mut v, ",\"op\":1}");
        string_from_chars(&v)
    }
}

/// The heartbeat frame for the last sequence number `seq`.
pub open spec fn discord_heartbeat_text(seq: u64) -> Seq<char> {
    "{\"d\":"@ + (if seq == 0 { "null"@ } else { decimal(seq as nat) }) + ",\"op\":1}"@
}

/// The fields of a KOOK Gateway frame that the connection reads: `s`, `sn`, `d.code`,
/// `d.target_id`, `d.channel_type`, `d.extra.author.bot`, `d.type`,
/// `d.extra.author.id` and `d.content`.
#[derive(Debug, Clone)]
pub struct KookFrame {
    pub s: Option<i64>,
    pub sn: Option<u64>,
    pub code: Option<i64>,
    pub target_id: Option<String>,
    pub channel_type: Option<String>,
    pub author_is_bot: Option<bool>,
    pub msg_type: Option<i64>,
    pub author_id: Option<String>,
    pub content: Option<String>,
}

/// What a KOOK frame asks of the connection.
#[derive(Debug, Clone)]
pub enum KookAction {
    /// The hello was refused: the connection ends with this error.
    Fail(String),
    /// The hello was accepted: ping every 25 seconds from now on.
    StartPing,
    /// A command to answer, sent to `target`.
    Answer { target: String, command: KookCommand },
    /// Nothing to do.
    Ignore,
}

/// A KOOK action as plain values.
pub enum KookActionView {
    Fail(Seq<char>),
    StartPing,
    Answer(Seq<char>, KookCommandView),
    Ignore,
}

/// The plain value of a KOOK action.
pub open spec fn kook_action_view(a: KookAction) -> KookActionView {
    match a {
        KookAction::Fail(m) => KookActionView::Fail(m@),
        KookAction::StartPing => KookActionView::StartPing,
        KookAction::Answer { target, command } => KookActionView::Answer(target@, kook_view(command)),
        KookAction::Ignore => KookActionView::Ignore,
    }
}

/// Where the answer to a KOOK message goes: the listened channel for a message posted
/// there, the author for a direct message (`PERSON`) from an author with an id, and
/// nowhere otherwise.
pub open spec fn kook_reply_target(f: KookFrame, channel: Seq<char>) -> Option<Seq<char>> {
    if field_text(f.target_id) == channel {
        Some(channel)
    } else if field_text(f.channel_type) == "PERSON"@ && field_text(f.author_id).len() > 0 {
        Some(field_text(f.author_id))
    } else {
        None
    }
}

/// What a KOOK frame asks for, on a connection that listens to `channel`. The hello
/// (signal 1) is refused unless its code is 0; an event (signal 0) is answered when it is
/// a text or markdown message (type 1 or 9) from someone who is not a bot, has a reply
/// target, and holds a command. Everything else is ignored; missing numbers count as -1
/// (signal, code) or 0 (type).
pub open spec fn kook_action(f: KookFrame, channel: Seq<char>) -> KookActionView {
    let s: i64 = match f.s { Some(x) => x, None => -1i64 };
    if s == 1 {
        let code: i64 = match f.code { Some(c) => c, None => -1i64 };
        if code != 0 {
            KookActionView::Fail("KOOK gateway auth failed: code "@ + signed_decimal(code))
        } else {
            KookActionView::StartPing
        }
    } else if s == 0 {
        let t: i64 = match f.msg_type { Some(x) => x, None => 0i64 };
        let bot: bool = match f.author_is_bot { Some(b) => b, None => false };
        if bot || (t != 1 && t != 9) {
            KookActionView::Ignore
        } else {
            match kook_reply_target(f, channel) {
                None => KookActionView::Ignore,
                Some(target) => match kook_command_spec(field_text(f.content)) {
                    Some(c) => KookActionView::Answer(target, c),
                    None => KookActionView::Ignore,
                },
            }
        }
    } else {
        KookActionView::Ignore
    }
}

/// The state a KOOK connection keeps between frames: the last serial number seen (0
/// before any).
#[derive(Debug, Clone, Copy, PartialEq, Eq, Structural)]
pub struct KookSession {
    pub last_sn: u64,
}

impl KookSession {
    /// A fresh connection.
    pub fn new() -> (r: Self)
        ensures
            r.last_sn == 0,
    {
        KookSession { last_sn: 0 }
    }

    /// Takes one frame: remembers its serial number, if it has one, and says what it
    /// asks for.
    pub fn on_frame(&mut self, frame: &KookFrame, channel_id: &str) -> (r: KookAction)
        ensures
            final(self).last_sn == match frame.sn { Some(n) => n, None => old(self).last_sn },
            kook_action_view(r) == kook_action(*frame, channel_id@),
    {
        if let Some(n) = frame.sn {
            self.last_sn = n;
        }
        let s: i64 = match frame.s { Some(x) => x, None => -1 };
        if s == 1 {
            let code: i64 = match frame.code { Some(c) => c, None => -1 };
            if code != 0 {
                let mut v: Vec<char> = Vec::new();
                extend_str(&mut v, "KOOK gateway auth failed: code ");
                push_signed_decimal(&mut v, code);
                return KookAction::Fail(string_from_chars(&v));
            }
            return KookAction::StartPing;
        }
        if s != 0 {
            return KookAction::Ignore;
        }
        let t: i64 = match frame.msg_type { Some(x) => x, None => 0 };
        let bot: bool = match frame.author_is_bot { Some(b) => b, None => false };
        if bot || (t != 1 && t != 9) {
            return KookAction::Ignore;
        }
        let target: String = if str_equal(field_str(&frame.target_id), channel_id) {
            string_of(channel_id)
        } else {
            let author = field_str(&frame.author_id);
            if str_equal(field_str(&frame.channel_type), "PERSON") && !author.is_empty() {
                string_of(author)
            } else {
                return KookAction::Ignore;
            }
        };
        match kook_command(field_str(&frame.content)) {
            Some(c) => KookAction::Answer { target, command: c },
            None => KookAction::Ignore,
        }
    }

    /// The ping frame: signal 2 with the last serial number.
    pub fn ping(&self) -> (r: String)
        ensures
            r@ == kook_ping_text(self.last_sn),
    {
        let mut v: Vec<char> = Vec::new();
        extend_str(&mut v, "{\"s\":2,\"sn\":");
        push_decimal(&mut v, self.last_sn);
        extend_str(&mut v, "}");
        string_from_chars(&v)
    }
}

/// The ping frame for the last serial number `sn`.
pub open spec fn kook_ping_text(sn: u64) -> Seq<char> {
    "{\"s\":2,\"sn\":"@ + decimal(sn as nat) + "}"@
}

/// The Gateway address in KOOK's answer to `gateway/index`: refused unless its `code` is
/// 0, and missing where the answer has no `data.url`.
pub fn kook_gateway_url(code: Option<i64>, message: Option<&str>, url: Option<&str>) -> (r: Result<String, RemoteSendError>)
    ensures
        code != Some(0i64) ==> (r matches Err(RemoteSendError::Api(m)) && m@ == api_reply_error("KOOK gateway index error "@, code, message)),
        code == Some(0i64) && url is None ==> (r matches Err(RemoteSendError::Api(m)) && m@ == "KOOK gateway url missing"@),
        code == Some(0i64) && url is Some ==> (r matches Ok(u) && u@ == url->0@),
{
    match check_api_reply("KOOK gateway index error ", code, message) {
        Err(e) => Err(e),
        Ok(()) => match url {
            Some(u) => Ok(string_of(u)),
            None => Err(RemoteSendError::Api(string_of("KOOK gateway url missing"))),
        },
    }
}

} // verus!
