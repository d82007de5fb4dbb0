//! Remote notification channels: message text, credential checks, token caching, and
//! the commands that chat users send to the bots.
pub mod channel;
pub mod gateway;
pub mod secrets;
pub mod protocol;
