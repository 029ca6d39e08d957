//! Message channels: which are set up, what they send, and which of the
//! messages that come back are meant for the agent.

pub mod discord;
pub mod encoding;
pub mod github;
pub mod jade;
pub mod registry;
pub mod replies;
pub mod telegram;
