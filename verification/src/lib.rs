//! Decision core of an ambient agent.

pub mod ambient;
pub mod channel;
pub mod clock;
pub mod cron;
pub mod numerals;
pub mod ordering;
pub mod server;
pub mod text;
pub mod text_map;
pub mod text_set;
pub mod time;
