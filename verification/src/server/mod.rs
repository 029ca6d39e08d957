//! What the server does when a client leaves, and the commands of its debug
//! socket.

pub mod debug_ambient;
pub mod debug_cron;
pub mod disconnect;
