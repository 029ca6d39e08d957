//! Config-declared recurring jobs.

pub mod config;
pub mod control;
pub mod exec;
pub mod jobs;
pub mod running;
pub mod schedule;
pub mod state;
