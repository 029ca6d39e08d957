//! The ambient agent: what it may do, when, and what it is told.

pub mod activity;
pub mod cycle;
pub mod cycle_significance;
pub mod delivery;
pub mod gates;
pub mod headroom;
pub mod loop_steps;
pub mod manager;
pub mod paths;
pub mod persistence;
pub mod phrases;
pub mod project_schedule;
pub mod projects;
pub mod prompt;
pub mod prompt_laws;
pub mod prompt_sections;
pub mod prompt_text;
pub mod queue_laws;
pub mod report;
pub mod runner;
pub mod schedule_window;
pub mod scheduler;
pub mod state_file;
pub mod survey;
pub mod types;
