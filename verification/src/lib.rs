//! Verified core of a local service orchestrator.
use vstd::prelude::*;

pub mod text;
pub mod log_filter;
pub mod strmap;
pub mod sort;
pub mod clock;
pub mod command;
pub mod ui_state;
pub mod palette;
pub mod tui_input;
pub mod state;
pub mod reducer;
pub mod job;
pub mod yaml;
pub mod model;
pub mod unit;
pub mod graph;
pub mod config;
pub mod log_history;
pub mod migrate;
pub mod init;
pub mod detectors;
pub mod restart;
pub mod keys;
pub mod lifecycle;
pub mod fake;
pub mod docker;
pub mod render;
pub mod theme;
pub mod views;
pub mod plugin;
pub mod doctor;
pub mod topology;
pub mod health;
pub mod runner;
pub mod cli;

verus! {

} // verus!
