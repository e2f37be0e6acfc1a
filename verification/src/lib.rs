//! Decision logic, text shaping and parsing behind the `rupu` command line.

pub mod text;
pub mod number;
pub mod build_info;
pub mod output;
pub mod agent;
pub mod ui;
pub mod time;
pub mod auth;
pub mod autoflow;
pub mod json;
pub mod cleanup;
pub mod completion;
pub mod update;
