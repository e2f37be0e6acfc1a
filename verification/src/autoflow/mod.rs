//! `rupu autoflow`: the autonomous issue reconciler.

pub mod shape;
pub mod duration;
pub mod claims;
pub mod events;
pub mod issue_ref;
pub mod command;
pub mod runtime;
pub mod schedule;
pub mod select;
pub mod counts;
pub mod wake_hints;
pub mod wrap;
pub mod outcome;
pub mod history;
pub mod doctor;
pub mod cycle;
pub mod explain;
pub mod outcome_shape;
pub mod wake_events;
pub mod tick;
pub mod wakes;
pub mod contenders;
pub mod sources;
pub mod monitor;
pub mod visible;
pub mod actions;
pub mod ticker;
pub mod serve_entries;
pub mod steps;
pub mod run_summary;
pub mod workspace_diff;
pub mod wake_payload;
pub mod live_run;
pub mod live_cycle;
pub mod transcript_tally;
pub mod show_summary;
pub mod serve_rows;
