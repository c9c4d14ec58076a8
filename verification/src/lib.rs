//! fleetops — an ops board for every coding-agent session (and Codex TUI) on the machine: session
//! discovery, the status fold, transcript telemetry, wezterm pane matching, and the board model.
use vstd::prelude::*;

pub mod board;
pub mod codex;
pub mod collect;
pub mod discovery;
pub mod doctor;
pub mod fold;
pub mod highlight;
pub mod json;
pub mod panes;
pub mod paths;
pub mod platform;
pub mod runner;
pub mod snapshot;
pub mod telemetry;
pub mod text;
pub mod tui;

verus! {

} // verus!
