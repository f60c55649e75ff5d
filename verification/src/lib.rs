//! The decisions of a gateway that drives a local Codex app-server.

pub mod api;
pub mod calendar;
pub mod calendar_laws;
pub mod command_laws;
pub mod delivery;
pub mod format;
pub mod format_laws;
pub mod gateway;
pub mod gateway_laws;
pub mod protocol;
pub mod state;
pub mod step_laws;
pub mod text;
pub mod turn;
pub mod turn_laws;
pub mod view_laws;
