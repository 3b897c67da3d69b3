//! Verified core of the JetEmail command-line client: configuration layering,
//! key masking, request construction, response shaping and the live log-tail
//! state machine.

pub mod text;
pub mod error;
pub mod config;
pub mod json;
pub mod tui;
pub mod output;
pub mod cli;
pub mod client;
pub mod commands;
