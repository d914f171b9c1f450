//! Knightingale core: the decisions, parsers and formatters behind the
//! voice-dictation daemon and its command-line client.
use vstd::prelude::*;

pub mod audio;
pub mod cli;
pub mod config;
pub mod edits;
pub mod env;
pub mod error;
pub mod focus;
pub mod hardware;
pub mod hotkey;
pub mod injection;
pub mod ipc;
pub mod metrics;
pub mod model;
pub mod number;
pub mod platform;
pub mod report;
pub mod scoring;
pub mod secret;
pub mod session;
pub mod setup;
pub mod status;
pub mod stt;
pub mod text;

verus! {
}
