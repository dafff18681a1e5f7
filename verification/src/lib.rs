//! Verified core of the VanceSender text sender: configuration trees,
//! preset and history stores, statistics, AI output parsing, hotkey parsing
//! and the small decision procedures around them.
use vstd::prelude::*;

pub mod ai_client;
pub mod ai_stream;
pub mod api;
pub mod config;
pub mod config_defaults;
pub mod error;
pub mod gui;
pub mod history;
pub mod json;
pub mod ai_history;
pub mod network;
pub mod notifications;
pub mod order;
pub mod port_guard;
pub mod presets;
pub mod public_config;
pub mod quick_overlay;
pub mod sender;
pub mod stamp;
pub mod startup;
pub mod stats;
pub mod status_overlay;
pub mod text;
pub mod update_checker;
pub mod yaml;

verus! {
} // verus!
