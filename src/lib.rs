//! Wi-Fi self-healing: choose which saved wireless profiles to try, turn the
//! platform's raw name buffers into owned strings, and drive one recovery
//! pass as a state machine whose platform work is done by the caller.

pub mod engine;
pub mod names;
pub mod strategy;

pub use engine::{
    poll_rounds, Action, Event, FailureReason, Phase, RecoveryOutcome, RecoveryPass,
};
pub use names::{
    profile_names, ssid_to_string, visible_network_names, wide_to_string, AvailableNetwork,
};
pub use strategy::{filter_profiles_by_strategy, Cli, ConnectStrategy};
