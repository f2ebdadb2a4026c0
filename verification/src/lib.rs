//! Host-local network-health monitoring logic.
//!
//! The crate models the decision core of a network monitor: per-target retry
//! policy, aggregate failure detection, an ordered recovery plan with
//! post-action verification, a re-entry guard for the monitoring loop, and
//! the configuration file format.  All probing, command execution and timing
//! is performed by the caller, which drives the state machines defined here
//! with the outcomes it observed.

pub mod config;
pub mod config_text;
pub mod monitor;
pub mod paths;
pub mod recovery;
pub mod retry;
pub mod roundtrip;
pub mod status;
pub mod sweep;
pub mod text;
