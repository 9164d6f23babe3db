//! Keeps a Sidecar display-extension session in step with the presence of one
//! Thunderbolt dock: the reconciliation state machine, the companion-device
//! selection and retry policy, the configuration's identifier parsing, and the
//! listings and launch-agent text used by the operator commands.

pub mod config;
pub mod discovery;
pub mod dock_monitor;
pub mod launchd;
pub mod sidecar;
