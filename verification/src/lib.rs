//! Lifecycle logic of a daemon framework: subsystem registry and restart
//! policies, shutdown coordination, metrics bookkeeping and process resource
//! sampling.
use vstd::prelude::*;

pub mod daemon;
pub mod error;
pub mod metrics;
pub mod resources;
pub mod shutdown;
pub mod subsystem;
pub mod text;
pub mod time;

verus! {

/// Default shutdown timeout in milliseconds.
pub const DEFAULT_SHUTDOWN_TIMEOUT_MS: u64 = 5000;

/// Default configuration file name.
pub const DEFAULT_CONFIG_FILE: &'static str = "daemon.toml";

} // verus!
