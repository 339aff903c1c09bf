//! Supervision of a dedicated game server: installing and updating it
//! through a package manager, launching it (natively or through a
//! compatibility layer), stopping it, following its logs with ranked rules,
//! and scheduling recurring jobs.
//!
//! The crate decides; it performs no input or output. Each operation is
//! split into functions that say what has to be done (a command line to run,
//! a process to signal, a time to wait) and functions that say what an
//! outcome means. A host program carries out the steps in between.

pub mod config;
pub mod errors;
pub mod install;
pub mod instance;
pub mod launcher;
pub mod monitor;
pub mod process;
pub mod rules;
pub mod scheduler;
pub mod shutdown;
pub mod startup;
pub mod steamcmd;
pub mod text;
pub mod update;

pub use config::{InstanceConfig, LaunchMode};
pub use errors::InstanceError;
pub use rules::{LogRule, LogRules};
pub use monitor::{start_instance_log_monitor, start_monitor_in_thread, Monitor};
pub use scheduler::{register_job, spawn_scheduled_job};
pub use update::{update_is_available, update_server, UpdateInfo};
pub use instance::Instance;
