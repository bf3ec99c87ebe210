//! A library for a directory watcher that runs a shell command after changes
//! settle: event normalization, the shared change flag that coordinates the
//! watch and run loops, and the command runner's result assembly.

pub mod app_config;
pub mod bash_shell;
pub mod cli;
pub mod errors;
pub mod events;
pub mod extensions;
pub mod global;
pub mod scheduler;
