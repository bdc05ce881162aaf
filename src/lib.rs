//! Core of a desktop shell that keeps a sidecar worker process online:
//! versioned configuration migration, port choice, launch arguments,
//! readiness detection, the registry of the running process and its cleanup.

pub mod config;
pub mod fetch;
pub mod kind;
pub mod launch;
pub mod logs;
pub mod port;
pub mod readiness;
pub mod registry;
pub mod text;
pub mod version;
