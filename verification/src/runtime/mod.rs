//! Runtime supervision: configuration validation, the lifecycle state
//! machine, and health snapshots.

pub mod config;
pub mod health;
pub mod lifecycle;
