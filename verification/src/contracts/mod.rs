//! Canonical, versioned domain contracts. Unknown states are represented
//! explicitly, never as silent defaults.

pub mod coords;
pub mod health;
pub mod ids;
pub mod json;
pub mod prohibited;
pub mod provenance;
pub mod relay;
pub mod alert;
pub mod audit;
pub mod track;
pub mod version;
