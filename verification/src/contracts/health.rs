//! System health snapshot. Instants are Unix-epoch nanoseconds.

use vstd::prelude::*;
use crate::contracts::ids::{AdapterId, DestinationId, SensorId};
use crate::contracts::version::{health_schema, SchemaVersion};

verus! {

/// Lifecycle state of the runtime.
#[derive(Debug, Clone, Copy, PartialEq, Eq, Structural)]
pub enum RuntimeState {
    Uninitialized,
    ValidatingConfiguration,
    Starting,
    Ready,
    Degraded,
    Paused,
    ShuttingDown,
    Failed,
}

#[derive(Debug, Clone)]
pub struct AdapterHealth {
    pub adapter: AdapterId,
    pub connected: bool,
    pub last_observation_at: Option<i128>,
    pub error_count_last_hour: u64,
    pub notes: Vec<String>,
}

#[derive(Debug, Clone)]
pub struct SensorFeedHealth {
    pub sensor: SensorId,
    pub observations_last_minute: u64,
    pub dropouts_last_hour: u64,
}

#[derive(Debug, Clone, Copy, PartialEq, Eq, Structural)]
pub enum StorageHealth {
    Healthy,
    LatencyElevated,
    ReadOnly,
    Failed,
}

#[derive(Debug, Clone)]
pub struct RelayHealth {
    pub destination: DestinationId,
    pub queued: u64,
    pub in_flight: u64,
    pub dead_lettered: u64,
    pub last_delivered_at: Option<i128>,
}

#[derive(Debug, Clone, Copy, PartialEq, Eq, Structural)]
pub enum TimeSourceHealth {
    Disciplined,
    LocalOnly,
    Drifting,
    Unavailable,
}

#[derive(Debug, Clone)]
pub struct SystemHealth {
    pub schema_version: SchemaVersion,
    pub captured_at: i128,
    pub runtime_state: RuntimeState,
    pub adapters: Vec<AdapterHealth>,
    pub sensor_feeds: Vec<SensorFeedHealth>,
    pub storage: StorageHealth,
    pub relay: Vec<RelayHealth>,
    pub time_source: TimeSourceHealth,
    pub active_model_ids: Vec<String>,
    pub configuration_version: String,
    pub build_id: String,
    pub degraded_capabilities: Vec<String>,
}

impl SystemHealth {
    pub fn schema() -> (r: SchemaVersion)
        ensures
            r.name@ == "health"@,
            r.major == 1,
            r.minor == 0,
    {
        health_schema()
    }
}

} // verus!
