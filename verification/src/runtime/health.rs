//! Health snapshot builder: assembles a well-formed `SystemHealth`, with
//! conservative defaults for what was not supplied.

use vstd::prelude::*;
use crate::contracts::health::{
    AdapterHealth, RelayHealth, RuntimeState, SensorFeedHealth, StorageHealth, SystemHealth, TimeSourceHealth,
};
use crate::contracts::version::{health_schema, is_v1_0};

verus! {

#[derive(Debug)]
pub struct HealthBuilder {
    pub adapters: Vec<AdapterHealth>,
    pub sensor_feeds: Vec<SensorFeedHealth>,
    pub relay: Vec<RelayHealth>,
    pub active_model_ids: Vec<String>,
    pub degraded_capabilities: Vec<String>,
    pub storage: Option<StorageHealth>,
    pub time_source: Option<TimeSourceHealth>,
}

impl Default for HealthBuilder {
    fn default() -> (r: Self)
        ensures
            r.adapters@.len() == 0,
            r.sensor_feeds@.len() == 0,
            r.relay@.len() == 0,
            r.active_model_ids@.len() == 0,
            r.degraded_capabilities@.len() == 0,
            r.storage is None,
            r.time_source is None,
    {
        HealthBuilder {
            adapters: Vec::new(),
            sensor_feeds: Vec::new(),
            relay: Vec::new(),
            active_model_ids: Vec::new(),
            degraded_capabilities: Vec::new(),
            storage: None,
            time_source: None,
        }
    }
}

impl HealthBuilder {
    /// The snapshot taken at `captured_at`. Storage that was not reported
    /// reads as Healthy and a time source that was not reported as LocalOnly.
    pub fn build(
        self,
        runtime_state: RuntimeState,
        configuration_version: String,
        build_id: String,
        captured_at: i128,
    ) -> (r: SystemHealth)
        ensures
            is_v1_0(r.schema_version, "health"@),
            r.captured_at == captured_at,
            r.runtime_state == runtime_state,
            r.adapters == self.adapters,
            r.sensor_feeds == self.sensor_feeds,
            r.relay == self.relay,
            r.active_model_ids == self.active_model_ids,
            r.degraded_capabilities == self.degraded_capabilities,
            r.storage == (match self.storage { Some(s) => s, None => StorageHealth::Healthy }),
            r.time_source == (match self.time_source { Some(t) => t, None => TimeSourceHealth::LocalOnly }),
            r.configuration_version == configuration_version,
            r.build_id == build_id,
    {
        SystemHealth {
            schema_version: health_schema(),
            captured_at,
            runtime_state,
            adapters: self.adapters,
            sensor_feeds: self.sensor_feeds,
            storage: match self.storage { Some(s) => s, None => StorageHealth::Healthy },
            relay: self.relay,
            time_source: match self.time_source { Some(t) => t, None => TimeSourceHealth::LocalOnly },
            active_model_ids: self.active_model_ids,
            configuration_version,
            build_id,
            degraded_capabilities: self.degraded_capabilities,
        }
    }
}

} // verus!
