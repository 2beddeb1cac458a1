//! Typed, versioned configuration, validated before activation.

use vstd::prelude::*;
use vstd::string::*;
use crate::digest::{hex_lower, sha256_hex, sha256_spec};

verus! {

#[derive(Debug, Clone, PartialEq)]
pub struct RuntimeConfig {
    pub runtime_id: String,
    pub build_id: String,
    pub max_ingest_queue: u32,
    pub max_relay_queue: u32,
    pub freshness_seconds: u32,
    pub clock_drift_tolerance_ms: u32,
    pub scope_boundary_scan_outbound: bool,
    pub allow_unsigned_sources: bool,
}

/// A reason a configuration is refused.
#[derive(Debug, Clone, Copy, PartialEq, Eq, Structural)]
pub enum ConfigError {
    ZeroIngestQueue,
    ZeroRelayQueue,
    ZeroFreshness,
    OutboundScanDisabled,
    EmptyBuildId,
    EmptyRuntimeId,
    UnsignedSourcesAllowed,
}

impl ConfigError {
    /// The message of the error.
    pub fn message(&self) -> (r: &'static str)
        ensures
            r@ == config_error_message(*self),
    {
        match self {
            ConfigError::ZeroIngestQueue => "max_ingest_queue must be > 0",
            ConfigError::ZeroRelayQueue => "max_relay_queue must be > 0",
            ConfigError::ZeroFreshness => "freshness_seconds must be > 0",
            ConfigError::OutboundScanDisabled => "scope-boundary outbound scan cannot be disabled in a production config",
            ConfigError::EmptyBuildId => "build_id must be non-empty",
            ConfigError::EmptyRuntimeId => "runtime_id must be non-empty",
            ConfigError::UnsignedSourcesAllowed => "allow_unsigned_sources=true is not a production default",
        }
    }
}

/// The human-readable text of a configuration problem.
pub open spec fn config_error_message(e: ConfigError) -> Seq<char> {
    match e {
        ConfigError::ZeroIngestQueue => "max_ingest_queue must be > 0"@,
        ConfigError::ZeroRelayQueue => "max_relay_queue must be > 0"@,
        ConfigError::ZeroFreshness => "freshness_seconds must be > 0"@,
        ConfigError::OutboundScanDisabled => "scope-boundary outbound scan cannot be disabled in a production config"@,
        ConfigError::EmptyBuildId => "build_id must be non-empty"@,
        ConfigError::EmptyRuntimeId => "runtime_id must be non-empty"@,
        ConfigError::UnsignedSourcesAllowed => "allow_unsigned_sources=true is not a production default"@,
    }
}

/// `s` followed by `e` when `cond` holds.
pub open spec fn push_if(s: Seq<ConfigError>, cond: bool, e: ConfigError) -> Seq<ConfigError> {
    if cond { s.push(e) } else { s }
}

/// Every problem of the configuration, in the order they are checked. In
/// production mode the outbound scope scan must be on and unsigned sources
/// must be refused.
pub open spec fn config_errors(c: RuntimeConfig, production: bool) -> Seq<ConfigError> {
    let s0 = Seq::<ConfigError>::empty();
    let s1 = push_if(s0, c.max_ingest_queue == 0, ConfigError::ZeroIngestQueue);
    let s2 = push_if(s1, c.max_relay_queue == 0, ConfigError::ZeroRelayQueue);
    let s3 = push_if(s2, c.freshness_seconds == 0, ConfigError::ZeroFreshness);
    let s4 = push_if(s3, c.runtime_id@.len() == 0, ConfigError::EmptyRuntimeId);
    let s5 = push_if(s4, c.build_id@.len() == 0, ConfigError::EmptyBuildId);
    let s6 = push_if(s5, production && !c.scope_boundary_scan_outbound, ConfigError::OutboundScanDisabled);
    push_if(s6, production && c.allow_unsigned_sources, ConfigError::UnsignedSourcesAllowed)
}

impl RuntimeConfig {
    /// Validates the configuration; `production` enforces the fail-closed
    /// defaults. Returns every problem found.
    pub fn validate(&self, production: bool) -> (r: Result<(), Vec<ConfigError>>)
        ensures
            r is Ok <==> config_errors(*self, production).len() == 0,
            r matches Err(v) ==> v@ == config_errors(*self, production),
    {
        let mut errs: Vec<ConfigError> = Vec::new();
        if self.max_ingest_queue == 0 { errs.push(ConfigError::ZeroIngestQueue); }
        if self.max_relay_queue == 0 { errs.push(ConfigError::ZeroRelayQueue); }
        if self.freshness_seconds == 0 { errs.push(ConfigError::ZeroFreshness); }
        if self.runtime_id.as_str().unicode_len() == 0 { errs.push(ConfigError::EmptyRuntimeId); }
        if self.build_id.as_str().unicode_len() == 0 { errs.push(ConfigError::EmptyBuildId); }
        if production {
            if !self.scope_boundary_scan_outbound {
                errs.push(ConfigError::OutboundScanDisabled);
            }
            if self.allow_unsigned_sources {
                errs.push(ConfigError::UnsignedSourcesAllowed);
            }
        }
        assert(errs@ =~= config_errors(*self, production));
        if errs.len() == 0 { Ok(()) } else { Err(errs) }
    }

    /// Digest of a configuration: lower-case hex SHA-256 of its canonical
    /// serialisation. `canonical_json` must be the configuration as
    /// `serde_json::to_vec` renders it (the JSON object of its fields in
    /// declaration order); the caller at the edge makes that rendering, since
    /// serde's derive cannot stand on the verified type.
    pub fn digest_hex(canonical_json: &[u8]) -> (r: String)
        ensures
            r@ == hex_lower(sha256_spec(canonical_json@)),
    {
        sha256_hex(canonical_json)
    }
}

/// Outside production only the structural problems count: a disabled
/// outbound scan or allowed unsigned sources are never reported, and every
/// problem found outside production is also found in production.
pub proof fn law_production_only_adds_fail_closed_checks(c: RuntimeConfig)
    ensures
        !config_errors(c, false).contains(ConfigError::OutboundScanDisabled),
        !config_errors(c, false).contains(ConfigError::UnsignedSourcesAllowed),
        config_errors(c, false).is_prefix_of(config_errors(c, true)),
        config_errors(c, true).len() == config_errors(c, false).len()
            + (if c.scope_boundary_scan_outbound { 0int } else { 1int })
            + (if c.allow_unsigned_sources { 1int } else { 0int }),
{
    let f = config_errors(c, false);
    assert forall|i: int| 0 <= i < f.len() implies f[i] != ConfigError::OutboundScanDisabled
        && f[i] != ConfigError::UnsignedSourcesAllowed by {}
}

proof fn lemma_push_if(s: Seq<ConfigError>, cond: bool, x: ConfigError, y: ConfigError)
    ensures
        push_if(s, cond, x).contains(y) <==> (s.contains(y) || (cond && x == y)),
{
    if cond {
        if s.push(x).contains(y) && y != x {
            let k = choose|k: int| 0 <= k < s.push(x).len() && s.push(x)[k] == y;
            assert(s[k] == y);
        }
        if s.contains(y) {
            let k = choose|k: int| 0 <= k < s.len() && s[k] == y;
            assert(s.push(x)[k] == y);
        }
        if x == y {
            assert(s.push(x)[s.len() as int] == y);
        }
    }
}

/// Each problem is reported exactly when its own condition holds, whatever
/// the other fields say (a zero relay queue is refused even when the ingest
/// queue is fine), each at most once; so a configuration passes exactly
/// when every condition is met.
pub proof fn law_each_error_has_its_own_condition(c: RuntimeConfig, production: bool)
    ensures
        config_errors(c, production).contains(ConfigError::ZeroIngestQueue) <==> c.max_ingest_queue == 0,
        config_errors(c, production).contains(ConfigError::ZeroRelayQueue) <==> c.max_relay_queue == 0,
        config_errors(c, production).contains(ConfigError::ZeroFreshness) <==> c.freshness_seconds == 0,
        config_errors(c, production).contains(ConfigError::EmptyRuntimeId) <==> c.runtime_id@.len() == 0,
        config_errors(c, production).contains(ConfigError::EmptyBuildId) <==> c.build_id@.len() == 0,
        config_errors(c, production).contains(ConfigError::OutboundScanDisabled)
            <==> (production && !c.scope_boundary_scan_outbound),
        config_errors(c, production).contains(ConfigError::UnsignedSourcesAllowed)
            <==> (production && c.allow_unsigned_sources),
        forall|i: int, j: int| 0 <= i < j < config_errors(c, production).len()
            ==> #[trigger] config_errors(c, production)[i] != #[trigger] config_errors(c, production)[j],
        config_errors(c, production).len() == 0 <==> (c.max_ingest_queue > 0 && c.max_relay_queue > 0
            && c.freshness_seconds > 0 && c.runtime_id@.len() > 0 && c.build_id@.len() > 0
            && (production ==> c.scope_boundary_scan_outbound && !c.allow_unsigned_sources)),
{
    let s0 = Seq::<ConfigError>::empty();
    let s1 = push_if(s0, c.max_ingest_queue == 0, ConfigError::ZeroIngestQueue);
    let s2 = push_if(s1, c.max_relay_queue == 0, ConfigError::ZeroRelayQueue);
    let s3 = push_if(s2, c.freshness_seconds == 0, ConfigError::ZeroFreshness);
    let s4 = push_if(s3, c.runtime_id@.len() == 0, ConfigError::EmptyRuntimeId);
    let s5 = push_if(s4, c.build_id@.len() == 0, ConfigError::EmptyBuildId);
    let s6 = push_if(s5, production && !c.scope_boundary_scan_outbound, ConfigError::OutboundScanDisabled);
    let s7 = push_if(s6, production && c.allow_unsigned_sources, ConfigError::UnsignedSourcesAllowed);
    assert(s7 == config_errors(c, production));
    assert forall|y: ConfigError| #[trigger] s7.contains(y) <==> (
        (c.max_ingest_queue == 0 && y == ConfigError::ZeroIngestQueue)
        || (c.max_relay_queue == 0 && y == ConfigError::ZeroRelayQueue)
        || (c.freshness_seconds == 0 && y == ConfigError::ZeroFreshness)
        || (c.runtime_id@.len() == 0 && y == ConfigError::EmptyRuntimeId)
        || (c.build_id@.len() == 0 && y == ConfigError::EmptyBuildId)
        || (production && !c.scope_boundary_scan_outbound && y == ConfigError::OutboundScanDisabled)
        || (production && c.allow_unsigned_sources && y == ConfigError::UnsignedSourcesAllowed)) by {
        assert(!s0.contains(y));
        lemma_push_if(s0, c.max_ingest_queue == 0, ConfigError::ZeroIngestQueue, y);
        lemma_push_if(s1, c.max_relay_queue == 0, ConfigError::ZeroRelayQueue, y);
        lemma_push_if(s2, c.freshness_seconds == 0, ConfigError::ZeroFreshness, y);
        lemma_push_if(s3, c.runtime_id@.len() == 0, ConfigError::EmptyRuntimeId, y);
        lemma_push_if(s4, c.build_id@.len() == 0, ConfigError::EmptyBuildId, y);
        lemma_push_if(s5, production && !c.scope_boundary_scan_outbound, ConfigError::OutboundScanDisabled, y);
        lemma_push_if(s6, production && c.allow_unsigned_sources, ConfigError::UnsignedSourcesAllowed, y);
    }
    assert(s7.contains(ConfigError::ZeroIngestQueue) <==> c.max_ingest_queue == 0);
    assert(s7.contains(ConfigError::ZeroRelayQueue) <==> c.max_relay_queue == 0);
    assert(s7.contains(ConfigError::ZeroFreshness) <==> c.freshness_seconds == 0);
    assert(s7.contains(ConfigError::EmptyRuntimeId) <==> c.runtime_id@.len() == 0);
    assert(s7.contains(ConfigError::EmptyBuildId) <==> c.build_id@.len() == 0);
    assert(s7.contains(ConfigError::OutboundScanDisabled) <==> (production && !c.scope_boundary_scan_outbound));
    assert(s7.contains(ConfigError::UnsignedSourcesAllowed) <==> (production && c.allow_unsigned_sources));
    if s7.len() > 0 {
        assert(s7.contains(s7[0]));
    }
}

} // verus!
