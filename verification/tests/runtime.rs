use aeon::contracts::health::{RuntimeState, StorageHealth, TimeSourceHealth};
use aeon::digest::sha256_hex;
use aeon::runtime::config::{ConfigError, RuntimeConfig};
use aeon::runtime::health::HealthBuilder;
use aeon::runtime::lifecycle::{RuntimeError, RuntimeSupervisor};

fn ok_cfg() -> RuntimeConfig {
    RuntimeConfig {
        runtime_id: "test".into(),
        build_id: "b1".into(),
        max_ingest_queue: 100,
        max_relay_queue: 100,
        freshness_seconds: 30,
        clock_drift_tolerance_ms: 500,
        scope_boundary_scan_outbound: true,
        allow_unsigned_sources: false,
    }
}

fn canonical(c: &RuntimeConfig) -> Vec<u8> {
    format!(
        "{{\"runtime_id\":\"{}\",\"build_id\":\"{}\",\"max_ingest_queue\":{},\"max_relay_queue\":{},\"freshness_seconds\":{},\"clock_drift_tolerance_ms\":{},\"scope_boundary_scan_outbound\":{},\"allow_unsigned_sources\":{}}}",
        c.runtime_id,
        c.build_id,
        c.max_ingest_queue,
        c.max_relay_queue,
        c.freshness_seconds,
        c.clock_drift_tolerance_ms,
        c.scope_boundary_scan_outbound,
        c.allow_unsigned_sources
    )
    .into_bytes()
}

#[test]
fn valid_config_passes_production_validation() {
    assert!(ok_cfg().validate(true).is_ok());
}

#[test]
fn zero_ingest_queue_is_rejected() {
    let mut c = ok_cfg();
    c.max_ingest_queue = 0;
    let e = c.validate(true).unwrap_err();
    assert!(matches!(e.first(), Some(ConfigError::ZeroIngestQueue)));
}

#[test]
fn production_requires_outbound_scan_and_signed_sources() {
    let mut c = ok_cfg();
    c.scope_boundary_scan_outbound = false;
    c.allow_unsigned_sources = true;
    let e = c.validate(true).unwrap_err();
    assert!(e.iter().any(|x| matches!(x, ConfigError::OutboundScanDisabled)));
    assert!(e.iter().any(|x| matches!(x, ConfigError::UnsignedSourcesAllowed)));
}

#[test]
fn non_production_is_permissive_but_still_rejects_zero_queues() {
    let mut c = ok_cfg();
    c.allow_unsigned_sources = true;
    c.scope_boundary_scan_outbound = false;
    assert!(c.validate(false).is_ok());
    c.max_ingest_queue = 0;
    assert!(c.validate(false).is_err());
}

#[test]
fn every_problem_is_reported_in_check_order() {
    let c = RuntimeConfig {
        runtime_id: String::new(),
        build_id: String::new(),
        max_ingest_queue: 0,
        max_relay_queue: 0,
        freshness_seconds: 0,
        clock_drift_tolerance_ms: 0,
        scope_boundary_scan_outbound: false,
        allow_unsigned_sources: true,
    };
    assert_eq!(
        c.validate(true).unwrap_err(),
        vec![
            ConfigError::ZeroIngestQueue,
            ConfigError::ZeroRelayQueue,
            ConfigError::ZeroFreshness,
            ConfigError::EmptyRuntimeId,
            ConfigError::EmptyBuildId,
            ConfigError::OutboundScanDisabled,
            ConfigError::UnsignedSourcesAllowed,
        ]
    );
    assert_eq!(c.validate(false).unwrap_err().len(), 5);
    assert_eq!(ConfigError::ZeroRelayQueue.message(), "max_relay_queue must be > 0");
}

#[test]
fn digest_is_stable_and_change_sensitive() {
    let a = ok_cfg();
    let mut b = a.clone();
    assert_eq!(RuntimeConfig::digest_hex(&canonical(&a)), RuntimeConfig::digest_hex(&canonical(&b)));
    b.max_ingest_queue = 200;
    assert_ne!(RuntimeConfig::digest_hex(&canonical(&a)), RuntimeConfig::digest_hex(&canonical(&b)));
    assert_eq!(RuntimeConfig::digest_hex(&canonical(&a)), sha256_hex(&canonical(&a)));
}

fn staged(production: bool) -> RuntimeSupervisor {
    let mut r = RuntimeSupervisor::new(production);
    let c = ok_cfg();
    r.validate_and_stage(&c, &canonical(&c)).unwrap();
    r
}

#[test]
fn happy_path_reaches_ready() {
    let mut r = staged(true);
    r.transition(RuntimeState::Ready).unwrap();
    assert_eq!(r.state(), RuntimeState::Ready);
}

#[test]
fn invalid_config_prevents_ready() {
    let mut bad = ok_cfg();
    bad.max_ingest_queue = 0;
    let mut r = RuntimeSupervisor::new(true);
    match r.validate_and_stage(&bad, &canonical(&bad)) {
        Err(RuntimeError::InvalidConfiguration(errs)) => assert_eq!(errs, vec![ConfigError::ZeroIngestQueue]),
        other => panic!("unexpected {:?}", other),
    }
    assert_eq!(r.state(), RuntimeState::Failed);
    // Reach Starting without a validated configuration: Ready is refused.
    r.transition(RuntimeState::Uninitialized).unwrap();
    r.transition(RuntimeState::ValidatingConfiguration).unwrap();
    r.transition(RuntimeState::Starting).unwrap();
    r.forget_validated_configuration();
    assert!(matches!(r.transition(RuntimeState::Ready), Err(RuntimeError::NoValidatedConfig)));
    assert_eq!(r.state(), RuntimeState::Starting);
}

#[test]
fn illegal_transition_is_rejected() {
    let mut r = RuntimeSupervisor::new(true);
    assert!(matches!(r.transition(RuntimeState::Ready), Err(RuntimeError::IllegalTransition { .. })));
    assert_eq!(r.state(), RuntimeState::Uninitialized);
}

#[test]
fn ready_can_degrade_and_recover() {
    let mut r = staged(true);
    r.transition(RuntimeState::Ready).unwrap();
    r.transition(RuntimeState::Degraded).unwrap();
    r.transition(RuntimeState::Ready).unwrap();
    assert_eq!(r.state(), RuntimeState::Ready);
}

#[test]
fn restart_recovery_path() {
    let mut r = staged(true);
    r.transition(RuntimeState::Ready).unwrap();
    r.transition(RuntimeState::ShuttingDown).unwrap();
    r.transition(RuntimeState::Uninitialized).unwrap();
    r.forget_validated_configuration();
    let c = ok_cfg();
    r.validate_and_stage(&c, &canonical(&c)).unwrap();
    r.transition(RuntimeState::Ready).unwrap();
}

#[test]
fn staging_outside_uninitialized_is_an_illegal_transition() {
    let mut r = staged(false);
    let c = ok_cfg();
    match r.validate_and_stage(&c, &canonical(&c)) {
        Err(RuntimeError::IllegalTransition { from, to }) => {
            assert_eq!(from, RuntimeState::Starting);
            assert_eq!(to, RuntimeState::ValidatingConfiguration);
        }
        other => panic!("unexpected {:?}", other),
    }
    let d = RuntimeSupervisor::new(false).validate_and_stage(&c, &canonical(&c)).unwrap();
    assert_eq!(d, sha256_hex(&canonical(&c)));
}

#[test]
fn lifecycle_refuses_self_steps_and_skips() {
    let mut r = staged(true);
    assert!(r.transition(RuntimeState::Starting).is_err());
    assert!(r.transition(RuntimeState::Uninitialized).is_err());
    r.transition(RuntimeState::Failed).unwrap();
    assert!(r.transition(RuntimeState::Ready).is_err());
    r.transition(RuntimeState::Uninitialized).unwrap();
}

#[test]
fn health_builder_defaults_are_conservative() {
    let h = HealthBuilder::default().build(RuntimeState::Ready, "cfg-0".into(), "build-0".into(), 0);
    assert_eq!(h.runtime_state, RuntimeState::Ready);
    assert_eq!(h.storage, StorageHealth::Healthy);
    assert_eq!(h.time_source, TimeSourceHealth::LocalOnly);
    assert!(h.adapters.is_empty());
    assert_eq!(h.configuration_version, "cfg-0");
    assert_eq!(h.schema_version.name, "health");
}
