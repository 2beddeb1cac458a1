use aeon::adapters::{
    is_blank_line, judge_clock_rollback, judge_duplicate_sequence, judge_malformed, judge_requires_connect_first,
    judge_restart, validate_synthetic_configuration, AdapterError, ReplayGuard, SyntheticCursor, SYNTHETIC_SEED,
};

#[test]
fn synthetic_passes_pre_connect_check() {
    let mut a = SyntheticCursor::new(5);
    let read = a.next_emission();
    assert!(matches!(&read, Err(AdapterError::Connect(m)) if m == "adapter not connected"));
    let r = judge_requires_connect_first(read.is_err());
    assert!(r.passed);
    assert_eq!(r.case, "requires_connect_first");
    assert_eq!(r.detail, "rejected pre-connect");
    assert!(!judge_requires_connect_first(false).passed);
}

#[test]
fn synthetic_validates_configuration() {
    assert_eq!(
        validate_synthetic_configuration(false, 5, "s1"),
        Err(AdapterError::InvalidConfiguration("tick_seconds must be > 0".into()))
    );
    assert_eq!(
        validate_synthetic_configuration(true, 0, "s1"),
        Err(AdapterError::InvalidConfiguration("max_observations must be > 0".into()))
    );
    assert_eq!(
        validate_synthetic_configuration(true, 5, ""),
        Err(AdapterError::InvalidConfiguration("sensor_id must be non-empty".into()))
    );
    assert!(validate_synthetic_configuration(true, 5, "s1").is_ok());
}

#[test]
fn synthetic_produces_deterministic_stream() {
    let mut a = SyntheticCursor::new(5);
    a.connect();
    let mut b = SyntheticCursor::new(5);
    b.connect();
    for tick in 0..5u32 {
        let x = a.next_emission().unwrap().unwrap();
        let y = b.next_emission().unwrap().unwrap();
        assert_eq!(x, y);
        assert_eq!(x.tick, tick);
        assert_eq!(x.sequence_number, tick as u64 + 1);
        let mut bytes = [0u8; 16];
        bytes[..8].copy_from_slice(&SYNTHETIC_SEED.to_be_bytes());
        bytes[8..12].copy_from_slice(&tick.to_be_bytes());
        bytes[12..].copy_from_slice(&tick.to_be_bytes());
        assert_eq!(x.observation_id, u128::from_be_bytes(bytes));
    }
    assert!(a.next_emission().unwrap().is_none());
    assert!(b.next_emission().unwrap().is_none());
    let d = a.diagnostic();
    assert!(d.connected);
    assert_eq!(d.observations_forwarded, 5);
    assert_eq!(d.observations_rejected, 0);
    assert_eq!(d.last_sequence, Some(5));
}

#[test]
fn synthetic_shutdown_and_reconnect() {
    let mut a = SyntheticCursor::new(3);
    a.connect();
    a.next_emission().unwrap();
    a.shutdown();
    assert!(a.next_emission().is_err());
    a.connect();
    let r = judge_restart(true, true);
    assert!(r.passed, "{}", r.detail);
    assert_eq!(a.next_emission().unwrap().unwrap().sequence_number, 2);
    assert_eq!(judge_restart(false, true).detail, "shutdown failed");
    assert_eq!(judge_restart(true, false).detail, "reconnect failed");
}

#[test]
fn replay_malformed_line_yields_typed_error() {
    let mut g = ReplayGuard::new();
    g.set_connected(true);
    let e = g.reject_malformed("expected value at line 1 column 1".into());
    assert_eq!(e, AdapterError::Malformed("expected value at line 1 column 1".into()));
    let r = judge_malformed(matches!(e, AdapterError::Malformed(_)), "");
    assert!(r.passed, "{}", r.detail);
    assert_eq!(g.diagnostic().observations_rejected, 1);
    let bad = judge_malformed(false, "Ok(None)");
    assert!(!bad.passed);
    assert_eq!(bad.detail, "expected Malformed, got Ok(None)");
}

#[test]
fn replay_guard_refuses_duplicates_and_rollbacks() {
    let mut g = ReplayGuard::new();
    assert!(g.screen(1, 100).is_ok());
    assert_eq!(g.screen(1, 200), Err(AdapterError::DuplicateSequence(1)));
    assert_eq!(g.screen(2, 50), Err(AdapterError::ClockRollback { seen_ns: 100, received_ns: 50 }));
    assert!(g.screen(2, 100).is_ok());
    let d = g.diagnostic();
    assert_eq!(d.observations_forwarded, 2);
    assert_eq!(d.observations_rejected, 2);
    assert_eq!(d.last_sequence, Some(2));
    g.set_checks(false, false);
    assert!(g.screen(2, 0).is_ok());
    assert!(judge_duplicate_sequence(true, "").passed);
    assert_eq!(
        judge_duplicate_sequence(false, "Ok(Some(..))").detail,
        "expected DuplicateSequence, got Ok(Some(..))"
    );
    assert!(judge_clock_rollback(true, "").passed);
    assert_eq!(judge_clock_rollback(false, "x").detail, "expected ClockRollback, got x");
}

#[test]
fn blank_lines_are_recognised() {
    assert!(is_blank_line(""));
    assert!(is_blank_line(" \t\r\n\u{a0}\u{3000}"));
    assert!(!is_blank_line("  {}  "));
}
