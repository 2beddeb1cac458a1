use aeon::contracts::alert::{
    acknowledge_alert, Alert, AlertAcknowledgment, AlertCategory, AlertSeverity, RecommendedOperatorAction,
};
use aeon::contracts::audit::{AuditEvent, AuditEventType};
use aeon::contracts::ids::{ActorId, AlertId, TrackId};
use aeon::contracts::json::JsonValue;
use aeon::contracts::prohibited::{matches_prohibited, scan_json, ScopeRejection, PROHIBITED_TOKENS};
use aeon::contracts::version::{
    alert_schema, audit_schema, health_schema, normalized_schema, observation_schema, relay_schema, track_schema,
    track_update_schema, SchemaVersion,
};
use aeon::digest::sha256_hex;

fn obj(members: Vec<(&str, JsonValue)>) -> JsonValue {
    JsonValue::Object(members.into_iter().map(|(k, v)| (k.to_string(), v)).collect())
}

#[test]
fn direct_token_matches() {
    assert!(matches_prohibited("firing_solution").is_some());
    assert!(matches_prohibited("Fire-Solution").is_some());
    assert!(matches_prohibited("The system computes a Firing Solution").is_some());
}

#[test]
fn benign_content_passes() {
    assert!(matches_prohibited("track_state").is_none());
    assert!(matches_prohibited("system_health").is_none());
    assert!(matches_prohibited("observation summary payload").is_none());
}

#[test]
fn json_scan_detects_prohibited_field() {
    let v = obj(vec![
        ("kind", JsonValue::String("TrackState".into())),
        ("payload", obj(vec![("firing_solution", obj(vec![("x", JsonValue::Number("1".into()))]))])),
    ]);
    let r = scan_json(&v).unwrap();
    match r {
        ScopeRejection::ProhibitedContent { token, .. } => {
            assert_eq!(token, "firing_solution");
        }
    }
}

#[test]
fn json_scan_passes_clean_track_state() {
    let v = obj(vec![
        ("kind", JsonValue::String("TrackState".into())),
        (
            "payload",
            obj(vec![
                ("track_id", JsonValue::String("abc".into())),
                ("confidence", JsonValue::Number("0.7".into())),
                ("uncertainty_m", JsonValue::Number("42.0".into())),
            ]),
        ),
    ]);
    assert!(scan_json(&v).is_none());
}

#[test]
fn every_token_matches_in_case_and_separator_variants() {
    for tok in PROHIBITED_TOKENS {
        let mixed: String = tok
            .chars()
            .enumerate()
            .map(|(i, c)| if i % 2 == 0 { c.to_ascii_uppercase() } else { c })
            .collect();
        let hyphenated = tok.replace('_', "-");
        let spaced = tok.replace('_', " ");
        let dotted = tok.replace('_', ".");
        let slashed = tok.replace('_', "/");
        for s in [tok.to_string(), mixed, hyphenated, spaced, dotted, slashed] {
            assert!(matches_prohibited(&s).is_some(), "should match: {}", s);
        }
    }
}

#[test]
fn first_listed_token_is_reported() {
    // "fire_solution" is listed before "fire_control_bus".
    assert_eq!(matches_prohibited("FIRE_CONTROL_BUS fire solution"), Some("fire_solution"));
    assert_eq!(matches_prohibited("an aimpoint"), Some("aimpoint"));
    assert_eq!(matches_prohibited(""), None);
}

#[test]
fn json_scan_reports_field_path_of_value_and_key() {
    let v = obj(vec![(
        "payload",
        JsonValue::Array(vec![
            JsonValue::String("fine".into()),
            obj(vec![("note", JsonValue::String("Arm-Weapon now".into()))]),
        ]),
    )]);
    match scan_json(&v).unwrap() {
        ScopeRejection::ProhibitedContent { token, field_hint } => {
            assert_eq!(token, "arm_weapon");
            assert_eq!(field_hint, "payload[1].note");
        }
    }
    let k = obj(vec![("outer", obj(vec![("Launch Command", JsonValue::Null)]))]);
    match scan_json(&k).unwrap() {
        ScopeRejection::ProhibitedContent { token, field_hint } => {
            assert_eq!(token, "launch_command");
            assert_eq!(field_hint, "outer.Launch Command");
        }
    }
}

#[test]
fn schema_versions_are_named_and_at_one_zero() {
    let cases: Vec<(SchemaVersion, &str)> = vec![
        (observation_schema(), "observation"),
        (normalized_schema(), "normalized"),
        (track_schema(), "track"),
        (track_update_schema(), "track_update"),
        (health_schema(), "health"),
        (alert_schema(), "alert"),
        (relay_schema(), "relay_envelope"),
        (audit_schema(), "audit"),
    ];
    for (v, name) in cases {
        assert_eq!(v.name, name);
        assert_eq!(v.major, 1);
        assert_eq!(v.minor, 0);
    }
    let s = SchemaVersion::new("custom", 2, 3);
    assert_eq!(s, SchemaVersion { name: "custom".into(), major: 2, minor: 3 });
}

#[test]
fn identifiers_display_with_prefix_and_hyphens() {
    let t = TrackId(0x0123_4567_89ab_cdef_0011_2233_4455_6677);
    assert_eq!(t.display(), "trk:01234567-89ab-cdef-0011-223344556677");
    assert_eq!(t.as_uuid(), 0x0123_4567_89ab_cdef_0011_2233_4455_6677);
    let a = AlertId(1);
    assert_eq!(a.display(), "alt:00000000-0000-0000-0000-000000000001");
    assert_ne!(TrackId::new(), TrackId::new());
}

#[test]
fn audit_digest_frames_every_field() {
    let actor = ActorId::new("operator-7");
    let d = AuditEvent::compute_digest_hex(
        &actor,
        "runtime-1",
        AuditEventType::AlertAcknowledged,
        "alt:1",
        42,
        -5,
        "GENESIS",
    );
    let mut bytes: Vec<u8> = Vec::new();
    bytes.extend_from_slice(b"operator-7");
    bytes.extend_from_slice(b"runtime-1");
    bytes.extend_from_slice(b"\"alert_acknowledged\"");
    bytes.extend_from_slice(b"alt:1");
    bytes.extend_from_slice(&42u64.to_be_bytes());
    bytes.extend_from_slice(&(-5i128).to_be_bytes());
    bytes.extend_from_slice(b"GENESIS");
    assert_eq!(d, sha256_hex(&bytes));
    assert_eq!(d.len(), 64);
    let other = AuditEvent::compute_digest_hex(
        &actor,
        "runtime-1",
        AuditEventType::AlertRaised,
        "alt:1",
        42,
        -5,
        "GENESIS",
    );
    assert_ne!(d, other);
    assert_eq!(AuditEventType::ScopeBoundaryViolationAttempt.wire_name(), "scope_boundary_violation_attempt");
}

#[test]
fn sha256_and_hex_match_known_vectors() {
    assert_eq!(
        sha256_hex(b""),
        "e3b0c44298fc1c149afbf4c8996fb92427ae41e4649b934ca495991b7852b855"
    );
    assert_eq!(
        sha256_hex(b"abc"),
        "ba7816bf8f01cfea414140de5dae2223b00361a396177a9cb410ff61f20015ad"
    );
}

fn alert(id: u128) -> Alert {
    Alert {
        schema_version: Alert::schema(),
        alert_id: AlertId(id),
        severity: AlertSeverity::Warning,
        category: AlertCategory::SensorDropout,
        affected_component: "adapter:syn-1".into(),
        human_summary: "sensor dropout".into(),
        machine_reason: "dropout".into(),
        first_occurrence: 0,
        last_occurrence: 10,
        occurrence_count: 2,
        acknowledgment: AlertAcknowledgment::Unacknowledged,
        recommended_action: RecommendedOperatorAction::InspectAdapterLogs,
    }
}

#[test]
fn alert_acknowledgment_flips_state() {
    let mut alerts = vec![alert(1), alert(2)];
    assert!(acknowledge_alert(&mut alerts, 2));
    assert_eq!(alerts[0].acknowledgment, AlertAcknowledgment::Unacknowledged);
    assert_eq!(alerts[1].acknowledgment, AlertAcknowledgment::Acknowledged);
    assert_eq!(alerts[1].occurrence_count, 2);
    assert!(!acknowledge_alert(&mut alerts, 3));
    assert_eq!(alerts.len(), 2);
    assert!(AlertSeverity::Info < AlertSeverity::Critical);
}

#[test]
fn json_clone_copies_nested_values() {
    let v = obj(vec![
        ("a", JsonValue::Array(vec![JsonValue::Number("1".into()), JsonValue::Null])),
        ("b", obj(vec![("c", JsonValue::String("x".into())), ("d", JsonValue::Bool(true))])),
    ]);
    let c = v.clone();
    assert_eq!(format!("{c:?}"), format!("{v:?}"));
}

#[test]
fn fresh_ids_are_version_4_uuids() {
    for _ in 0..16 {
        let id = TrackId::new().as_uuid();
        assert_eq!(id & 0xF000C000000000000000u128, 0x40008000000000000000u128);
        let a = AlertId::new().as_uuid();
        assert_eq!(a & 0xF000C000000000000000u128, 0x40008000000000000000u128);
    }
}
