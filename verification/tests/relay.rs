use aeon::contracts::ids::{ActorId, DestinationId, RelayMessageId};
use aeon::contracts::json::JsonValue;
use aeon::contracts::prohibited::{ScopeRejection, PROHIBITED_TOKENS};
use aeon::contracts::relay::{
    AckState, Classification, DeliveryState, RelayEnvelope, RelayMessageKind, Releasability,
};
use aeon::contracts::version::relay_schema;
use aeon::digest::sha256_hex;
use aeon::relay::allowlist::{is_allowed, ALLOWED_KINDS};
use aeon::relay::gateway::{RelayGateway, RelayRejectReason};
use aeon::relay::policy::{DestinationPolicy, RelayPolicy};
use aeon::relay::signing::{canonical_envelope_digest, elapsed_exceeds, sign, verify, AntiReplayCache};

const SECOND: i128 = 1_000_000_000;

fn key() -> Vec<u8> {
    b"aeon-baseline-key".to_vec()
}

fn policy() -> RelayPolicy {
    let mut p = RelayPolicy {
        destinations: Vec::new(),
        one_way_export: false,
        anti_replay_ttl_seconds: 3600,
        max_messages_per_minute_per_destination: 60,
        max_queue_depth_per_destination: 4,
    };
    p.insert_destination(
        "peer-a",
        DestinationPolicy {
            destination: DestinationId::new("peer-a"),
            allowed_kinds: vec![RelayMessageKind::TrackState, RelayMessageKind::Alert],
            allowed_classification_labels: vec!["UNCLASSIFIED".into(), "OFFICIAL".into()],
            communities: vec!["blue".into()],
            max_payload_bytes: 1024,
            public_key_hex: "pk".into(),
        },
    );
    p
}

fn env(kind: RelayMessageKind, dest: &str, payload: JsonValue, payload_text: &str, key_ok: bool) -> RelayEnvelope {
    let mid = RelayMessageId::new();
    let nonce = format!("n-{}", uuid::Uuid::new_v4());
    let payload_digest = sha256_hex(payload_text.as_bytes());
    let k = key();
    let sig = sign(if key_ok { &k } else { b"other" }, &payload_digest);
    RelayEnvelope {
        schema_version: relay_schema(),
        message_id: mid,
        destination: DestinationId::new(dest),
        kind,
        payload_schema: relay_schema(),
        payload_json: payload,
        payload_text: payload_text.to_string(),
        payload_digest_hex: payload_digest,
        classification: Classification { label: "UNCLASSIFIED".into(), caveats: vec![] },
        releasability: Releasability { allowed_communities: vec!["blue".into()] },
        created_at: 0,
        expires_at: 3600 * SECOND,
        sender: ActorId::new("sender-1"),
        signature_hex: sig,
        anti_replay_nonce_hex: nonce,
        delivery_state: DeliveryState::Queued,
        ack_state: AckState::NoAck,
    }
}

fn empty() -> (JsonValue, &'static str) {
    (JsonValue::Object(vec![]), "{}")
}

fn with_member(k: &str, v: JsonValue) -> JsonValue {
    JsonValue::Object(vec![(k.to_string(), v)])
}

#[test]
fn all_four_permitted_kinds_are_allowed() {
    for k in ALLOWED_KINDS {
        assert!(is_allowed(k));
    }
}

#[test]
fn allowlist_size_is_exactly_four() {
    assert_eq!(ALLOWED_KINDS.len(), 4);
}

#[test]
fn sign_then_verify_round_trip() {
    let key = b"secret";
    let sig = sign(key, "abc");
    assert!(verify(key, "abc", &sig));
    assert!(!verify(key, "abd", &sig));
    assert!(!verify(b"other", "abc", &sig));
    let mut framed = key.to_vec();
    framed.extend_from_slice(b"abc");
    assert_eq!(sig, sha256_hex(&framed));
    assert!(!verify(key, "abc", &sig[..63]));
}

#[test]
fn anti_replay_cache_rejects_repeat_within_window() {
    let mut c = AntiReplayCache::new(60);
    assert!(c.observe("nonce-1", 0));
    assert!(!c.observe("nonce-1", 0));
    assert!(!c.observe("nonce-1", 60 * SECOND));
    assert!(c.observe("nonce-2", 0));
}

#[test]
fn anti_replay_cache_forgets_after_ttl() {
    let mut c = AntiReplayCache::new(10);
    c.observe("n", 0);
    assert!(c.observe("n", 11 * SECOND));
}

#[test]
fn elapsed_counts_whole_seconds() {
    assert!(!elapsed_exceeds(10 * SECOND, 0, 10));
    assert!(!elapsed_exceeds(11 * SECOND - 1, 0, 10));
    assert!(elapsed_exceeds(11 * SECOND, 0, 10));
    assert!(!elapsed_exceeds(0, 100 * SECOND, 10));
    assert!(elapsed_exceeds(i128::MAX, i128::MIN, 10));
}

#[test]
fn canonical_digest_frames_fields() {
    let a = canonical_envelope_digest("m", "peer-a", "\"track_state\"", "pd", 0, 3600 * SECOND, "sender-1", "n");
    let b = canonical_envelope_digest("m", "peer-a", "\"track_state\"", "pd", 0, 3600 * SECOND, "sender-1", "n");
    let c = canonical_envelope_digest("m", "peer-a", "\"track_state\"", "pd", 0, 3600 * SECOND, "sender-1", "n2");
    assert_eq!(a, b);
    assert_ne!(a, c);
    assert_eq!(a.len(), 64);
}

#[test]
fn valid_track_state_is_accepted() {
    let mut g = RelayGateway::new(policy(), key());
    let e = env(
        RelayMessageKind::TrackState,
        "peer-a",
        with_member("t", JsonValue::String("clean".into())),
        "{\"t\":\"clean\"}",
        true,
    );
    let r = g.submit(e, 0).unwrap();
    assert_eq!(r, DeliveryState::Queued);
    assert_eq!(g.queued_depth("peer-a"), 1);
}

#[test]
fn unknown_destination_is_rejected() {
    let mut g = RelayGateway::new(policy(), key());
    let (p, t) = empty();
    let e = env(RelayMessageKind::TrackState, "peer-x", p, t, true);
    assert_eq!(g.submit(e, 0).unwrap_err(), RelayRejectReason::UnknownDestination);
    assert_eq!(g.dead_letters().len(), 1);
}

#[test]
fn kind_not_authorized_for_destination_rejected() {
    let mut g = RelayGateway::new(policy(), key());
    let (p, t) = empty();
    let e = env(RelayMessageKind::SystemHealth, "peer-a", p, t, true);
    assert_eq!(g.submit(e, 0).unwrap_err(), RelayRejectReason::KindNotAuthorizedForDestination);
}

#[test]
fn prohibited_content_is_rejected() {
    let bad_key = PROHIBITED_TOKENS
        .iter()
        .find(|t| t.starts_with("fir"))
        .copied()
        .expect("PROHIBITED_TOKENS must contain a fir* token");
    let mut g = RelayGateway::new(policy(), key());
    let payload = with_member(bad_key, with_member("x", JsonValue::Number("1".into())));
    let text = format!("{{\"{}\":{{\"x\":1}}}}", bad_key);
    let e = env(RelayMessageKind::TrackState, "peer-a", payload, &text, true);
    let err = g.submit(e, 0).unwrap_err();
    assert!(matches!(err, RelayRejectReason::ProhibitedContent(_)));
    if let RelayRejectReason::ProhibitedContent(ScopeRejection::ProhibitedContent { token, field_hint }) = err {
        assert_eq!(token, bad_key);
        assert_eq!(field_hint, format!(".{}", bad_key));
    }
}

#[test]
fn invalid_signature_is_rejected() {
    let mut g = RelayGateway::new(policy(), key());
    let (p, t) = empty();
    let e = env(RelayMessageKind::TrackState, "peer-a", p, t, false);
    assert_eq!(g.submit(e, 0).unwrap_err(), RelayRejectReason::InvalidSignature);
}

#[test]
fn replay_attempt_is_rejected() {
    let mut g = RelayGateway::new(policy(), key());
    let e = env(
        RelayMessageKind::TrackState,
        "peer-a",
        with_member("t", JsonValue::Number("1".into())),
        "{\"t\":1}",
        true,
    );
    let e2 = e.clone();
    g.submit(e, 0).unwrap();
    assert_eq!(g.submit(e2, 0).unwrap_err(), RelayRejectReason::ReplayDetected);
}

#[test]
fn expired_envelope_is_rejected() {
    let mut g = RelayGateway::new(policy(), key());
    let (p, t) = empty();
    let e = env(RelayMessageKind::TrackState, "peer-a", p, t, true);
    let future = 2 * 86_400 * SECOND;
    assert_eq!(g.submit(e, future).unwrap_err(), RelayRejectReason::Expired);
}

#[test]
fn oversized_payload_is_rejected() {
    let mut g = RelayGateway::new(policy(), key());
    let big = "x".repeat(2048);
    let text = format!("{{\"pad\":\"{}\"}}", big);
    let e = env(RelayMessageKind::TrackState, "peer-a", with_member("pad", JsonValue::String(big)), &text, true);
    let err = g.submit(e, 0).unwrap_err();
    assert!(matches!(err, RelayRejectReason::OversizedPayload { .. }));
    assert_eq!(err, RelayRejectReason::OversizedPayload { got: 2058, limit: 1024 });
}

#[test]
fn missing_classification_and_releasability_are_rejected() {
    let mut g = RelayGateway::new(policy(), key());
    let (p, t) = empty();
    let mut e = env(RelayMessageKind::TrackState, "peer-a", p, t, true);
    e.classification.label = String::new();
    assert_eq!(g.submit(e, 0).unwrap_err(), RelayRejectReason::MissingClassification);
    let (p, t) = empty();
    let mut e = env(RelayMessageKind::TrackState, "peer-a", p, t, true);
    e.classification.label = "SECRET".into();
    assert_eq!(g.submit(e, 0).unwrap_err(), RelayRejectReason::ClassificationNotPermitted);
    let (p, t) = empty();
    let mut e = env(RelayMessageKind::TrackState, "peer-a", p, t, true);
    e.releasability.allowed_communities.clear();
    assert_eq!(g.submit(e, 0).unwrap_err(), RelayRejectReason::MissingReleasability);
    let (p, t) = empty();
    let mut e = env(RelayMessageKind::TrackState, "peer-a", p, t, true);
    e.releasability.allowed_communities = vec!["red".into()];
    assert_eq!(g.submit(e, 0).unwrap_err(), RelayRejectReason::ReleasabilityMismatch);
    assert_eq!(g.dead_letters().len(), 4);
}

#[test]
fn rate_limit_refuses_beyond_the_per_minute_budget() {
    let mut p = policy();
    p.max_messages_per_minute_per_destination = 2;
    p.max_queue_depth_per_destination = 10;
    let mut g = RelayGateway::new(p, key());
    for i in 0..3 {
        let (pl, t) = empty();
        let e = env(RelayMessageKind::TrackState, "peer-a", pl, t, true);
        let r = g.submit(e, i * SECOND);
        if i < 2 {
            assert!(r.is_ok());
        } else {
            assert_eq!(r.unwrap_err(), RelayRejectReason::RateLimited);
        }
    }
    // A new window opens once more than sixty whole seconds have passed.
    let (pl, t) = empty();
    let e = env(RelayMessageKind::TrackState, "peer-a", pl, t, true);
    assert!(g.submit(e, 61 * SECOND).is_ok());
}

#[test]
fn queue_full_dead_letters() {
    let mut p = policy();
    p.max_queue_depth_per_destination = 2;
    let mut g = RelayGateway::new(p, key());
    for i in 0..3 {
        let text = format!("{{\"i\":{}}}", i);
        let e = env(
            RelayMessageKind::TrackState,
            "peer-a",
            with_member("i", JsonValue::Number(i.to_string())),
            &text,
            true,
        );
        let r = g.submit(e, 0);
        if i < 2 {
            assert!(r.is_ok());
        } else {
            assert_eq!(r.unwrap_err(), RelayRejectReason::DeadLettered);
        }
    }
    assert_eq!(g.dead_letters().len(), 1);
}

#[test]
fn drain_one_transitions_delivery_state() {
    let mut g = RelayGateway::new(policy(), key());
    let (p, t) = empty();
    let e = env(RelayMessageKind::TrackState, "peer-a", p, t, true);
    g.submit(e, 0).unwrap();
    let out = g.drain_one("peer-a").unwrap();
    assert_eq!(out.delivery_state, DeliveryState::Delivered);
    assert_eq!(out.ack_state, AckState::Pending);
    assert!(g.drain_one("peer-a").is_none());
    assert!(g.drain_one("peer-z").is_none());
}

#[test]
fn drain_is_first_in_first_out() {
    let mut g = RelayGateway::new(policy(), key());
    let mut nonces = Vec::new();
    for i in 0..3 {
        let text = format!("{{\"i\":{}}}", i);
        let e = env(
            RelayMessageKind::Alert,
            "peer-a",
            with_member("i", JsonValue::Number(i.to_string())),
            &text,
            true,
        );
        nonces.push(e.anti_replay_nonce_hex.clone());
        g.submit(e, 0).unwrap();
    }
    for n in nonces {
        assert_eq!(g.drain_one("peer-a").unwrap().anti_replay_nonce_hex, n);
    }
}

#[test]
fn one_way_export_expects_no_acknowledgment() {
    let mut p = policy();
    p.one_way_export = true;
    let mut g = RelayGateway::new(p, key());
    let (pl, t) = empty();
    g.submit(env(RelayMessageKind::TrackState, "peer-a", pl, t, true), 0).unwrap();
    assert_eq!(g.drain_one("peer-a").unwrap().ack_state, AckState::NoAck);
}

#[test]
fn gateway_counters_are_readable_through_accessors() {
    let mut g = RelayGateway::new(policy(), key());
    let (p, t) = empty();
    let e = env(RelayMessageKind::TrackState, "peer-x", p, t, true);
    assert!(g.submit(e, 0).is_err());
    assert_eq!(g.rejected_total(), 1);
    assert_eq!(g.rejected_total(), g.rejected);
    assert_eq!(g.delivered_total(), 0);
    assert_eq!(g.delivered_total(), g.delivered);
    assert_eq!(g.policy_in_force().anti_replay_ttl_seconds, g.policy.anti_replay_ttl_seconds);
}
