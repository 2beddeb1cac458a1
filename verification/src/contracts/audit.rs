//! Immutable audit events with a chained integrity digest.

use vstd::prelude::*;
use vstd::utf8::encode_utf8;
use crate::contracts::ids::{ActorId, AuditEventId};
use crate::contracts::version::{audit_schema, SchemaVersion};
use crate::digest::{append_bytes, append_str, be_bytes, hex_lower, i128_be, sha256_hex, sha256_spec, twos_128, u64_be};

verus! {

#[derive(Debug, Clone, Copy, PartialEq, Eq, Structural)]
pub enum AuditEventType {
    RuntimeStateChanged,
    AdapterConnected,
    AdapterDisconnected,
    ObservationReceived,
    ObservationRejected,
    NormalizationApplied,
    TrackCreated,
    TrackUpdated,
    TrackRetired,
    CorrectionApplied,
    ModelActivated,
    ModelRolledBack,
    RelayQueued,
    RelayDelivered,
    RelayRejected,
    RelayReplayAttemptRejected,
    AlertRaised,
    AlertAcknowledged,
    ConfigurationValidated,
    ConfigurationActivated,
    ConfigurationRejected,
    ReplaySessionStarted,
    ReplaySessionEnded,
    ScopeBoundaryViolationAttempt,
    IntegrityViolation,
}

/// The snake-case wire name of an audit event type.
pub open spec fn event_type_name(t: AuditEventType) -> Seq<char> {
    match t {
        AuditEventType::RuntimeStateChanged => "runtime_state_changed"@,
        AuditEventType::AdapterConnected => "adapter_connected"@,
        AuditEventType::AdapterDisconnected => "adapter_disconnected"@,
        AuditEventType::ObservationReceived => "observation_received"@,
        AuditEventType::ObservationRejected => "observation_rejected"@,
        AuditEventType::NormalizationApplied => "normalization_applied"@,
        AuditEventType::TrackCreated => "track_created"@,
        AuditEventType::TrackUpdated => "track_updated"@,
        AuditEventType::TrackRetired => "track_retired"@,
        AuditEventType::CorrectionApplied => "correction_applied"@,
        AuditEventType::ModelActivated => "model_activated"@,
        AuditEventType::ModelRolledBack => "model_rolled_back"@,
        AuditEventType::RelayQueued => "relay_queued"@,
        AuditEventType::RelayDelivered => "relay_delivered"@,
        AuditEventType::RelayRejected => "relay_rejected"@,
        AuditEventType::RelayReplayAttemptRejected => "relay_replay_attempt_rejected"@,
        AuditEventType::AlertRaised => "alert_raised"@,
        AuditEventType::AlertAcknowledged => "alert_acknowledged"@,
        AuditEventType::ConfigurationValidated => "configuration_validated"@,
        AuditEventType::ConfigurationActivated => "configuration_activated"@,
        AuditEventType::ConfigurationRejected => "configuration_rejected"@,
        AuditEventType::ReplaySessionStarted => "replay_session_started"@,
        AuditEventType::ReplaySessionEnded => "replay_session_ended"@,
        AuditEventType::ScopeBoundaryViolationAttempt => "scope_boundary_violation_attempt"@,
        AuditEventType::IntegrityViolation => "integrity_violation"@,
    }
}

impl AuditEventType {
    /// The snake-case wire name of the event type.
    pub fn wire_name(&self) -> (r: &'static str)
        ensures
            r@ == event_type_name(*self),
    {
        match self {
            AuditEventType::RuntimeStateChanged => "runtime_state_changed",
            AuditEventType::AdapterConnected => "adapter_connected",
            AuditEventType::AdapterDisconnected => "adapter_disconnected",
            AuditEventType::ObservationReceived => "observation_received",
            AuditEventType::ObservationRejected => "observation_rejected",
            AuditEventType::NormalizationApplied => "normalization_applied",
            AuditEventType::TrackCreated => "track_created",
            AuditEventType::TrackUpdated => "track_updated",
            AuditEventType::TrackRetired => "track_retired",
            AuditEventType::CorrectionApplied => "correction_applied",
            AuditEventType::ModelActivated => "model_activated",
            AuditEventType::ModelRolledBack => "model_rolled_back",
            AuditEventType::RelayQueued => "relay_queued",
            AuditEventType::RelayDelivered => "relay_delivered",
            AuditEventType::RelayRejected => "relay_rejected",
            AuditEventType::RelayReplayAttemptRejected => "relay_replay_attempt_rejected",
            AuditEventType::AlertRaised => "alert_raised",
            AuditEventType::AlertAcknowledged => "alert_acknowledged",
            AuditEventType::ConfigurationValidated => "configuration_validated",
            AuditEventType::ConfigurationActivated => "configuration_activated",
            AuditEventType::ConfigurationRejected => "configuration_rejected",
            AuditEventType::ReplaySessionStarted => "replay_session_started",
            AuditEventType::ReplaySessionEnded => "replay_session_ended",
            AuditEventType::ScopeBoundaryViolationAttempt => "scope_boundary_violation_attempt",
            AuditEventType::IntegrityViolation => "integrity_violation",
        }
    }
}

/// An audit event. `occurred_at` is Unix-epoch nanoseconds.
#[derive(Debug, Clone)]
pub struct AuditEvent {
    pub schema_version: SchemaVersion,
    pub event_id: AuditEventId,
    pub actor: ActorId,
    pub runtime_id: String,
    pub event_type: AuditEventType,
    pub target: String,
    pub before_ref: Option<String>,
    pub after_ref: Option<String>,
    pub occurred_at: i128,
    pub sequence: u64,
    pub correlation_id: Option<String>,
    pub integrity_digest_hex: String,
    pub security_context: String,
}

/// The bytes an audit digest is taken over: actor, runtime id, the event
/// type as a JSON string (quoted wire name), target, sequence (8 bytes
/// big-endian), occurrence instant (16 bytes big-endian) and the previous
/// event's digest.
pub open spec fn audit_digest_input(
    actor: Seq<char>,
    runtime_id: Seq<char>,
    event_type: AuditEventType,
    target: Seq<char>,
    sequence: u64,
    occurred_at_unix_nanos: int,
    previous_digest_hex: Seq<char>,
) -> Seq<u8> {
    encode_utf8(actor) + encode_utf8(runtime_id) + encode_utf8(seq!['"'])
        + encode_utf8(event_type_name(event_type)) + encode_utf8(seq!['"']) + encode_utf8(target) + be_bytes(sequence as nat, 8) + be_bytes(twos_128(occurred_at_unix_nanos), 16)
        + encode_utf8(previous_digest_hex)
}

impl AuditEvent {
    pub fn schema() -> (r: SchemaVersion)
        ensures
            r.name@ == "audit"@,
            r.major == 1,
            r.minor == 0,
    {
        audit_schema()
    }

    /// The canonical integrity digest of an event, chained to the digest of
    /// the previous event so that tampering is detectable.
    pub fn compute_digest_hex(
        actor: &ActorId,
        runtime_id: &str,
        event_type: AuditEventType,
        target: &str,
        sequence: u64,
        occurred_at_unix_nanos: i128,
        previous_digest_hex: &str,
    ) -> (r: String)
        ensures
            r@ == hex_lower(sha256_spec(audit_digest_input(actor.0@, runtime_id@, event_type, target@, sequence,
                occurred_at_unix_nanos as int, previous_digest_hex@))),
    {
        let mut buf: Vec<u8> = Vec::new();
        append_str(&mut buf, actor.as_str());
        append_str(&mut buf, runtime_id);
        let q = "\"";
        proof { reveal_strlit("\""); }
        assert(q@ =~= seq!['"']);
        append_str(&mut buf, q);
        append_str(&mut buf, event_type.wire_name());
        append_str(&mut buf, q);
        append_str(&mut buf, target);
        let s = u64_be(sequence);
        append_bytes(&mut buf, s.as_slice());
        let t = i128_be(occurred_at_unix_nanos);
        append_bytes(&mut buf, t.as_slice());
        append_str(&mut buf, previous_digest_hex);
        assert(buf@ =~= audit_digest_input(actor.0@, runtime_id@, event_type, target@, sequence,
            occurred_at_unix_nanos as int, previous_digest_hex@));
        sha256_hex(buf.as_slice())
    }
}

} // verus!
