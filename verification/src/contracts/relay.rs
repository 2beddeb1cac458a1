//! Outbound relay envelope. The variants of [`RelayMessageKind`] are the
//! entire informational surface that may be transmitted to external systems.

use vstd::prelude::*;
use crate::contracts::ids::{ActorId, DestinationId, RelayMessageId};
use crate::contracts::json::JsonValue;
use crate::contracts::version::{relay_schema, SchemaVersion};

verus! {

/// The complete permitted outbound-message surface.
#[derive(Debug, Clone, Copy, PartialEq, Eq, Structural)]
pub enum RelayMessageKind {
    /// A published track state or track update summary.
    TrackState,
    /// A summary of one or more observations.
    ObservationSummary,
    /// A system-health snapshot for authorized monitoring peers.
    SystemHealth,
    /// An operator alert for authorized situational-awareness consumers.
    Alert,
}

impl RelayMessageKind {
    /// The snake-case wire name of the kind.
    pub fn wire_name(&self) -> (r: &'static str)
        ensures
            r@ == kind_wire_name(*self),
    {
        match self {
            RelayMessageKind::TrackState => "track_state",
            RelayMessageKind::ObservationSummary => "observation_summary",
            RelayMessageKind::SystemHealth => "system_health",
            RelayMessageKind::Alert => "alert",
        }
    }
}

pub open spec fn kind_wire_name(k: RelayMessageKind) -> Seq<char> {
    match k {
        RelayMessageKind::TrackState => "track_state"@,
        RelayMessageKind::ObservationSummary => "observation_summary"@,
        RelayMessageKind::SystemHealth => "system_health"@,
        RelayMessageKind::Alert => "alert"@,
    }
}

/// Sensitivity label; the relay policy decides which labels a destination takes.
#[derive(Debug, Clone, PartialEq, Eq)]
pub struct Classification {
    pub label: String,
    pub caveats: Vec<String>,
}

/// Communities a message may be released to.
#[derive(Debug, Clone, PartialEq, Eq)]
pub struct Releasability {
    pub allowed_communities: Vec<String>,
}

#[derive(Debug, Clone, Copy, PartialEq, Eq, Structural)]
pub enum DeliveryState {
    Queued,
    InFlight,
    Delivered,
    DeadLettered,
    Rejected,
}

#[derive(Debug, Clone, Copy, PartialEq, Eq, Structural)]
pub enum AckState {
    /// No acknowledgment is expected (one-way export).
    NoAck,
    Pending,
    Acknowledged,
    Nacked,
}

/// An outbound message. Instants are Unix-epoch nanoseconds.
///
/// `payload_text` is the compact JSON text of `payload_json` as it goes on
/// the wire; its byte length is what a destination's size limit bounds.
#[derive(Debug, Clone)]
pub struct RelayEnvelope {
    pub schema_version: SchemaVersion,
    pub message_id: RelayMessageId,
    pub destination: DestinationId,
    pub kind: RelayMessageKind,
    pub payload_schema: SchemaVersion,
    pub payload_json: JsonValue,
    pub payload_text: String,
    pub payload_digest_hex: String,
    pub classification: Classification,
    pub releasability: Releasability,
    pub created_at: i128,
    pub expires_at: i128,
    pub sender: ActorId,
    pub signature_hex: String,
    pub anti_replay_nonce_hex: String,
    pub delivery_state: DeliveryState,
    pub ack_state: AckState,
}

impl RelayEnvelope {
    pub fn schema() -> (r: SchemaVersion)
        ensures
            r.name@ == "relay_envelope"@,
            r.major == 1,
            r.minor == 0,
    {
        relay_schema()
    }
}

} // verus!
