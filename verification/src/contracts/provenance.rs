//! Provenance: source identities, transformation chain and integrity state
//! attached to every material output. Instants are Unix-epoch nanoseconds.

use vstd::prelude::*;
use crate::contracts::ids::{AdapterId, ObservationId, SensorId, SourceSystemId};

verus! {

/// Integrity state of a value's chain of custody.
#[derive(Debug, PartialEq, Eq)]
pub enum Integrity {
    /// Signature verified, source authenticated.
    Verified,
    /// Signature missing but source policy permits unsigned here.
    Unsigned,
    /// Signature check failed; the value is untrusted.
    SignatureInvalid { reason: String },
    /// Source could not be authenticated.
    SourceUnknown,
    /// Value derives from other values; its integrity is the minimum of the
    /// contributing integrities.
    Derived { min_upstream: Box<Integrity> },
}

impl Integrity {
    pub fn deep_copy(&self) -> (r: Integrity)
        ensures
            r == *self,
        decreases *self,
    {
        match self {
            Integrity::Verified => Integrity::Verified,
            Integrity::Unsigned => Integrity::Unsigned,
            Integrity::SignatureInvalid { reason } => Integrity::SignatureInvalid { reason: reason.clone() },
            Integrity::SourceUnknown => Integrity::SourceUnknown,
            Integrity::Derived { min_upstream } => {
                let inner = (**min_upstream).deep_copy();
                Integrity::Derived { min_upstream: Box::new(inner) }
            },
        }
    }
}

impl Clone for Integrity {
    fn clone(&self) -> (r: Self)
        ensures
            r == *self,
    {
        self.deep_copy()
    }
}

/// Strength of an integrity state: Verified 4, Unsigned 3, SourceUnknown 2,
/// SignatureInvalid 1; a derived state is as strong as its weakest upstream.
pub open spec fn rank(i: Integrity) -> nat
    decreases i,
{
    match i {
        Integrity::Verified => 4,
        Integrity::Unsigned => 3,
        Integrity::SourceUnknown => 2,
        Integrity::SignatureInvalid { .. } => 1,
        Integrity::Derived { min_upstream } => rank(*min_upstream),
    }
}

/// Strength of an integrity state (see [`rank`]).
pub fn integrity_rank(i: &Integrity) -> (r: u8)
    ensures
        r as nat == rank(*i),
    decreases *i,
{
    match i {
        Integrity::Verified => 4,
        Integrity::Unsigned => 3,
        Integrity::SourceUnknown => 2,
        Integrity::SignatureInvalid { .. } => 1,
        Integrity::Derived { min_upstream } => integrity_rank(&**min_upstream),
    }
}

/// One step of a transformation chain.
#[derive(Debug, Clone, PartialEq, Eq)]
pub struct TransformationStep {
    pub operation: String,
    pub version: String,
    pub applied_at: i128,
}

/// Provenance record attached to normalized observations, track updates,
/// alerts and relay envelopes.
#[derive(Debug, Clone)]
pub struct Provenance {
    pub source_observations: Vec<ObservationId>,
    pub source_system: SourceSystemId,
    pub sensor: SensorId,
    pub adapter: AdapterId,
    pub adapter_version: String,
    pub receive_timestamp: i128,
    pub source_timestamp: i128,
    pub normalization_version: String,
    pub coordinate_transformation_version: String,
    pub track_algorithm_version: Option<String>,
    pub model_versions: Vec<String>,
    pub configuration_version: String,
    pub build_id: String,
    pub processing_sequence: u64,
    pub integrity: Integrity,
    pub transformation_chain: Vec<TransformationStep>,
}

} // verus!
