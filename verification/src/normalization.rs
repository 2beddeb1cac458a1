//! Canonicalisation rules for raw sensor observations.
//!
//! Normalization never overwrites source values. For each pair of declared
//! frame and measurement kind it decides the canonical position outcome,
//! the coordinate quality, the transformation chain and the validation
//! notes, rejects what cannot be canonicalised with a typed fault, and
//! propagates the integrity state downstream. The geometry itself (reading
//! the measured numbers and comparing them with the WGS84 ranges) is done
//! by the caller, which hands in the outcome of each range and sigma check.

use vstd::prelude::*;
use crate::contracts::coords::{CoordinateQuality, FrameKind};
use crate::contracts::provenance::{rank, Integrity};

verus! {

pub const NORMALIZATION_VERSION: &'static str = "aeon-normalization/1.0";
pub const COORD_TRANSFORM_VERSION: &'static str = "aeon-coords/1.0";

/// Kind of a raw measurement payload.
#[derive(Debug, Clone, Copy, PartialEq, Eq, Structural)]
pub enum MeasurementKind {
    /// A position triple in the declared frame.
    Position,
    /// Range, bearing and elevation from the sensor.
    RangeBearingElevation,
    /// A vendor-native payload.
    VendorNative,
}

/// Why an observation cannot be normalised.
#[derive(Debug, Clone, Copy, PartialEq, Eq, Structural)]
pub enum NormalizationFault {
    UnknownCoordinateFrame,
    UnsupportedVendorPayload,
    LatOutOfRange,
    LonOutOfRange,
    NegativeSigma,
    NonFiniteTimestamp,
}

/// What becomes of the canonical position.
#[derive(Debug, Clone, Copy, PartialEq, Eq, Structural)]
pub enum PositionOutcome {
    /// The measured WGS84 position is canonical as it stands.
    Canonical,
    /// The frame is understood but no conversion ships at this baseline.
    Unavailable,
    /// No canonical position can be given.
    Unknown,
}

/// Result of a successful normalization decision.
#[derive(Debug, Clone, PartialEq, Eq)]
pub struct NormalizationPlan {
    pub position: PositionOutcome,
    /// The reason carried by an `Unavailable` position (empty otherwise).
    pub unavailable_reason: String,
    pub coordinate_quality: CoordinateQuality,
    /// Transformation steps as (operation, version), in order.
    pub chain: Vec<(String, String)>,
    pub validation_notes: Vec<String>,
    /// Integrity state handed downstream.
    pub integrity: Integrity,
}

pub open spec fn identity_op() -> Seq<char> { "identity_wgs84_geodetic"@ }
pub open spec fn ecef_op() -> Seq<char> { "ecef_to_wgs84_geodetic_unavailable"@ }
pub open spec fn normalise_op() -> Seq<char> { "normalise_v1"@ }
pub open spec fn ecef_note() -> Seq<char> { "ECEF conversion not implemented at this baseline"@ }
pub open spec fn ecef_reason() -> Seq<char> { "ecef_conversion_unimplemented"@ }
pub open spec fn rbe_frame_note() -> Seq<char> { "range-bearing-elevation requires sensor-local origin metadata"@ }
pub open spec fn enu_note() -> Seq<char> { "ENU frame accepted only via vendor-native adapter path"@ }
pub open spec fn rbe_measurement_note() -> Seq<char> {
    "RBE measurement without RBE frame — treated as out of declared domain"@
}

/// The coordinate decision: `Ok((position, quality, frame step, note))`
/// where the frame step and the note are empty when none applies.
pub open spec fn coordinate_rule(frame: FrameKind, m: MeasurementKind, lat_ok: bool, lon_ok: bool)
    -> Result<(PositionOutcome, CoordinateQuality, Seq<char>, Seq<char>), NormalizationFault>
{
    match (frame, m) {
        (FrameKind::Wgs84Geodetic, MeasurementKind::Position) =>
            if !lat_ok {
                Err(NormalizationFault::LatOutOfRange)
            } else if !lon_ok {
                Err(NormalizationFault::LonOutOfRange)
            } else {
                Ok((PositionOutcome::Canonical, CoordinateQuality::Good, identity_op(), seq![]))
            },
        (FrameKind::Ecef, MeasurementKind::Position) =>
            Ok((PositionOutcome::Unavailable, CoordinateQuality::Degraded, ecef_op(), ecef_note())),
        (FrameKind::RangeBearingElevation, _) =>
            Ok((PositionOutcome::Unknown, CoordinateQuality::OutOfDeclaredDomain, seq![], rbe_frame_note())),
        (FrameKind::Enu, _) =>
            Ok((PositionOutcome::Unknown, CoordinateQuality::OutOfDeclaredDomain, seq![], enu_note())),
        (FrameKind::Unknown, _) => Err(NormalizationFault::UnknownCoordinateFrame),
        (_, MeasurementKind::VendorNative) => Err(NormalizationFault::UnsupportedVendorPayload),
        (_, MeasurementKind::RangeBearingElevation) =>
            Ok((PositionOutcome::Unknown, CoordinateQuality::OutOfDeclaredDomain, seq![], rbe_measurement_note())),
    }
}

/// Integrity handed downstream: verified and unsigned inputs pass through;
/// an invalid signature or an unknown source becomes a derived state whose
/// weakest upstream is that input; a derived input stays as it is.
pub open spec fn propagated(i: Integrity) -> Integrity {
    match i {
        Integrity::Verified => Integrity::Verified,
        Integrity::Unsigned => Integrity::Unsigned,
        Integrity::SignatureInvalid { reason } =>
            Integrity::Derived { min_upstream: Box::new(Integrity::SignatureInvalid { reason }) },
        Integrity::SourceUnknown => Integrity::Derived { min_upstream: Box::new(Integrity::SourceUnknown) },
        Integrity::Derived { min_upstream } => Integrity::Derived { min_upstream },
    }
}

/// Propagates the integrity state of a raw observation downstream.
pub fn propagate_integrity(i: Integrity) -> (r: Integrity)
    ensures
        r == propagated(i),
        rank(r) == rank(i),
{
    match i {
        Integrity::Verified => Integrity::Verified,
        Integrity::Unsigned => Integrity::Unsigned,
        Integrity::SignatureInvalid { reason } =>
            Integrity::Derived { min_upstream: Box::new(Integrity::SignatureInvalid { reason }) },
        Integrity::SourceUnknown => Integrity::Derived { min_upstream: Box::new(Integrity::SourceUnknown) },
        Integrity::Derived { min_upstream } => Integrity::Derived { min_upstream },
    }
}

fn step(op: &str) -> (r: (String, String))
    ensures
        r.0@ == op@,
        r.1@ == COORD_TRANSFORM_VERSION@,
{
    (op.to_string(), COORD_TRANSFORM_VERSION.to_string())
}

/// Decides how a raw observation is normalised.
///
/// `lat_in_range` and `lon_in_range` say whether the measured latitude lies
/// in [-90, 90] and the longitude in [-180, 180] (read only for a WGS84
/// position); `position_sigma_invalid` and `velocity_sigma_invalid` say
/// whether a known uncertainty of the observation carries a negative or
/// non-finite sigma. Faults are reported in the order of the checks:
/// frame and measurement first, then latitude, longitude, position sigma
/// and velocity sigma.
pub fn plan_normalization(
    frame: FrameKind,
    measurement: MeasurementKind,
    lat_in_range: bool,
    lon_in_range: bool,
    position_sigma_invalid: bool,
    velocity_sigma_invalid: bool,
    integrity: Integrity,
) -> (r: Result<NormalizationPlan, NormalizationFault>)
    ensures
        match coordinate_rule(frame, measurement, lat_in_range, lon_in_range) {
            Err(f) => r == Err::<NormalizationPlan, NormalizationFault>(f),
            Ok((pos, quality, frame_op, note)) =>
                if position_sigma_invalid || velocity_sigma_invalid {
                    r == Err::<NormalizationPlan, NormalizationFault>(NormalizationFault::NegativeSigma)
                } else {
                    r matches Ok(p) && {
                        &&& p.position == pos
                        &&& p.coordinate_quality == quality
                        &&& p.unavailable_reason@ == (if pos == PositionOutcome::Unavailable { ecef_reason() } else { seq![] })
                        &&& p.integrity == propagated(integrity)
                        &&& p.validation_notes@.map_values(|n: String| n@)
                            == (if note.len() == 0 { seq![] } else { seq![note] })
                        &&& p.chain@.map_values(|s: (String, String)| (s.0@, s.1@))
                            == (if frame_op.len() == 0 { seq![] } else { seq![(frame_op, COORD_TRANSFORM_VERSION@)] })
                                + seq![(normalise_op(), NORMALIZATION_VERSION@)]
                    }
                },
        },
{
    proof {
        reveal_strlit("identity_wgs84_geodetic");
        reveal_strlit("ecef_to_wgs84_geodetic_unavailable");
    }
    let mut chain: Vec<(String, String)> = Vec::new();
    let mut notes: Vec<String> = Vec::new();
    let mut reason = String::new();
    let position: PositionOutcome;
    let quality: CoordinateQuality;
    match (frame, measurement) {
        (FrameKind::Wgs84Geodetic, MeasurementKind::Position) => {
            if !lat_in_range {
                return Err(NormalizationFault::LatOutOfRange);
            }
            if !lon_in_range {
                return Err(NormalizationFault::LonOutOfRange);
            }
            chain.push(step("identity_wgs84_geodetic"));
            position = PositionOutcome::Canonical;
            quality = CoordinateQuality::Good;
        },
        (FrameKind::Ecef, MeasurementKind::Position) => {
            chain.push(step("ecef_to_wgs84_geodetic_unavailable"));
            notes.push("ECEF conversion not implemented at this baseline".to_string());
            reason = "ecef_conversion_unimplemented".to_string();
            position = PositionOutcome::Unavailable;
            quality = CoordinateQuality::Degraded;
        },
        (FrameKind::RangeBearingElevation, _) => {
            notes.push("range-bearing-elevation requires sensor-local origin metadata".to_string());
            position = PositionOutcome::Unknown;
            quality = CoordinateQuality::OutOfDeclaredDomain;
        },
        (FrameKind::Enu, _) => {
            notes.push("ENU frame accepted only via vendor-native adapter path".to_string());
            position = PositionOutcome::Unknown;
            quality = CoordinateQuality::OutOfDeclaredDomain;
        },
        (FrameKind::Unknown, _) => {
            return Err(NormalizationFault::UnknownCoordinateFrame);
        },
        (_, MeasurementKind::VendorNative) => {
            return Err(NormalizationFault::UnsupportedVendorPayload);
        },
        (_, MeasurementKind::RangeBearingElevation) => {
            notes.push("RBE measurement without RBE frame — treated as out of declared domain".to_string());
            position = PositionOutcome::Unknown;
            quality = CoordinateQuality::OutOfDeclaredDomain;
        },
    }
    if position_sigma_invalid || velocity_sigma_invalid {
        return Err(NormalizationFault::NegativeSigma);
    }
    let integrity = propagate_integrity(integrity);
    chain.push(("normalise_v1".to_string(), NORMALIZATION_VERSION.to_string()));
    proof {
        reveal_strlit("normalise_v1");
        reveal_strlit("ECEF conversion not implemented at this baseline");
        reveal_strlit("range-bearing-elevation requires sensor-local origin metadata");
        reveal_strlit("ENU frame accepted only via vendor-native adapter path");
        reveal_strlit("RBE measurement without RBE frame — treated as out of declared domain");
        let rule = coordinate_rule(frame, measurement, lat_in_range, lon_in_range);
        let frame_op = rule->Ok_0.2;
        let note = rule->Ok_0.3;
        assert(notes@.map_values(|n: String| n@) =~= (if note.len() == 0 { seq![] } else { seq![note] }));
        assert(chain@.map_values(|s: (String, String)| (s.0@, s.1@))
            =~= (if frame_op.len() == 0 { seq![] } else { seq![(frame_op, COORD_TRANSFORM_VERSION@)] })
                + seq![(normalise_op(), NORMALIZATION_VERSION@)]);
    }
    Ok(NormalizationPlan {
        position,
        unavailable_reason: reason,
        coordinate_quality: quality,
        chain,
        validation_notes: notes,
        integrity,
    })
}

} // verus!
