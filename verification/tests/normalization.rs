use aeon::contracts::coords::{CoordinateQuality, FrameKind};
use aeon::contracts::provenance::Integrity;
use aeon::normalization::{
    plan_normalization, propagate_integrity, MeasurementKind, NormalizationFault, PositionOutcome,
    COORD_TRANSFORM_VERSION, NORMALIZATION_VERSION,
};

fn plan(frame: FrameKind, m: MeasurementKind) -> Result<aeon::normalization::NormalizationPlan, NormalizationFault> {
    plan_normalization(frame, m, true, true, false, false, Integrity::Verified)
}

#[test]
fn wgs84_position_normalises_to_canonical() {
    let p = plan(FrameKind::Wgs84Geodetic, MeasurementKind::Position).unwrap();
    assert_eq!(p.position, PositionOutcome::Canonical);
    assert_eq!(p.coordinate_quality, CoordinateQuality::Good);
    assert!(p.chain.len() >= 2);
    assert_eq!(
        p.chain,
        vec![
            ("identity_wgs84_geodetic".to_string(), COORD_TRANSFORM_VERSION.to_string()),
            ("normalise_v1".to_string(), NORMALIZATION_VERSION.to_string()),
        ]
    );
    assert!(p.validation_notes.is_empty());
    assert_eq!(p.integrity, Integrity::Verified);
}

#[test]
fn latitude_out_of_range_is_rejected() {
    let r = plan_normalization(
        FrameKind::Wgs84Geodetic,
        MeasurementKind::Position,
        false,
        false,
        true,
        true,
        Integrity::Verified,
    );
    assert!(matches!(r, Err(NormalizationFault::LatOutOfRange)));
    let r = plan_normalization(
        FrameKind::Wgs84Geodetic,
        MeasurementKind::Position,
        true,
        false,
        false,
        false,
        Integrity::Verified,
    );
    assert!(matches!(r, Err(NormalizationFault::LonOutOfRange)));
}

#[test]
fn negative_sigma_is_rejected() {
    let r = plan_normalization(
        FrameKind::Wgs84Geodetic,
        MeasurementKind::Position,
        true,
        true,
        true,
        false,
        Integrity::Verified,
    );
    assert!(matches!(r, Err(NormalizationFault::NegativeSigma)));
    let r = plan_normalization(FrameKind::Ecef, MeasurementKind::Position, true, true, false, true, Integrity::Verified);
    assert!(matches!(r, Err(NormalizationFault::NegativeSigma)));
}

#[test]
fn ecef_input_is_marked_degraded_not_silently_defaulted() {
    let p = plan(FrameKind::Ecef, MeasurementKind::Position).unwrap();
    assert_eq!(p.coordinate_quality, CoordinateQuality::Degraded);
    assert_eq!(p.position, PositionOutcome::Unavailable);
    assert_eq!(p.unavailable_reason, "ecef_conversion_unimplemented");
    assert_eq!(p.validation_notes, vec!["ECEF conversion not implemented at this baseline".to_string()]);
    assert_eq!(p.chain[0].0, "ecef_to_wgs84_geodetic_unavailable");
}

#[test]
fn unknown_frame_is_rejected() {
    for m in [MeasurementKind::Position, MeasurementKind::RangeBearingElevation, MeasurementKind::VendorNative] {
        assert!(matches!(plan(FrameKind::Unknown, m), Err(NormalizationFault::UnknownCoordinateFrame)));
    }
}

#[test]
fn out_of_domain_frames_and_vendor_payloads() {
    let p = plan(FrameKind::RangeBearingElevation, MeasurementKind::VendorNative).unwrap();
    assert_eq!(p.coordinate_quality, CoordinateQuality::OutOfDeclaredDomain);
    assert_eq!(p.position, PositionOutcome::Unknown);
    assert_eq!(p.chain, vec![("normalise_v1".to_string(), NORMALIZATION_VERSION.to_string())]);
    let p = plan(FrameKind::Enu, MeasurementKind::Position).unwrap();
    assert_eq!(p.validation_notes, vec!["ENU frame accepted only via vendor-native adapter path".to_string()]);
    assert!(matches!(
        plan(FrameKind::Wgs84Geodetic, MeasurementKind::VendorNative),
        Err(NormalizationFault::UnsupportedVendorPayload)
    ));
    let p = plan(FrameKind::Ecef, MeasurementKind::RangeBearingElevation).unwrap();
    assert_eq!(p.position, PositionOutcome::Unknown);
    assert_eq!(p.coordinate_quality, CoordinateQuality::OutOfDeclaredDomain);
}

#[test]
fn integrity_derives_downstream() {
    let p = plan_normalization(
        FrameKind::Wgs84Geodetic,
        MeasurementKind::Position,
        true,
        true,
        false,
        false,
        Integrity::SignatureInvalid { reason: "bad".into() },
    )
    .unwrap();
    match p.integrity {
        Integrity::Derived { min_upstream } => {
            assert!(matches!(*min_upstream, Integrity::SignatureInvalid { .. }));
        }
        other => panic!("expected derived, got {other:?}"),
    }
    assert_eq!(propagate_integrity(Integrity::Unsigned), Integrity::Unsigned);
    assert_eq!(
        propagate_integrity(Integrity::SourceUnknown),
        Integrity::Derived { min_upstream: Box::new(Integrity::SourceUnknown) }
    );
    let d = Integrity::Derived { min_upstream: Box::new(Integrity::Unsigned) };
    assert_eq!(propagate_integrity(d.clone()), d);
}
