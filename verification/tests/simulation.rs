use aeon::contracts::track::{ConflictState, CorrelationRationale, FreshnessState, TrackStatus};
use aeon::digest::sha256_hex;
use aeon::simulation::{
    policy_digest, trace_digest, PipelineAction, PipelineEvent, PipelineTally, TraceOutcome, TraceUpdate,
};

fn update(seq: u64) -> TraceUpdate {
    TraceUpdate {
        deterministic_sequence: seq,
        algorithm_version: "aeon-track/1.0".into(),
        track_id: 7,
        correlation_rationale: CorrelationRationale::AssociatedByGate,
        status: TrackStatus::Active,
        freshness_state: FreshnessState::Fresh,
        conflict_state: ConflictState::NoConflict,
        position_quantised: Some((400_000_000, -740_000_000, 3_000_000)),
        confidence_quantised: 5_000,
        uncertainty_quantised: Some(707),
        classifications: vec![("zulu".into(), 5_000, 1), ("alpha".into(), 3_000, 1)],
        sources: vec![("sys-b".into(), "s1".into(), 1_000), ("sys-a".into(), "s2".into(), 2_000)],
        integrity_text: "Verified".into(),
        contributing_observations: 1,
        rejected_observations: 0,
    }
}

fn outcome(name: &str, updates: Vec<TraceUpdate>) -> TraceOutcome {
    TraceOutcome { scenario_name: name.into(), rejected_count: 0, updates }
}

fn expected_bytes(o: &TraceOutcome) -> Vec<u8> {
    let mut b = Vec::new();
    b.extend_from_slice(o.scenario_name.as_bytes());
    b.extend_from_slice(&o.rejected_count.to_be_bytes());
    b.extend_from_slice(&(o.updates.len() as u64).to_be_bytes());
    for u in &o.updates {
        b.extend_from_slice(&u.deterministic_sequence.to_be_bytes());
        b.extend_from_slice(u.algorithm_version.as_bytes());
        b.extend_from_slice(&u.track_id.to_be_bytes());
        b.extend_from_slice(b"AssociatedByGate");
        b.extend_from_slice(b"Active");
        b.extend_from_slice(b"Fresh");
        b.extend_from_slice(b"None");
        if let Some((lat, lon, alt)) = u.position_quantised {
            b.extend_from_slice(&lat.to_be_bytes());
            b.extend_from_slice(&lon.to_be_bytes());
            b.extend_from_slice(&alt.to_be_bytes());
        }
        b.extend_from_slice(&u.confidence_quantised.to_be_bytes());
        if let Some(m) = u.uncertainty_quantised {
            b.extend_from_slice(&m.to_be_bytes());
        }
        let mut classes = u.classifications.clone();
        classes.sort_by(|a, c| a.0.cmp(&c.0));
        b.extend_from_slice(&(classes.len() as u32).to_be_bytes());
        for (label, conf, sup) in &classes {
            b.extend_from_slice(label.as_bytes());
            b.extend_from_slice(&conf.to_be_bytes());
            b.extend_from_slice(&sup.to_be_bytes());
        }
        let mut sources = u.sources.clone();
        sources.sort();
        b.extend_from_slice(&(sources.len() as u32).to_be_bytes());
        for (sys, sensor, w) in &sources {
            b.extend_from_slice(sys.as_bytes());
            b.extend_from_slice(sensor.as_bytes());
            b.extend_from_slice(&w.to_be_bytes());
        }
        b.extend_from_slice(u.integrity_text.as_bytes());
        b.extend_from_slice(&(u.contributing_observations as u32).to_be_bytes());
        b.extend_from_slice(&(u.rejected_observations as u32).to_be_bytes());
    }
    b
}

#[test]
fn trace_digest_matches_the_canonical_stream() {
    let o = outcome("single_clean_track", vec![update(1), update(2)]);
    assert_eq!(trace_digest(&o), sha256_hex(&expected_bytes(&o)));
}

#[test]
fn scenario_name_enters_the_digest() {
    let a = outcome("single_clean_track", vec![update(1)]);
    let b = outcome("crossing_two_tracks", vec![update(1)]);
    assert_ne!(trace_digest(&a), trace_digest(&b));
}

#[test]
fn digest_ignores_insertion_order_of_hypotheses_and_sources() {
    let a = outcome("s", vec![update(1)]);
    let mut u = update(1);
    u.classifications.reverse();
    u.sources.reverse();
    let b = outcome("s", vec![u]);
    assert_eq!(trace_digest(&a), trace_digest(&b));
    let mut v = update(1);
    v.sources[0].2 = 1_001;
    assert_ne!(trace_digest(&a), trace_digest(&outcome("s", vec![v])));
}

#[test]
fn equal_labels_keep_their_order() {
    let mut u = update(1);
    u.classifications = vec![("b".into(), 2, 1), ("a".into(), 9, 1), ("b".into(), 1, 1), ("a".into(), 8, 1)];
    let o = outcome("s", vec![u]);
    assert_eq!(trace_digest(&o), sha256_hex(&expected_bytes(&o)));
}

#[test]
fn policy_digest_hashes_the_rendered_policy() {
    assert_eq!(policy_digest("TrackPolicy { gate: 250 }"), sha256_hex(b"TrackPolicy { gate: 250 }"));
}

#[test]
fn pipeline_tally_counts_rejections_and_updates() {
    let mut t = PipelineTally::new();
    assert_eq!(t.step(PipelineEvent::ObservationRead), PipelineAction::Normalize { processing_sequence: 1 });
    assert_eq!(t.step(PipelineEvent::Normalized), PipelineAction::Ingest);
    assert_eq!(t.step(PipelineEvent::TrackUpdated), PipelineAction::ReadNext);
    assert_eq!(t.step(PipelineEvent::ReadFailed), PipelineAction::ReadNext);
    assert_eq!(t.step(PipelineEvent::ObservationRead), PipelineAction::Normalize { processing_sequence: 2 });
    assert_eq!(t.step(PipelineEvent::NormalizationFailed), PipelineAction::ReadNext);
    assert_eq!(t.step(PipelineEvent::ObservationRead), PipelineAction::Normalize { processing_sequence: 3 });
    assert_eq!(t.step(PipelineEvent::Normalized), PipelineAction::Ingest);
    assert_eq!(t.step(PipelineEvent::IngestRejected), PipelineAction::ReadNext);
    assert_eq!(t.step(PipelineEvent::SourceExhausted), PipelineAction::Finish);
    assert_eq!(t, PipelineTally { processing_sequence: 3, rejected: 3, updates: 1 });
}
