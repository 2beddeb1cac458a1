use aeon::contracts::provenance::{integrity_rank, Integrity};
use aeon::contracts::track::{ConflictState, FreshnessState, TrackStatus};
use aeon::tracking::{
    age_track, closest_candidate, conflict_after, contribution_index, ingest_verdict, merge_labels, min_integrity,
    Candidate, DeterministicIdSource, IngestVerdict, TrackBook, TrackLedger, ALGORITHM_VERSION,
};

fn cand(id: u128, key: u64) -> Candidate {
    Candidate { track_id: id, retired: false, has_position: true, within_gate: true, distance_key: key }
}

fn strings(v: &[&str]) -> Vec<String> {
    v.iter().map(|s| s.to_string()).collect()
}

#[test]
fn first_observation_initiates_a_track() {
    let mut ledger = TrackLedger::new();
    let newly = ledger.record_observation(1);
    let association = closest_candidate(&vec![]);
    assert_eq!(ingest_verdict(newly, false, true, association), IngestVerdict::Initiate);
    assert_eq!(ledger.next_seq(100), 1);
}

#[test]
fn nearby_observation_associates() {
    let association = closest_candidate(&vec![cand(100, 5)]);
    assert_eq!(association, Some(100));
    assert_eq!(ingest_verdict(true, false, true, association), IngestVerdict::Update(100));
}

#[test]
fn faraway_observation_initiates_second_track() {
    let mut far = cand(100, 9_000_000);
    far.within_gate = false;
    assert_eq!(closest_candidate(&vec![far]), None);
    assert_eq!(ingest_verdict(true, false, true, None), IngestVerdict::Initiate);
}

#[test]
fn duplicate_observation_is_idempotent() {
    let mut ledger = TrackLedger::new();
    assert!(ledger.record_observation(7));
    assert!(!ledger.record_observation(7));
    assert!(ledger.record_observation(8));
    assert_eq!(ingest_verdict(false, false, true, Some(1)), IngestVerdict::Duplicate);
}

#[test]
fn deterministic_sequence_is_monotonic_per_track() {
    let mut ledger = TrackLedger::new();
    for i in 0..5u64 {
        assert_eq!(ledger.next_seq(42), i + 1);
    }
    assert_eq!(ledger.next_seq(43), 1);
    assert_eq!(ledger.next_seq(42), 6);
}

#[test]
fn latency_beyond_policy_is_rejected() {
    assert_eq!(ingest_verdict(true, true, true, Some(3)), IngestVerdict::LatencyExceeded);
    assert_eq!(ingest_verdict(true, false, false, Some(3)), IngestVerdict::NoPosition);
}

#[test]
fn tie_break_is_stable_by_insertion_ordinal() {
    let cands = vec![cand(1, 70), cand(2, 50), cand(3, 50), cand(4, 60)];
    assert_eq!(closest_candidate(&cands), Some(2));
    let mut retired = cand(9, 1);
    retired.retired = true;
    let mut unknown = cand(10, 1);
    unknown.has_position = false;
    assert_eq!(closest_candidate(&vec![retired, unknown, cand(5, 3), cand(6, 3)]), Some(5));
}

#[test]
fn conflicting_classification_marks_track() {
    let existing = strings(&["friendly_air"]);
    let claims = strings(&["adversary_air", "friendly_air", "adversary_air", "unknown_air"]);
    let added = merge_labels(&existing, &claims);
    assert_eq!(added, strings(&["adversary_air", "unknown_air"]));
    assert_eq!(conflict_after(ConflictState::NoConflict, !added.is_empty()), ConflictState::ClassificationConflict);
    assert_eq!(conflict_after(ConflictState::MultipleConflicts, true), ConflictState::MultipleConflicts);
    assert_eq!(conflict_after(ConflictState::PositionConflict, true), ConflictState::ClassificationConflict);
    assert_eq!(conflict_after(ConflictState::NoConflict, false), ConflictState::NoConflict);
    assert!(merge_labels(&existing, &strings(&["friendly_air"])).is_empty());
}

#[test]
fn source_contribution_is_found_by_system_and_sensor() {
    let contribs = vec![
        ("sys-a".to_string(), "sensor-0".to_string()),
        ("sys-a".to_string(), "sensor-1".to_string()),
    ];
    assert_eq!(contribution_index(&contribs, "sys-a", "sensor-1"), Some(1));
    assert_eq!(contribution_index(&contribs, "sys-b", "sensor-1"), None);
}

#[test]
fn tick_retires_stale_tracks() {
    assert_eq!(
        age_track(TrackStatus::Active, FreshnessState::Fresh, true, true),
        (TrackStatus::Retired, FreshnessState::Stale, true)
    );
    assert_eq!(
        age_track(TrackStatus::Active, FreshnessState::Fresh, false, true),
        (TrackStatus::Coasting, FreshnessState::Aging, false)
    );
    assert_eq!(
        age_track(TrackStatus::Tentative, FreshnessState::Fresh, false, false),
        (TrackStatus::Tentative, FreshnessState::Fresh, false)
    );
}

#[test]
fn fused_integrity_is_the_weaker_one() {
    let bad = Integrity::SignatureInvalid { reason: "bad".into() };
    let fused = min_integrity(&Integrity::Verified, &bad);
    assert_eq!(fused, Integrity::Derived { min_upstream: Box::new(bad.clone()) });
    assert_eq!(integrity_rank(&fused), 1);
    let swapped = min_integrity(&bad, &Integrity::Verified);
    assert_eq!(integrity_rank(&swapped), integrity_rank(&fused));
    let same = min_integrity(&Integrity::Unsigned, &Integrity::Verified);
    assert_eq!(same, Integrity::Derived { min_upstream: Box::new(Integrity::Unsigned) });
    assert_eq!(ALGORITHM_VERSION, "aeon-track/1.0");
}

#[test]
fn track_book_initiates_updates_and_ages() {
    let mut book = TrackBook::new();
    assert!(book.record_observation(7));
    assert!(!book.record_observation(7));
    let seq = book.initiate(100, &strings(&["aircraft"]), "radar-net", "r1", Integrity::Verified);
    assert_eq!(seq, 1);
    assert_eq!(book.position(100), Some(0));
    assert_eq!(book.position(200), None);
    let t = &book.records()[0];
    assert_eq!(t.status, TrackStatus::Tentative);
    assert_eq!(t.freshness, FreshnessState::Fresh);
    assert_eq!(t.conflict, ConflictState::NoConflict);
    assert_eq!(t.labels, strings(&["aircraft"]));
    assert_eq!(t.contributions, vec![("radar-net".to_string(), "r1".to_string())]);

    let (seq2, added, reinforced) =
        book.update(0, &strings(&["aircraft", "drone"]), "radar-net", "r1", &Integrity::Unsigned);
    assert_eq!(seq2, 2);
    assert_eq!(added, strings(&["drone"]));
    assert_eq!(reinforced, Some(0));
    let t = &book.records()[0];
    assert_eq!(t.status, TrackStatus::Active);
    assert_eq!(t.conflict, ConflictState::ClassificationConflict);
    assert_eq!(t.labels, strings(&["aircraft", "drone"]));
    assert_eq!(t.integrity, Integrity::Derived { min_upstream: Box::new(Integrity::Unsigned) });
    assert_eq!(book.last_sequence(100), 2);

    let (_, _, reinforced) = book.update(0, &vec![], "ais", "a1", &Integrity::Verified);
    assert_eq!(reinforced, None);
    assert_eq!(book.records()[0].contributions.len(), 2);

    let retired = book.age(&vec![(true, true)]);
    assert_eq!(retired, vec![100]);
    assert_eq!(book.records()[0].status, TrackStatus::Retired);
}

#[test]
fn deterministic_id_source_wraps_stable_stream() {
    let mut a = DeterministicIdSource::from_seed("scn-X");
    let mut b = DeterministicIdSource::from_seed("scn-X");
    for _ in 0..64 {
        assert_eq!(a.next_track_id(), b.next_track_id());
    }
    // Independent seed produces a different stream.
    let mut c = DeterministicIdSource::from_seed("scn-Y");
    let mut d = DeterministicIdSource::from_seed("scn-X");
    let mut diff = false;
    for _ in 0..8 {
        if c.next_track_id() != d.next_track_id() {
            diff = true;
            break;
        }
    }
    assert!(diff, "different seeds must yield different id streams");
}

#[test]
fn seeded_ids_are_sha256_of_seed_and_counter_as_v4_uuids() {
    let mut src = DeterministicIdSource::from_seed("scn-X");
    for counter in 0u64..3 {
        let mut input = b"scn-X".to_vec();
        input.extend_from_slice(&counter.to_be_bytes());
        let digest = <sha2::Sha256 as sha2::Digest>::digest(&input);
        let mut first = [0u8; 16];
        first.copy_from_slice(&digest[..16]);
        let expected = (u128::from_be_bytes(first) & 0xFFFFFFFFFFFF4FFFBFFFFFFFFFFFFFFF) | 0x40008000000000000000;
        assert_eq!(src.issued_count(), counter);
        assert_eq!(src.next_track_id().as_uuid(), expected);
    }
}
