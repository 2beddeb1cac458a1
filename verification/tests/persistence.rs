use aeon::persistence::migrations::all;
use aeon::persistence::store::{compute_digest, next_event, verify_chain, EventStore, StoreError, StoredEvent};

fn ts(offset_ns: i64) -> i128 {
    1_700_000_000_000_000_000_i128 + offset_ns as i128
}

fn filled(n: i64, prefix: &str) -> EventStore {
    let mut store = EventStore::open_in_memory().unwrap();
    for i in 0..n {
        store
            .append(
                "X",
                &format!("{prefix}{i}"),
                "a",
                "r",
                "t",
                None,
                None,
                ts(i),
                &format!("{{\"i\":{i}}}"),
                None,
                "sc",
            )
            .unwrap();
    }
    store
}

#[test]
fn append_and_verify_chain() {
    let mut store = EventStore::open_in_memory().unwrap();
    for i in 0..5 {
        store
            .append(
                "TrackCreated",
                &format!("evt-{i:016x}"),
                "actor",
                "runtime-1",
                &format!("trk-{i}"),
                None,
                Some(&format!("state-{i}")),
                ts(i),
                &format!("{{\"i\":{i}}}"),
                None,
                "sc0",
            )
            .unwrap();
    }
    store.verify_integrity().unwrap();
    assert_eq!(store.tail_sequence().unwrap(), 5);
    let events = store.events();
    assert_eq!(events[0].previous_digest_hex, "GENESIS");
    for w in events.windows(2) {
        assert_eq!(w[1].previous_digest_hex, w[0].integrity_digest_hex);
        assert_eq!(w[1].sequence, w[0].sequence + 1);
    }
    assert_eq!(events[4].after_ref.as_deref(), Some("state-4"));
}

#[test]
fn event_digest_is_recomputable() {
    let store = filled(2, "evt-");
    let e = &store.events()[1];
    let again = compute_digest(
        &e.previous_digest_hex,
        &e.event_type,
        &e.event_id_hex,
        &e.actor,
        &e.runtime_id,
        &e.target,
        e.occurred_at,
        &e.payload_json,
        &e.security_context,
    );
    assert_eq!(again, e.integrity_digest_hex);
}

#[test]
fn duplicate_event_rejected() {
    let mut store = EventStore::open_in_memory().unwrap();
    store.append("X", "evt-1", "a", "r", "t", None, None, ts(0), "{}", None, "sc").unwrap();
    let err = store.append("X", "evt-1", "a", "r", "t", None, None, ts(1), "{}", None, "sc").unwrap_err();
    assert!(matches!(err, StoreError::DuplicateEvent));
    assert_eq!(store.tail_sequence().unwrap(), 1);
}

#[test]
fn duplicate_event_id_is_rejected_across_the_store_lifetime() {
    let mut store = EventStore::open_in_memory().unwrap();
    store.append("X", "dup", "a", "r", "t", None, None, ts(0), "{}", None, "sc").unwrap();
    store.append("X", "other", "a", "r", "t", None, None, ts(1), "{}", None, "sc").unwrap();
    assert!(store.append("X", "dup", "a", "r", "t", None, None, ts(2), "{}", None, "sc").is_err());
}

#[test]
fn rejected_observations_are_preserved() {
    let mut store = EventStore::open_in_memory().unwrap();
    store.record_rejected_observation("obs-1", "invalid_frame", "{}", ts(0)).unwrap();
    store.record_rejected_observation("obs-1", "invalid_frame_v2", "{}", ts(1)).unwrap();
    store.verify_integrity().unwrap();
    assert_eq!(store.tail_sequence().unwrap(), 0);
}

#[test]
fn tampering_breaks_integrity() {
    let store = filled(3, "evt-");
    let mut rows: Vec<StoredEvent> = store.events().to_vec();
    rows[1].payload_json = "{\"i\":999}".into();
    let err = verify_chain(&rows).unwrap_err();
    assert!(matches!(err, StoreError::IntegrityBroken { sequence: 2, .. }));
}

#[test]
fn audit_deletion_attempt_is_detected() {
    let store = filled(5, "f-");
    let mut rows: Vec<StoredEvent> = store.events().to_vec();
    rows.remove(2);
    match verify_chain(&rows).unwrap_err() {
        StoreError::IntegrityBroken { sequence, expected, found } => {
            assert_eq!(sequence, 4);
            assert_eq!(expected, store.events()[1].integrity_digest_hex);
            assert_eq!(found, store.events()[2].integrity_digest_hex);
        }
        other => panic!("unexpected {:?}", other),
    }
}

#[test]
fn empty_chain_verifies() {
    assert!(verify_chain(&[]).is_ok());
}

#[test]
fn migrations_have_unique_ids_and_are_ordered() {
    let migrations = all();
    assert!(!migrations.is_empty(), "expected at least one migration");
    let mut ids: Vec<u32> = migrations.iter().map(|m| m.id).collect();
    let sorted: Vec<u32> = {
        let mut v = ids.clone();
        v.sort();
        v
    };
    assert_eq!(ids, sorted, "migrations must be listed in ascending id order");
    ids.sort();
    ids.dedup();
    assert_eq!(ids.len(), migrations.len(), "migration ids must be unique");
}

#[test]
fn fresh_store_verifies_and_reports_no_tail() {
    let store = EventStore::open_in_memory().unwrap();
    assert!(store.verify_integrity().is_ok());
    assert_eq!(store.tail_sequence().unwrap(), 0);
}

#[test]
fn next_event_numbers_and_chains_from_the_tail() {
    let first = next_event(None, false, "T", "e1", "a", "r", "t", None, Some("x"), -5, "{}", None, "ctx").unwrap();
    assert_eq!(first.sequence, 1);
    assert_eq!(first.previous_digest_hex, "GENESIS");
    assert_eq!(first.after_ref.as_deref(), Some("x"));
    assert_eq!(first.integrity_digest_hex, compute_digest("GENESIS", "T", "e1", "a", "r", "t", -5, "{}", "ctx"));
    let big: i128 = (i64::MAX as i128) * 4;
    let later = next_event(Some((3, "abc")), false, "T", "e2", "a", "r", "t", None, None, big, "{}", None, "ctx").unwrap();
    assert_eq!(later.sequence, 4);
    assert_eq!(later.previous_digest_hex, "abc");
    assert_eq!(later.occurred_at, big);
    assert_eq!(later.integrity_digest_hex, compute_digest("abc", "T", "e2", "a", "r", "t", big, "{}", "ctx"));
    assert!(matches!(
        next_event(Some((3, "abc")), true, "T", "e2", "a", "r", "t", None, None, 0, "{}", None, "ctx"),
        Err(StoreError::DuplicateEvent)
    ));
}
