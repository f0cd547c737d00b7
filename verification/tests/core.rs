//! Integration tests for the core components.

use sourcerer::repository::{GenericRepository, Repository};
use sourcerer::snapshot::{SnapshotStore, StoredSnapshot};
use sourcerer::store::in_memory::InMemoryEventStore;
use sourcerer::store::in_memory_snapshot::InMemorySnapshotStore;
use sourcerer::testing::{StampUpcaster, TestAggregate, TestEvent, TestId, TestSnap};
use sourcerer::{Aggregate, AggregateId, Error, EventStore, StoredEvent};

#[test]
fn in_memory_event_store_append_and_load() {
    let mut store = InMemoryEventStore::<TestAggregate>::default();
    let id = TestId::new();

    // Append one event.
    let stored = store
        .append(&id, 0, vec![TestEvent::Created])
        .expect("append should succeed");
    assert_eq!(stored.len(), 1, "one event should be stored");

    // Loading should return same event.
    let loaded = store.load(&id).expect("load should succeed");
    assert_eq!(loaded.len(), 1, "one event in stream");
    assert_eq!(loaded[0].event_type(), "Created");
}

#[test]
fn in_memory_event_store_conflict() {
    let mut store = InMemoryEventStore::<TestAggregate>::default();
    let id = TestId::new();
    let _ = store
        .append(&id, 0, vec![TestEvent::Created])
        .expect("initial append");

    // Appending with wrong expected_version should yield conflict.
    let err = store
        .append(&id, 0, vec![TestEvent::Updated])
        .expect_err("should conflict");
    assert!(matches!(err, Error::Conflict));
}

#[test]
fn snapshot_store_save_and_load() {
    let mut snaps = InMemorySnapshotStore::<TestAggregate>::default();
    let id = TestId::new();

    snaps
        .save(&id, 1, TestSnap { version: 1 })
        .expect("save snapshot");

    let loaded = snaps.load(&id).expect("load");
    assert!(loaded.is_some(), "snapshot should exist");
    assert_eq!(loaded.unwrap().version(), 1);
}

#[test]
fn repository_load_and_save_with_snapshot() {
    let event_store = InMemoryEventStore::<TestAggregate>::default();
    let snapshot_store = InMemorySnapshotStore::<TestAggregate>::default();

    let mut repo: GenericRepository<TestAggregate, _, _, StampUpcaster> =
        GenericRepository::new(event_store, Some(snapshot_store)).with_snapshot_frequency(Some(1));

    let id = TestId::new();

    // Create aggregate with one event.
    let mut agg = TestAggregate {
        id: id.clone(),
        version: 0,
    };
    // Apply the event locally so the aggregate's version matches optimistic locking expectations.
    let event = TestEvent::Created;
    agg.apply(&event);
    repo.save(&agg, vec![event]).expect("save events");

    // Loading should hydrate aggregate to version 1.
    let loaded = repo.load(&id).expect("load");
    assert_eq!(loaded.version(), 1, "aggregate version after replay");

    // Snapshot should be created (frequency 1).
    let snap = repo
        .snapshot_store()
        .expect("snapshot store configured")
        .load(&id)
        .expect("load snapshot")
        .expect("snapshot exists");
    assert_eq!(snap.version(), 1);
}

#[test]
fn append_from_zero_stores_contiguous_versions_and_rival_conflicts() {
    let mut store = InMemoryEventStore::<TestAggregate>::default();
    let id = TestId::new();

    let stored = store
        .append(
            &id,
            0,
            vec![TestEvent::Created, TestEvent::Updated, TestEvent::Updated],
        )
        .expect("append three events to a fresh aggregate");
    let versions: Vec<i64> = stored.iter().map(|e| e.version()).collect();
    assert_eq!(versions, vec![1, 2, 3]);

    // A second actor appending from the same expected version must conflict.
    let err = store
        .append(&id, 0, vec![TestEvent::Updated])
        .expect_err("competing writer must conflict");
    assert!(matches!(err, Error::Conflict));
}

#[test]
fn conflict_leaves_stream_unchanged() {
    let mut store = InMemoryEventStore::<TestAggregate>::default();
    let id = TestId::new();
    store
        .append(&id, 0, vec![TestEvent::Created, TestEvent::Updated])
        .expect("seed two events");

    let before: Vec<(i64, String)> = store
        .load(&id)
        .expect("load before")
        .iter()
        .map(|e| (e.version(), e.event_type().to_string()))
        .collect();

    let err = store
        .append(&id, 5, vec![TestEvent::Updated])
        .expect_err("mismatched expected version");
    assert!(matches!(err, Error::Conflict));

    let after: Vec<(i64, String)> = store
        .load(&id)
        .expect("load after")
        .iter()
        .map(|e| (e.version(), e.event_type().to_string()))
        .collect();
    assert_eq!(before, after, "the stream is unchanged after a conflict");
}

#[test]
fn load_from_returns_ascending_suffix() {
    let mut store = InMemoryEventStore::<TestAggregate>::default();
    let id = TestId::new();
    store
        .append(
            &id,
            0,
            vec![TestEvent::Created, TestEvent::Updated, TestEvent::Updated],
        )
        .expect("seed three events");

    let suffix = store.load_from(&id, 1).expect("load_from");
    let versions: Vec<i64> = suffix.iter().map(|e| e.version()).collect();
    assert_eq!(versions, vec![2, 3]);

    // From version zero the suffix is the whole stream.
    let from_zero = store.load_from(&id, 0).expect("load_from zero");
    let full = store.load(&id).expect("load");
    assert_eq!(from_zero.len(), full.len());
    for (a, b) in from_zero.iter().zip(full.iter()) {
        assert_eq!(a.version(), b.version());
        assert_eq!(a.event_type(), b.event_type());
    }

    // Past the end the suffix is empty, and an unknown stream is empty.
    assert!(store.load_from(&id, 3).expect("past end").is_empty());
    assert!(store.load_from(&TestId::new(), 0).expect("unknown").is_empty());
}

#[test]
fn load_unknown_aggregate_is_not_found() {
    let event_store = InMemoryEventStore::<TestAggregate>::default();
    let snapshot_store = InMemorySnapshotStore::<TestAggregate>::default();
    let repo: GenericRepository<TestAggregate, _, _, StampUpcaster> =
        GenericRepository::new(event_store, Some(snapshot_store));

    let err = repo
        .load(&TestId::new())
        .expect_err("an id with no facts and no snapshot");
    assert!(matches!(err, Error::NotFound));
}

#[test]
fn load_replays_only_events_after_snapshot() {
    let event_store = InMemoryEventStore::<TestAggregate>::default();
    let snapshot_store = InMemorySnapshotStore::<TestAggregate>::default();
    let mut repo: GenericRepository<TestAggregate, _, _, StampUpcaster> =
        GenericRepository::new(event_store, Some(snapshot_store)).with_snapshot_frequency(Some(2));

    let id = TestId::new();
    let mut agg = TestAggregate {
        id: id.clone(),
        version: 0,
    };
    // Two events cross the boundary at two: a snapshot is taken at version 2.
    let first = TestEvent::Created;
    let second = TestEvent::Updated;
    agg.apply(&first);
    agg.apply(&second);
    repo.save(&agg, vec![first, second]).expect("first save");

    // One more event after the snapshot.
    let third = TestEvent::Updated;
    agg.apply(&third);
    repo.save(&agg, vec![third]).expect("second save");

    let snap = repo
        .snapshot_store()
        .expect("snapshot store configured")
        .load(&id)
        .expect("load snapshot")
        .expect("snapshot exists");
    assert_eq!(snap.version(), 2, "the snapshot captured version two");

    // The load starts from the snapshot at version 2 and replays one event.
    let loaded = repo.load(&id).expect("load");
    assert_eq!(loaded.version(), 3);
}

#[test]
fn snapshot_cadence_follows_boundary_crossings() {
    let event_store = InMemoryEventStore::<TestAggregate>::default();
    let snapshot_store = InMemorySnapshotStore::<TestAggregate>::default();
    let mut repo: GenericRepository<TestAggregate, _, _, StampUpcaster> =
        GenericRepository::new(event_store, Some(snapshot_store)).with_snapshot_frequency(Some(2));

    let id = TestId::new();
    let mut agg = TestAggregate {
        id: id.clone(),
        version: 0,
    };

    // Saving one event moves the version from zero to one: no boundary is
    // crossed, so no snapshot is taken.
    let first = TestEvent::Created;
    agg.apply(&first);
    repo.save(&agg, vec![first]).expect("first save");
    assert!(repo
        .snapshot_store()
        .expect("snapshot store configured")
        .load(&id)
        .expect("load snapshot")
        .is_none());

    // One more event moves the version from one to two: the boundary at two is
    // crossed, so a snapshot is taken at version two.
    let second = TestEvent::Updated;
    agg.apply(&second);
    repo.save(&agg, vec![second]).expect("second save");
    let snap = repo
        .snapshot_store()
        .expect("snapshot store configured")
        .load(&id)
        .expect("load snapshot")
        .expect("snapshot exists");
    assert_eq!(snap.version(), 2);
}

#[test]
fn save_with_no_events_is_a_no_op() {
    let event_store = InMemoryEventStore::<TestAggregate>::default();
    let snapshot_store = InMemorySnapshotStore::<TestAggregate>::default();
    let mut repo: GenericRepository<TestAggregate, _, _, StampUpcaster> =
        GenericRepository::new(event_store, Some(snapshot_store)).with_snapshot_frequency(Some(1));

    let id = TestId::new();
    let agg = TestAggregate {
        id: id.clone(),
        version: 0,
    };
    repo.save(&agg, vec![]).expect("empty save succeeds");
    assert!(matches!(repo.load(&id), Err(Error::NotFound)));
}

#[test]
fn repository_save_surfaces_conflicts() {
    let event_store = InMemoryEventStore::<TestAggregate>::default();
    let snapshot_store = InMemorySnapshotStore::<TestAggregate>::default();
    let mut repo: GenericRepository<TestAggregate, _, _, StampUpcaster> =
        GenericRepository::new(event_store, Some(snapshot_store));

    let id = TestId::new();
    let mut agg = TestAggregate {
        id: id.clone(),
        version: 0,
    };
    let event = TestEvent::Created;
    agg.apply(&event);
    repo.save(&agg, vec![event]).expect("first writer");

    // A second writer saving from the same stale version must conflict.
    let mut stale = TestAggregate { id, version: 0 };
    let rival = TestEvent::Updated;
    stale.apply(&rival);
    let err = repo.save(&stale, vec![rival]).expect_err("stale writer");
    assert!(matches!(err, Error::Conflict));
}

#[test]
fn snapshot_round_trip_restores_version() {
    let agg = TestAggregate {
        id: TestId::new(),
        version: 5,
    };
    let restored = TestAggregate::from_snapshot(agg.snapshot());
    assert_eq!(restored.version(), 5);
}

#[test]
fn aggregate_load_replays_all_events() {
    let agg = TestAggregate::load(vec![TestEvent::Created, TestEvent::Updated]);
    assert_eq!(agg.version(), 2);
}

#[test]
fn stored_event_accessors_report_fields() {
    let se = StoredEvent::new(
        "agg-1".to_string(),
        4,
        2,
        "Created".to_string(),
        TestEvent::Created,
    );
    assert_eq!(se.aggregate_id(), "agg-1");
    assert_eq!(se.version(), 4);
    assert_eq!(se.event_version(), 2);
    assert_eq!(se.event_type(), "Created");
    assert!(matches!(se.event(), TestEvent::Created));
    assert!(matches!(se.into_event(), TestEvent::Created));
}

#[test]
fn stored_snapshot_accessors_report_fields() {
    let st = StoredSnapshot::new("agg-1".to_string(), 3, TestSnap { version: 3 });
    assert_eq!(st.aggregate_id(), "agg-1");
    assert_eq!(st.version(), 3);
    assert_eq!(st.into_snapshot().version, 3);
}

#[test]
fn plan_append_builds_sequential_records() {
    let events = vec![TestEvent::Created, TestEvent::Updated];
    let stored = sourcerer::plan_append("agg-9", 2, 2, &events).expect("versions match");
    assert_eq!(stored.len(), 2);
    assert_eq!(stored[0].version(), 3);
    assert_eq!(stored[1].version(), 4);
    assert_eq!(stored[0].aggregate_id(), "agg-9");
    assert_eq!(stored[1].event_type(), "Updated");

    let err = sourcerer::plan_append("agg-9", 2, 0, &events).expect_err("mismatch conflicts");
    assert!(matches!(err, Error::Conflict));
}

#[test]
fn fresh_ids_carry_uuid_text() {
    let id = TestId::new();
    assert_eq!(id.key().len(), 36);
    assert_ne!(TestId::new().key(), TestId::new().key());
}
