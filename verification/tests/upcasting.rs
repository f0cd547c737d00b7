//! Tests for the upcaster chain and the error taxonomy.

use sourcerer::repository::{GenericRepository, Repository};
use sourcerer::store::in_memory::InMemoryEventStore;
use sourcerer::store::in_memory_snapshot::InMemorySnapshotStore;
use sourcerer::testing::{FailingUpcaster, StampUpcaster, TestAggregate, TestEvent, TestId};
use sourcerer::upcaster::{RawStoredEvent, UpcasterChain};
use sourcerer::{Aggregate, AggregateId, Error, Event, EventStore};

fn raw(event_version: u16, payload: &str) -> RawStoredEvent {
    RawStoredEvent {
        aggregate_id: "agg-1".to_string(),
        version: 1,
        event_version,
        event_type: "Created".to_string(),
        payload: payload.to_string(),
    }
}

#[test]
fn upcast_with_no_registration_returns_event_unchanged() {
    let chain: UpcasterChain<StampUpcaster> = UpcasterChain::new();
    let out = chain.upcast(raw(1, "made")).expect("empty chain");
    assert_eq!(out.event_version, 1);
    assert_eq!(out.payload, "made");
    assert_eq!(out.event_type, "Created");
    assert_eq!(out.aggregate_id, "agg-1");
    assert_eq!(out.version, 1);

    // A registration for another version does not touch the event either.
    let chain = UpcasterChain::new().with(StampUpcaster { source: 5, stamp: "+".to_string() });
    let out = chain.upcast(raw(1, "made")).expect("no matching version");
    assert_eq!(out.event_version, 1);
    assert_eq!(out.payload, "made");
}

#[test]
fn upcast_three_hop_chain_reaches_latest_version_in_one_call() {
    let chain = UpcasterChain::new()
        .with(StampUpcaster { source: 1, stamp: "+".to_string() })
        .with(StampUpcaster { source: 2, stamp: "+".to_string() });
    let out = chain.upcast(raw(1, "made")).expect("three-hop migration");
    assert_eq!(out.event_version, 3, "migrated one step at a time to three");
    assert_eq!(out.payload, "made++", "each hop transformed the payload");
    assert_eq!(out.event_type, "Created");
}

#[test]
fn duplicate_registrations_apply_first_in_registration_order() {
    let chain = UpcasterChain::new()
        .with(StampUpcaster {
            source: 1,
            stamp: "a".to_string(),
        })
        .with(StampUpcaster {
            source: 1,
            stamp: "b".to_string(),
        });
    let out = chain.upcast(raw(1, "made")).expect("upcast");
    assert_eq!(out.event_version, 2);
    assert_eq!(out.payload, "madea", "the earlier registration wins");
}

#[test]
fn failing_upcaster_surfaces_its_error() {
    let chain = UpcasterChain::new().with(FailingUpcaster { source: 1 });
    let err = chain.upcast(raw(1, "made")).expect_err("transformation fails");
    assert!(matches!(err, Error::Validation(_)));
}

#[test]
fn repository_load_surfaces_decode_failure_as_store_error() {
    let event_store = InMemoryEventStore::<TestAggregate>::default();
    let snapshot_store = InMemorySnapshotStore::<TestAggregate>::default();
    let id = TestId::new();

    let mut repo: GenericRepository<TestAggregate, _, _, StampUpcaster> =
        GenericRepository::new(event_store, Some(snapshot_store))
            .with_upcasters(UpcasterChain::new().with(StampUpcaster { source: 1, stamp: "+".to_string() }));
    let mut agg = TestAggregate {
        id: id.clone(),
        version: 0,
    };
    let event = TestEvent::Created;
    agg.apply(&event);
    repo.save(&agg, vec![event]).expect("save");

    // The upcaster rewrites the payload into text the event type cannot
    // decode, so the load fails at the store boundary.
    let err = repo.load(&id).expect_err("decode failure");
    assert!(matches!(err, Error::Store(_)));
}

#[test]
fn event_payloads_round_trip() {
    let p = TestEvent::Updated.to_payload();
    assert!(matches!(
        TestEvent::from_payload(&p),
        Ok(TestEvent::Updated)
    ));
    assert!(TestEvent::from_payload("garbage").is_err());
}

#[test]
fn raw_records_mirror_stored_events() {
    let mut store = InMemoryEventStore::<TestAggregate>::default();
    let id = TestId::new();
    store
        .append(&id, 0, vec![TestEvent::Created, TestEvent::Updated])
        .expect("seed");

    let raws = store.load_raw(&id, 0).expect("load_raw");
    assert_eq!(raws.len(), 2);
    assert_eq!(raws[0].version, 1);
    assert_eq!(raws[0].event_type, "Created");
    assert_eq!(raws[0].payload, "Created", "the payload is the serialized event");
    assert_eq!(raws[1].version, 2);
    assert_eq!(raws[1].event_type, "Updated");

    let tail = store.load_raw(&id, 1).expect("load_raw suffix");
    assert_eq!(tail.len(), 1);
    assert_eq!(tail[0].version, 2);
}

#[test]
fn error_messages_name_each_failure() {
    assert_eq!(Error::Conflict.message(), "aggregate conflict");
    assert_eq!(Error::NotFound.message(), "aggregate not found");
    assert_eq!(
        Error::Store("boom".to_string()).message(),
        "event store error: boom"
    );
    assert_eq!(
        Error::Validation("bad".to_string()).message(),
        "validation error: bad"
    );
}
