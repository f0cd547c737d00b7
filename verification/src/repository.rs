//! Provides a generic repository for interacting with aggregates.
use vstd::prelude::*;

use core::marker::PhantomData;

use crate::snapshot::SnapshotStore;
use crate::upcaster::{
    chain_matches, chain_outcome, raw_matches, raw_seq_matches, UpcastFailure, Upcaster,
    UpcasterChain,
};
use crate::{
    stream_contiguous, stream_of, suffix_above, Aggregate, AggregateId, Error, Event, EventStore,
    StoredEvent,
};

verus! {

/// Whether no registered upcaster touches any of the given stored records: no
/// registration matches a record's event type at its stored schema version.
pub open spec fn chain_untouched<U: Upcaster, E: Event>(
    upcasters: Seq<U>,
    records: Seq<StoredEvent<E>>,
) -> bool {
    forall|j: int|
        0 <= j < records.len() ==> !chain_matches(
            upcasters,
            (#[trigger] records[j]).event_type@,
            records[j].event_version,
        )
}

/// Defines the standard interface for a repository.
pub trait Repository<A: Aggregate>: Sized {
    /// The repository's well-formedness: its stores and its upcaster chain are
    /// well-formed.
    spec fn wf(&self) -> bool;

    /// Loads an aggregate instance from the store.
    fn load(&self, id: &A::Id) -> (r: Result<A, Error>)
        requires
            self.wf(),
    ;

    /// Saves a new list of events for an aggregate. The caller has already
    /// applied the events locally, so the aggregate's version reflects them.
    fn save(&mut self, aggregate: &A, new_events: Vec<A::Event>) -> (r: Result<(), Error>)
        requires
            old(self).wf(),
            new_events@.len() <= aggregate.version_spec(),
        ensures
            final(self).wf(),
    ;
}

/// A generic, high-level repository for loading and saving aggregates.
///
/// This repository simplifies the common load-handle-save cycle by
/// orchestrating the event store, an optional snapshot store, and an upcaster
/// chain.
pub struct GenericRepository<A, S, SS, U> where
    A: Aggregate,
    S: EventStore<A>,
    SS: SnapshotStore<A>,
    U: Upcaster,
 {
    /// The event store.
    pub store: S,
    /// The snapshot store, when snapshotting is configured.
    pub snapshot_store: Option<SS>,
    /// The upcaster chain applied to raw events at load time.
    pub upcasters: UpcasterChain<U>,
    /// When set to `Some(f)`, a snapshot is taken whenever a save crosses a
    /// multiple-of-`f` version boundary.
    pub snapshot_frequency: Option<usize>,
    /// Marks the aggregate type this repository serves.
    pub _aggregate: PhantomData<A>,
}

impl<A, S, SS, U> GenericRepository<A, S, SS, U> where
    A: Aggregate,
    S: EventStore<A>,
    SS: SnapshotStore<A>,
    U: Upcaster,
 {
    /// The stream the event store holds for a key, as seen by specifications.
    pub open spec fn stream_model(&self, key: Seq<char>) -> Seq<
        StoredEvent<<A as Aggregate>::Event>,
    > {
        stream_of(self.store.streams(), key)
    }

    /// The snapshot held for a key, as seen by specifications: its recorded
    /// version and its payload, or `None` when no snapshot store is configured
    /// or none is held.
    pub open spec fn snap_model(&self, key: Seq<char>) -> Option<
        (i64, <A as Aggregate>::Snapshot),
    > {
        match self.snapshot_store {
            Some(ss) => if ss.snaps().contains_key(key) {
                Some(ss.snaps()[key])
            } else {
                None
            },
            None => None,
        }
    }

    /// The version a load of the key starts replaying from: the snapshot's
    /// recorded version, or zero without one.
    pub open spec fn base_version(&self, key: Seq<char>) -> i64 {
        match self.snap_model(key) {
            Some(entry) => entry.0,
            None => 0,
        }
    }

    /// How many stored events a load of the key replays.
    pub open spec fn replay_len(&self, key: Seq<char>) -> int {
        suffix_above(self.stream_model(key), self.base_version(key)).len() as int
    }

    /// Whether both configured stores never fail.
    pub open spec fn reliable(&self) -> bool {
        &&& self.store.reliable()
        &&& (self.snapshot_store matches Some(ss) ==> ss.reliable())
    }

    /// Whether a save that moves the version from `before` to `after` takes a
    /// snapshot: a snapshot store and a frequency `f` are configured, and the
    /// save crossed a multiple-of-`f` boundary.
    pub open spec fn snapshot_due(&self, before: int, after: int) -> bool {
        &&& self.snapshot_store matches Some(_)
        &&& match self.snapshot_frequency {
            Some(f) => after / (f as int) > before / (f as int),
            None => false,
        }
    }

    /// Creates a new `GenericRepository`.
    pub fn new(store: S, snapshot_store: Option<SS>) -> (r: Self)
        requires
            store.inv(),
            snapshot_store matches Some(ss) ==> ss.inv(),
        ensures
            r.store == store,
            r.snapshot_store == snapshot_store,
            r.upcasters.upcasters@ =~= Seq::<U>::empty(),
            r.snapshot_frequency == None::<usize>,
            r.wf(),
    {
        Self {
            store,
            snapshot_store,
            upcasters: UpcasterChain::new(),
            snapshot_frequency: None,
            _aggregate: PhantomData,
        }
    }

    /// Sets the upcaster chain for the repository.
    pub fn with_upcasters(self, upcasters: UpcasterChain<U>) -> (r: Self)
        requires
            upcasters.wf(),
        ensures
            r == (GenericRepository {
                upcasters,
                store: self.store,
                snapshot_store: self.snapshot_store,
                snapshot_frequency: self.snapshot_frequency,
                _aggregate: self._aggregate,
            }),
    {
        Self { upcasters, ..self }
    }

    /// Sets the frequency at which snapshots should be created.
    ///
    /// For example, a value of `Some(100)` means a snapshot will be created
    /// whenever a save crosses a multiple-of-100 version boundary. A frequency
    /// must be at least one.
    pub fn with_snapshot_frequency(self, frequency: Option<usize>) -> (r: Self)
        requires
            frequency matches Some(f) ==> 1 <= f <= i64::MAX,
        ensures
            r == (GenericRepository {
                snapshot_frequency: frequency,
                store: self.store,
                snapshot_store: self.snapshot_store,
                upcasters: self.upcasters,
                _aggregate: self._aggregate,
            }),
    {
        Self { snapshot_frequency: frequency, ..self }
    }

    /// Returns the event store.
    pub fn event_store(&self) -> (r: &S)
        ensures
            *r == self.store,
    {
        &self.store
    }

    /// Returns the snapshot store, when one is configured.
    pub fn snapshot_store(&self) -> (r: Option<&SS>)
        ensures
            match r {
                Some(ss) => self.snapshot_store == Some(*ss),
                None => self.snapshot_store is None,
            },
    {
        match &self.snapshot_store {
            Some(ss) => Some(ss),
            None => None,
        }
    }
}

impl<A, S, SS, U> Repository<A> for GenericRepository<A, S, SS, U> where
    A: Aggregate,
    S: EventStore<A>,
    SS: SnapshotStore<A>,
    U: Upcaster,
 {
    open spec fn wf(&self) -> bool {
        &&& self.store.inv()
        &&& (self.snapshot_store matches Some(ss) ==> ss.inv())
        &&& self.upcasters.wf()
        &&& (self.snapshot_frequency matches Some(f) ==> 1 <= f <= i64::MAX)
    }

    /// Loads an aggregate: hydrates it from the held snapshot when one exists
    /// (else from a fresh aggregate), replays exactly the stored events with
    /// version above the starting point in ascending order — each record
    /// upcasted by the chain, decoded, and applied, one call per event — and
    /// fails with `Error::NotFound` exactly when there is neither a snapshot
    /// nor any stored event for the ID.
    fn load(&self, id: &A::Id) -> (r: Result<A, Error>)
        ensures
            ({
                let key = id.key_spec();
                let suffix = suffix_above(self.stream_model(key), self.base_version(key));
                match r {
                    Ok(aggregate) => {
                        &&& aggregate.version_spec() == self.base_version(key) + self.replay_len(
                            key,
                        )
                        &&& (self.snap_model(key) is Some || self.replay_len(key) > 0)
                        &&& exists|base: A, replayed: Seq<<A as Aggregate>::Event>|
                            {
                                &&& match self.snap_model(key) {
                                    Some(entry) => base.snapshot_spec() == entry.1
                                        && base.version_spec() == entry.0,
                                    None => base.version_spec() == 0,
                                }
                                &&& replayed.len() == self.replay_len(key)
                                &&& aggregate == crate::apply_all(base, replayed)
                                &&& (forall|j: int|
                                    0 <= j < replayed.len() ==> (chain_outcome(
                                        self.upcasters.upcasters@,
                                        (#[trigger] suffix[j]).event_type@,
                                        suffix[j].event_version,
                                        suffix[j].event.payload_spec(),
                                    ) matches Ok(pair)
                                        && <<A as Aggregate>::Event as Event>::decode_spec(pair.1)
                                        == Some(replayed[j])))
                                &&& (chain_untouched(self.upcasters.upcasters@, suffix)
                                    ==> (forall|j: int|
                                    0 <= j < replayed.len() ==> replayed[j] == (
                                    #[trigger] suffix[j]).event))
                            }
                    },
                    Err(Error::NotFound) => {
                        &&& self.snap_model(key) is None
                        &&& self.replay_len(key) == 0
                    },
                    Err(Error::Store(_)) => !self.reliable() || !chain_untouched(
                        self.upcasters.upcasters@,
                        suffix,
                    ),
                    Err(Error::Validation(_)) => !chain_untouched(
                        self.upcasters.upcasters@,
                        suffix,
                    ),
                    Err(Error::Conflict) => false,
                }
            }),
    {
        let ghost key = id.key_spec();
        // Attempt to hydrate the aggregate from a snapshot first, so only the
        // events that occurred afterwards are replayed.
        let (mut aggregate, starting_version, has_snapshot): (A, i64, bool) = match &self
            .snapshot_store {
            Some(snapshot_store) => {
                proof {
                    snapshot_store.inv_implies_versions();
                }
                match snapshot_store.load(id) {
                    Ok(Some(stored)) => {
                        let v = stored.version();
                        let snap = stored.into_snapshot();
                        (A::from_snapshot(snap), v, true)
                    },
                    Ok(None) => (A::initial(), 0, false),
                    Err(e) => {
                        return Err(e);
                    },
                }
            },
            None => (A::initial(), 0, false),
        };
        proof {
            assert(starting_version == self.base_version(key));
            assert(has_snapshot == (self.snap_model(key) is Some));
            assert(aggregate.version_spec() == starting_version);
        }
        // Load all events that occurred after the snapshot (or from scratch).
        let raw_events = match self.store.load_raw(id, starting_version) {
            Ok(raws) => raws,
            Err(e) => {
                return Err(e);
            },
        };
        // Guard against loading a non-existing aggregate.
        if raw_events.len() == 0 && !has_snapshot {
            return Err(Error::NotFound);
        }
        let ghost suffix = suffix_above(self.stream_model(key), starting_version);
        proof {
            self.store.inv_implies_contiguous();
            assert(stream_contiguous(self.stream_model(key), key));
            crate::lemma_suffix_above_shape(self.stream_model(key), key, starting_version);
        }
        let ghost base = aggregate;
        proof {
            assert(match self.snap_model(key) {
                Some(entry) => base.snapshot_spec() == entry.1 && base.version_spec() == entry.0,
                None => base.version_spec() == 0,
            });
        }
        let ghost mut replayed = Seq::<<A as Aggregate>::Event>::empty();
        let mut i: usize = 0;
        while i < raw_events.len()
            invariant
                self.wf(),
                key == id.key_spec(),
                starting_version == self.base_version(key),
                suffix == suffix_above(self.stream_model(key), self.base_version(key)),
                i <= raw_events@.len(),
                raw_seq_matches(raw_events@, suffix),
                forall|j: int|
                    0 <= j < suffix.len() ==> (#[trigger] suffix[j]).version == starting_version
                        + 1 + j,
                aggregate.version_spec() == starting_version + i,
                0 <= starting_version,
                base.version_spec() == starting_version,
                replayed.len() == i,
                aggregate == crate::apply_all(base, replayed),
                forall|j: int|
                    0 <= j < replayed.len() ==> (chain_outcome(
                        self.upcasters.upcasters@,
                        (#[trigger] suffix[j]).event_type@,
                        suffix[j].event_version,
                        suffix[j].event.payload_spec(),
                    ) matches Ok(pair) && <<A as Aggregate>::Event as Event>::decode_spec(pair.1)
                        == Some(replayed[j])),
                chain_untouched(self.upcasters.upcasters@, suffix) ==> (forall|j: int|
                    0 <= j < replayed.len() ==> replayed[j] == (#[trigger] suffix[j]).event),
            decreases raw_events@.len() - i,
        {
            let upcasted_event = match self.upcasters.upcast(raw_events[i].duplicate()) {
                Ok(u) => u,
                Err(e) => {
                    proof {
                        // The failing hop matched this record, so the chain is
                        // not clear of the replayed suffix.
                        assert(raw_matches(raw_events@[i as int], suffix[i as int]));
                        assert(chain_matches(
                            self.upcasters.upcasters@,
                            suffix[i as int].event_type@,
                            suffix[i as int].event_version,
                        ));
                        assert(!chain_untouched(self.upcasters.upcasters@, suffix));
                    }
                    return Err(e);
                },
            };
            let event = match A::Event::from_payload(upcasted_event.payload.as_str()) {
                Ok(ev) => ev,
                Err(msg) => {
                    proof {
                        // A record the chain leaves alone carries the payload
                        // its event wrote, and that payload always decodes.
                        if chain_untouched(self.upcasters.upcasters@, suffix) {
                            assert(raw_matches(raw_events@[i as int], suffix[i as int]));
                            assert(upcasted_event == raw_events@[i as int]);
                            suffix[i as int].event.decode_inverts_encode();
                            assert(false);
                        }
                    }
                    return Err(Error::Store(msg));
                },
            };
            proof {
                assert(suffix[i as int].version == starting_version + 1 + i);
                assert(aggregate.version_spec() < i64::MAX);
                assert(raw_matches(raw_events@[i as int], suffix[i as int]));
                assert(chain_outcome(
                    self.upcasters.upcasters@,
                    suffix[i as int].event_type@,
                    suffix[i as int].event_version,
                    suffix[i as int].event.payload_spec(),
                ) == Ok::<(u16, Seq<char>), UpcastFailure>(
                    (upcasted_event.event_version, upcasted_event.payload@),
                ));
                assert(<<A as Aggregate>::Event as Event>::decode_spec(upcasted_event.payload@)
                    == Some(event));
                if chain_untouched(self.upcasters.upcasters@, suffix) {
                    assert(upcasted_event == raw_events@[i as int]);
                    suffix[i as int].event.decode_inverts_encode();
                    assert(event == suffix[i as int].event);
                }
            }
            aggregate.apply(&event);
            proof {
                crate::lemma_apply_all_push(base, replayed, event);
                replayed = replayed.push(event);
            }
            i = i + 1;
        }
        Ok(aggregate)
    }

    /// Saves a list of new events for an aggregate, which the caller has
    /// already applied locally: appends them optimistically at the version the
    /// aggregate held before them, and, when the save crosses a snapshot
    /// boundary, persists a fresh snapshot at the version after them. A
    /// `Error::Conflict` means another writer advanced the aggregate
    /// concurrently; the caller must reload and retry.
    fn save(&mut self, aggregate: &A, new_events: Vec<A::Event>) -> (r: Result<(), Error>)
        ensures
            final(self).snapshot_frequency == old(self).snapshot_frequency,
            final(self).upcasters == old(self).upcasters,
            old(self).reliable() ==> final(self).reliable(),
            old(self).reliable() ==> !(r matches Err(Error::Store(_))),
            ({
                let key = aggregate.id_spec();
                let n = new_events@.len() as int;
                let before = aggregate.version_spec() - n;
                let after = aggregate.version_spec() as int;
                let prior = old(self).stream_model(key);
                let current = final(self).stream_model(key);
                match r {
                    Ok(_) => {
                        if n == 0 {
                            *final(self) == *old(self)
                        } else {
                            &&& before == prior.len()
                            &&& current.len() == prior.len() + n
                            &&& (forall|i: int| 0 <= i < prior.len() ==> current[i] == prior[i])
                            &&& (forall|i: int|
                                0 <= i < n ==> {
                                    let se = #[trigger] current[prior.len() + i];
                                    &&& se.version == before + 1 + i
                                    &&& se.event == new_events@[i]
                                    &&& se.aggregate_id@ == key
                                    &&& se.event_version == new_events@[i].schema_spec()
                                    &&& se.event_type@ == new_events@[i].type_spec()
                                })
                            &&& (forall|k: Seq<char>|
                                k != key ==> final(self).stream_model(k) == old(self).stream_model(
                                    k,
                                ))
                            &&& (if old(self).snapshot_due(before, after) {
                                &&& final(self).snap_model(key) == Some(
                                    ((after as i64), aggregate.snapshot_spec()),
                                )
                                &&& (forall|k: Seq<char>|
                                    k != key ==> final(self).snap_model(k) == old(self).snap_model(
                                        k,
                                    ))
                            } else {
                                final(self).snapshot_store == old(self).snapshot_store
                            })
                        }
                    },
                    Err(Error::Conflict) => {
                        &&& n > 0
                        &&& before != prior.len()
                        &&& final(self).store.streams() == old(self).store.streams()
                        &&& final(self).snapshot_store == old(self).snapshot_store
                    },
                    Err(Error::Store(_)) => true,
                    Err(_) => false,
                }
            }),
    {
        if new_events.len() == 0 {
            return Ok(());
        }
        let num_new_events = new_events.len();
        let version_before_save = aggregate.version() - num_new_events as i64;
        match self.store.append(aggregate.id(), version_before_save, new_events) {
            Ok(_) => {},
            Err(e) => {
                return Err(e);
            },
        }
        if let Some(frequency) = self.snapshot_frequency {
            match &mut self.snapshot_store {
                Some(snapshot_store) => {
                    let version_after_save = version_before_save + num_new_events as i64;
                    let freq = frequency as u64;
                    let before_units = (version_before_save as u64) / freq;
                    let after_units = (version_after_save as u64) / freq;
                    if after_units > before_units {
                        let snapshot = aggregate.snapshot();
                        match snapshot_store.save(aggregate.id(), version_after_save, snapshot) {
                            Ok(_) => {},
                            Err(e) => {
                                return Err(e);
                            },
                        }
                    }
                },
                None => {},
            }
        }
        Ok(())
    }
}

} // verus!
