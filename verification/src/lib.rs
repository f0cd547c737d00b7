//! An event-sourcing core: aggregates are rebuilt by replaying an ordered log
//! of immutable events, writes are guarded by optimistic concurrency, replay is
//! shortened by snapshots, and old event schemas are migrated forward by an
//! upcaster chain.
//!
//! The core is organised around capability traits: [`Event`], [`AggregateId`],
//! [`Aggregate`] and [`Snapshot`] are what domain code implements;
//! [`EventStore`] and [`snapshot::SnapshotStore`] are what storage backends
//! implement. Every trait method carries the contract the core relies on, and
//! the in-memory backends under [`store`] are verified against those contracts.
use vstd::prelude::*;

pub mod repository;
pub mod snapshot;
pub mod store;
pub mod testing;
pub mod upcaster;

verus! {

use vstd::string::StringExecFns;

/// The error type for this crate.
#[derive(Debug, Clone)]
pub enum Error {
    /// Occurs when an aggregate's expected version does not match the actual
    /// version, indicating a concurrency conflict.
    Conflict,
    /// Occurs when an aggregate could not be found.
    NotFound,
    /// Wraps an error from the underlying event or snapshot store.
    Store(String),
    /// Occurs when a command fails a validation rule.
    Validation(String),
}

impl Error {
    /// The text of [`Error::message`], as seen by specifications.
    pub open spec fn message_spec(&self) -> Seq<char> {
        match self {
            Error::Conflict => "aggregate conflict"@,
            Error::NotFound => "aggregate not found"@,
            Error::Store(m) => "event store error: "@ + m@,
            Error::Validation(m) => "validation error: "@ + m@,
        }
    }

    /// A human-readable description of the error.
    pub fn message(&self) -> (r: String)
        ensures
            r@ == self.message_spec(),
    {
        match self {
            Error::Conflict => "aggregate conflict".to_owned(),
            Error::NotFound => "aggregate not found".to_owned(),
            Error::Store(m) => "event store error: ".to_owned().concat(m.as_str()),
            Error::Validation(m) => "validation error: ".to_owned().concat(m.as_str()),
        }
    }
}

/// The capability contract for events.
///
/// An event deterministically reports its type tag, its schema version, its
/// source, and the serialized payload it writes. The core never interprets
/// payload text: the format is owned by the implementation.
pub trait Event: Sized {
    /// The type tag of this event, as seen by specifications.
    spec fn type_spec(&self) -> Seq<char>;

    /// The schema version of this event, as seen by specifications.
    spec fn schema_spec(&self) -> u16;

    /// The source identifier of this event, as seen by specifications.
    spec fn source_spec(&self) -> Seq<char>;

    /// The serialized payload of this event, as seen by specifications.
    spec fn payload_spec(&self) -> Seq<char>;

    /// The decoding [`Event::from_payload`] performs, as seen by
    /// specifications: the event a payload text denotes, or `None` when it
    /// denotes none.
    spec fn decode_spec(payload: Seq<char>) -> Option<Self>;

    /// Law: decoding inverts serialization — the payload an event writes
    /// denotes that event.
    proof fn decode_inverts_encode(&self)
        ensures
            Self::decode_spec(self.payload_spec()) == Some(*self),
    ;

    /// Returns a static string slice representing the type of the event.
    fn event_type(&self) -> (r: &'static str)
        ensures
            r@ == self.type_spec(),
    ;

    /// Returns the version of the event's schema.
    fn event_version(&self) -> (r: u16)
        ensures
            r == self.schema_spec(),
    ;

    /// Returns the source URI associated with this event.
    fn event_source(&self) -> (r: &'static str)
        ensures
            r@ == self.source_spec(),
    ;

    /// Returns a copy of this event.
    fn clone_event(&self) -> (r: Self)
        ensures
            r == *self,
    ;

    /// Serializes this event into payload text.
    fn to_payload(&self) -> (r: String)
        ensures
            r@ == self.payload_spec(),
    ;

    /// Deserializes an event from payload text, or reports why it cannot: the
    /// named decoding decides which.
    fn from_payload(payload: &str) -> (r: Result<Self, String>)
        ensures
            match r {
                Ok(event) => Self::decode_spec(payload@) == Some(event),
                Err(_) => Self::decode_spec(payload@) is None,
            },
    ;
}

/// Uniquely identifies an aggregate instance.
pub trait AggregateId: Sized {
    /// The text key that stands for this ID, as seen by specifications.
    spec fn key_spec(&self) -> Seq<char>;

    /// Creates a new, unique aggregate ID.
    fn new() -> Self;

    /// Returns the text key that stands for this ID; stores index streams by it.
    fn key(&self) -> (r: String)
        ensures
            r@ == self.key_spec(),
    ;
}

/// The capability contract for snapshots.
///
/// A snapshot is a point-in-time materialization of aggregate state. It
/// determines the aggregate version it captured, so a load that starts from it
/// can replay exactly the events that came later.
pub trait Snapshot: Sized {
    /// The aggregate version this snapshot captured, as seen by specifications.
    spec fn version_spec(&self) -> i64;

    /// Returns a copy of this snapshot.
    fn clone_snapshot(&self) -> (r: Self)
        ensures
            r == *self,
    ;
}

/// An aggregate is a consistency boundary. It is the fundamental building block
/// of the domain model: its state is derived purely from the ordered sequence
/// of events applied to it, and its version counts those events.
pub trait Aggregate: Sized {
    /// The type of the aggregate's unique identifier.
    type Id: AggregateId;

    /// The type of events that this aggregate produces.
    type Event: Event;

    /// The type of commands that this aggregate can handle.
    type Command;

    /// The type of snapshot that this aggregate can produce.
    type Snapshot: Snapshot;

    /// The type of error that this aggregate can produce.
    type Error;

    /// The key of this aggregate's ID, as seen by specifications.
    spec fn id_spec(&self) -> Seq<char>;

    /// The version of this aggregate, as seen by specifications.
    spec fn version_spec(&self) -> i64;

    /// The state transition [`Aggregate::apply`] performs, as seen by
    /// specifications.
    spec fn apply_spec(self, event: Self::Event) -> Self;

    /// The snapshot [`Aggregate::snapshot`] produces, as seen by
    /// specifications.
    spec fn snapshot_spec(&self) -> Self::Snapshot;

    /// A fresh aggregate, before any event has been applied.
    fn initial() -> (r: Self)
        ensures
            r.version_spec() == 0,
    ;

    /// Returns the unique identifier of the aggregate.
    fn id(&self) -> (r: &Self::Id)
        ensures
            r.key_spec() == self.id_spec(),
    ;

    /// Returns the current version of the aggregate.
    fn version(&self) -> (r: i64)
        ensures
            r == self.version_spec(),
    ;

    /// Applies an event to the aggregate, changing its state. The transition is
    /// total and deterministic, increments the version by exactly one, and
    /// keeps the identity.
    fn apply(&mut self, event: &Self::Event)
        requires
            old(self).version_spec() < i64::MAX,
        ensures
            *final(self) == old(self).apply_spec(*event),
            final(self).version_spec() == old(self).version_spec() + 1,
            final(self).id_spec() == old(self).id_spec(),
    ;

    /// Handles a command and returns the events it produces, without mutating
    /// the aggregate.
    fn handle(&self, command: Self::Command) -> Result<Vec<Self::Event>, Self::Error>;

    /// Restores an aggregate from a snapshot, at the version the snapshot
    /// captured; taking a snapshot of the restored aggregate yields the one it
    /// was restored from.
    fn from_snapshot(snapshot: Self::Snapshot) -> (r: Self)
        ensures
            r.version_spec() == snapshot.version_spec(),
            r.snapshot_spec() == snapshot,
    ;

    /// Creates a snapshot of the aggregate's current state.
    fn snapshot(&self) -> (r: Self::Snapshot)
        ensures
            r == self.snapshot_spec(),
            r.version_spec() == self.version_spec(),
    ;

    /// Restores an aggregate's state by replaying a sequence of events from
    /// scratch: starting from a fresh aggregate, each event is applied once,
    /// in order.
    fn load(events: Vec<Self::Event>) -> (r: Self)
        requires
            events@.len() <= i64::MAX,
        ensures
            r.version_spec() == events@.len(),
            exists|trace: Seq<Self>|
                {
                    &&& trace.len() == events@.len() + 1
                    &&& trace[0].version_spec() == 0
                    &&& (forall|j: int|
                        0 <= j < events@.len() ==> #[trigger] trace[j + 1] == trace[j].apply_spec(
                            events@[j],
                        ))
                    &&& r == trace[events@.len() as int]
                },
    {
        let mut aggregate = Self::initial();
        let ghost mut trace = seq![aggregate];
        let mut i: usize = 0;
        while i < events.len()
            invariant
                i <= events@.len(),
                events@.len() <= i64::MAX,
                aggregate.version_spec() == i,
                trace.len() == i + 1,
                trace[0].version_spec() == 0,
                forall|j: int|
                    0 <= j < i ==> #[trigger] trace[j + 1] == trace[j].apply_spec(events@[j]),
                aggregate == trace[i as int],
            decreases events@.len() - i,
        {
            aggregate.apply(&events[i]);
            proof {
                trace = trace.push(aggregate);
            }
            i = i + 1;
        }
        proof {
            assert(trace.len() == events@.len() + 1);
            assert(trace[0].version_spec() == 0);
            assert(aggregate == trace[events@.len() as int]);
        }
        aggregate
    }
}

/// The aggregate state that results from applying a sequence of events in
/// order, as seen by specifications.
pub open spec fn apply_all<A: Aggregate>(aggregate: A, events: Seq<A::Event>) -> A
    decreases events.len(),
{
    if events.len() == 0 {
        aggregate
    } else {
        apply_all(aggregate.apply_spec(events[0]), events.skip(1))
    }
}

/// Applying one more event after a sequence is applying the extended sequence.
pub proof fn lemma_apply_all_push<A: Aggregate>(aggregate: A, events: Seq<A::Event>, event: A::Event)
    ensures
        apply_all(aggregate, events.push(event)) == apply_all(aggregate, events).apply_spec(event),
    decreases events.len(),
{
    if events.len() == 0 {
        assert(events.push(event)[0] == event);
        assert(events.push(event).skip(1) =~= Seq::<A::Event>::empty());
        assert(apply_all(aggregate, events.push(event)) == apply_all(
            aggregate.apply_spec(event),
            Seq::<A::Event>::empty(),
        ));
        assert(apply_all(aggregate.apply_spec(event), Seq::<A::Event>::empty())
            == aggregate.apply_spec(event));
        assert(apply_all(aggregate, events) == aggregate);
    } else {
        assert(events.push(event)[0] == events[0]);
        assert(events.push(event).skip(1) =~= events.skip(1).push(event));
        assert(apply_all(aggregate, events.push(event)) == apply_all(
            aggregate.apply_spec(events[0]),
            events.skip(1).push(event),
        ));
        lemma_apply_all_push(aggregate.apply_spec(events[0]), events.skip(1), event);
        assert(apply_all(aggregate, events) == apply_all(
            aggregate.apply_spec(events[0]),
            events.skip(1),
        ));
    }
}

/// Represents a stored event, including metadata.
#[derive(Debug)]
pub struct StoredEvent<E: Event> {
    /// The ID of the aggregate this event belongs to.
    pub aggregate_id: String,
    /// The version of the aggregate after this event was applied.
    pub version: i64,
    /// The version of the event's schema.
    pub event_version: u16,
    /// The type of the event.
    pub event_type: String,
    /// The event payload itself.
    pub event: E,
}

impl<E: Event> StoredEvent<E> {
    /// Creates a new stored event.
    pub fn new(
        aggregate_id: String,
        version: i64,
        event_version: u16,
        event_type: String,
        event: E,
    ) -> (r: Self)
        ensures
            r == (StoredEvent { aggregate_id, version, event_version, event_type, event }),
    {
        Self { aggregate_id, version, event_version, event_type, event }
    }

    /// Returns the ID of the aggregate this event belongs to.
    pub fn aggregate_id(&self) -> (r: &str)
        ensures
            r@ == self.aggregate_id@,
    {
        self.aggregate_id.as_str()
    }

    /// Returns the version of the aggregate after this event was applied.
    pub fn version(&self) -> (r: i64)
        ensures
            r == self.version,
    {
        self.version
    }

    /// Returns the version of the event's schema.
    pub fn event_version(&self) -> (r: u16)
        ensures
            r == self.event_version,
    {
        self.event_version
    }

    /// Returns the type of the event.
    pub fn event_type(&self) -> (r: &str)
        ensures
            r@ == self.event_type@,
    {
        self.event_type.as_str()
    }

    /// Returns the event payload itself.
    pub fn event(&self) -> (r: &E)
        ensures
            *r == self.event,
    {
        &self.event
    }

    /// Consumes the stored event and returns the event payload.
    pub fn into_event(self) -> (r: E)
        ensures
            r == self.event,
    {
        self.event
    }

    /// Returns a copy of this stored event.
    pub fn duplicate(&self) -> (r: Self)
        ensures
            r == *self,
    {
        Self {
            aggregate_id: self.aggregate_id.clone(),
            version: self.version,
            event_version: self.event_version,
            event_type: self.event_type.clone(),
            event: self.event.clone_event(),
        }
    }
}

/// The stream a store holds for a key; empty when the key is unknown.
pub open spec fn stream_of<E: Event>(
    streams: Map<Seq<char>, Seq<StoredEvent<E>>>,
    key: Seq<char>,
) -> Seq<StoredEvent<E>> {
    if streams.contains_key(key) {
        streams[key]
    } else {
        Seq::empty()
    }
}

/// Versions form the contiguous ascending sequence `1..=len`, with no gaps or
/// duplicates, and every record carries the stream's key.
pub open spec fn stream_contiguous<E: Event>(s: Seq<StoredEvent<E>>, key: Seq<char>) -> bool {
    forall|i: int|
        0 <= i < s.len() ==> (#[trigger] s[i]).version == i + 1 && s[i].aggregate_id@ == key
}

/// Every stream of the store is contiguous.
pub open spec fn store_contiguous<E: Event>(streams: Map<Seq<char>, Seq<StoredEvent<E>>>) -> bool {
    forall|k: Seq<char>| streams.contains_key(k) ==> stream_contiguous(#[trigger] streams[k], k)
}

/// The records of a stream with version above `v`; under contiguity this is the
/// suffix that starts at index `v`.
pub open spec fn suffix_above<E: Event>(s: Seq<StoredEvent<E>>, v: i64) -> Seq<StoredEvent<E>> {
    if v <= 0 {
        s
    } else if v as int >= s.len() {
        Seq::empty()
    } else {
        s.skip(v as int)
    }
}

/// Law: in a contiguous stream, the stored versions are exactly the sequence
/// `1..=len`, with no gaps and no duplicates.
pub proof fn lemma_versions_are_contiguous_range<E: Event>(s: Seq<StoredEvent<E>>, key: Seq<char>)
    requires
        stream_contiguous(s, key),
    ensures
        s.map_values(|e: StoredEvent<E>| e.version) =~= Seq::new(s.len(), |i: int| (i + 1) as i64),
{
}

/// Law: `suffix_above` keeps exactly the records with version above `v`, in
/// their stored order. So a load from version `v` returns the filtered suffix,
/// and a load from version zero returns the whole stream.
pub proof fn lemma_suffix_above_is_filter<E: Event>(s: Seq<StoredEvent<E>>, key: Seq<char>, v: i64)
    requires
        stream_contiguous(s, key),
        0 <= v,
    ensures
        suffix_above(s, v) =~= s.filter(|e: StoredEvent<E>| e.version > v),
        v == 0 ==> suffix_above(s, v) =~= s,
    decreases s.len(),
{
    reveal(Seq::filter);
    if s.len() == 0 {
    } else {
        let prefix = s.drop_last();
        assert(stream_contiguous(prefix, key));
        lemma_suffix_above_is_filter(prefix, key, v);
        let pred = |e: StoredEvent<E>| e.version > v;
        assert(s =~= prefix.push(s.last()));
        if pred(s.last()) {
            assert(s.filter(pred) =~= prefix.filter(pred).push(s.last()));
            assert(suffix_above(s, v) =~= suffix_above(prefix, v).push(s.last()));
        } else {
            assert(s.last().version == s.len());
            assert(v >= s.len());
            assert(suffix_above(s, v) =~= Seq::empty());
        }
    }
}

/// Positions and lengths of `suffix_above`: in a contiguous stream, the suffix
/// above `v` holds `len - v` records (none when `v` is at or past the end), and
/// the record at offset `j` carries version `v + 1 + j`.
pub proof fn lemma_suffix_above_shape<E: Event>(s: Seq<StoredEvent<E>>, key: Seq<char>, v: i64)
    requires
        stream_contiguous(s, key),
        0 <= v,
    ensures
        suffix_above(s, v).len() == if (v as int) < s.len() {
            s.len() - v
        } else {
            0int
        },
        forall|j: int|
            0 <= j < suffix_above(s, v).len() ==> (#[trigger] suffix_above(s, v)[j]).version == v + 1
                + j,
{
}

/// The trait for event stores.
///
/// A store holds, per aggregate key, the stream of stored events, and `inv`
/// names its internal well-formedness; every well-formed store's streams are
/// contiguous. Backends may fail with `Error::Store`; every other outcome is
/// pinned by the contracts below.
pub trait EventStore<A: Aggregate>: Sized {
    /// The streams this store holds, keyed by aggregate key, as seen by
    /// specifications.
    spec fn streams(&self) -> Map<Seq<char>, Seq<StoredEvent<A::Event>>>;

    /// The store's internal well-formedness.
    spec fn inv(&self) -> bool;

    /// Whether this store never fails: no call of it returns `Error::Store`.
    /// An in-memory store is reliable; a persistent backend typically is not.
    spec fn reliable(&self) -> bool;

    /// Every well-formed store holds contiguous streams.
    proof fn inv_implies_contiguous(&self)
        requires
            self.inv(),
        ensures
            store_contiguous(self.streams()),
    ;

    /// Appends a list of events to the event store for a given aggregate.
    ///
    /// This operation is atomic. The store reads the current last-persisted
    /// version for the aggregate (zero when none exists), and on a mismatch
    /// with `expected_version` fails with `Error::Conflict` and writes nothing;
    /// on a match it persists all events with the sequential versions
    /// `expected_version + 1 ..= expected_version + events.len()`, or fails
    /// with `Error::Store` and writes nothing.
    fn append(&mut self, id: &A::Id, expected_version: i64, events: Vec<A::Event>) -> (r: Result<
        Vec<StoredEvent<A::Event>>,
        Error,
    >)
        requires
            old(self).inv(),
            expected_version == stream_of(old(self).streams(), id.key_spec()).len()
                ==> expected_version + events@.len() <= i64::MAX,
        ensures
            final(self).inv(),
            final(self).reliable() == old(self).reliable(),
            old(self).reliable() ==> !(r matches Err(Error::Store(_))),
            ({
                let key = id.key_spec();
                let prior = stream_of(old(self).streams(), key);
                match r {
                    Ok(stored) => {
                        &&& expected_version == prior.len()
                        &&& stored@.len() == events@.len()
                        &&& (forall|i: int|
                            0 <= i < stored@.len() ==> {
                                let se = #[trigger] stored@[i];
                                &&& se.aggregate_id@ == key
                                &&& se.version == expected_version + 1 + i
                                &&& se.event_version == events@[i].schema_spec()
                                &&& se.event_type@ == events@[i].type_spec()
                                &&& se.event == events@[i]
                            })
                        &&& final(self).streams() == old(self).streams().insert(
                            key,
                            prior + stored@,
                        )
                    },
                    Err(Error::Conflict) => {
                        &&& expected_version != prior.len()
                        &&& final(self).streams() == old(self).streams()
                    },
                    Err(Error::Store(_)) => final(self).streams() == old(self).streams(),
                    Err(_) => false,
                }
            }),
    ;

    /// Loads the full event stream for a given aggregate (empty if the
    /// aggregate is unknown).
    fn load(&self, id: &A::Id) -> (r: Result<Vec<StoredEvent<A::Event>>, Error>)
        requires
            self.inv(),
        ensures
            self.reliable() ==> r is Ok,
            match r {
                Ok(stored) => stored@ == stream_of(self.streams(), id.key_spec()),
                Err(Error::Store(_)) => true,
                Err(_) => false,
            },
    ;

    /// Loads the event stream for a given aggregate, restricted to the events
    /// with version above `version`, in ascending order. This is used to
    /// hydrate an aggregate after loading it from a snapshot.
    fn load_from(&self, id: &A::Id, version: i64) -> (r: Result<Vec<StoredEvent<A::Event>>, Error>)
        requires
            self.inv(),
        ensures
            self.reliable() ==> r is Ok,
            match r {
                Ok(stored) => stored@ == suffix_above(
                    stream_of(self.streams(), id.key_spec()),
                    version,
                ),
                Err(Error::Store(_)) => true,
                Err(_) => false,
            },
    ;

    /// Loads the raw event stream for a given aggregate, restricted to the
    /// events with version above `version`, in ascending order.
    ///
    /// This is used by the repository to perform upcasting before
    /// deserializing the events.
    fn load_raw(&self, id: &A::Id, version: i64) -> (r: Result<
        Vec<crate::upcaster::RawStoredEvent>,
        Error,
    >)
        requires
            self.inv(),
        ensures
            self.reliable() ==> r is Ok,
            match r {
                Ok(raws) => crate::upcaster::raw_seq_matches(
                    raws@,
                    suffix_above(stream_of(self.streams(), id.key_spec()), version),
                ),
                Err(Error::Store(_)) => true,
                Err(_) => false,
            },
    ;
}

/// Checks an optimistic append and builds the records to persist: the shared
/// computation of every event store backend. On a version mismatch it reports
/// the conflict; on a match it returns the stored records carrying the
/// sequential versions `expected_version + 1 ..= expected_version + events.len()`.
pub fn plan_append<E: Event>(
    aggregate_id: &str,
    current_version: i64,
    expected_version: i64,
    events: &Vec<E>,
) -> (r: Result<Vec<StoredEvent<E>>, Error>)
    requires
        0 <= current_version,
        current_version == expected_version ==> current_version + events@.len() <= i64::MAX,
    ensures
        match r {
            Ok(stored) => {
                &&& current_version == expected_version
                &&& stored@.len() == events@.len()
                &&& (forall|i: int|
                    0 <= i < stored@.len() ==> {
                        let se = #[trigger] stored@[i];
                        &&& se.aggregate_id@ == aggregate_id@
                        &&& se.version == expected_version + 1 + i
                        &&& se.event_version == events@[i].schema_spec()
                        &&& se.event_type@ == events@[i].type_spec()
                        &&& se.event == events@[i]
                    })
            },
            Err(Error::Conflict) => current_version != expected_version,
            Err(_) => false,
        },
{
    if current_version != expected_version {
        return Err(Error::Conflict);
    }
    let mut stored: Vec<StoredEvent<E>> = Vec::new();
    let mut version: i64 = current_version;
    let mut i: usize = 0;
    while i < events.len()
        invariant
            i <= events@.len(),
            0 <= expected_version,
            expected_version + events@.len() <= i64::MAX,
            version == expected_version + i,
            stored@.len() == i,
            forall|j: int|
                0 <= j < i ==> {
                    let se = #[trigger] stored@[j];
                    &&& se.aggregate_id@ == aggregate_id@
                    &&& se.version == expected_version + 1 + j
                    &&& se.event_version == events@[j].schema_spec()
                    &&& se.event_type@ == events@[j].type_spec()
                    &&& se.event == events@[j]
                },
        decreases events@.len() - i,
    {
        let event = &events[i];
        version = version + 1;
        let record = StoredEvent::new(
            aggregate_id.to_owned(),
            version,
            event.event_version(),
            event.event_type().to_owned(),
            event.clone_event(),
        );
        stored.push(record);
        i = i + 1;
    }
    Ok(stored)
}

} // verus!
