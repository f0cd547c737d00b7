//! An in-memory event store, useful for testing and development.
use vstd::prelude::*;

use vstd::hash_map::StringHashMap;

use crate::upcaster::{raw_matches, RawStoredEvent};
use crate::{
    plan_append, stream_contiguous, stream_of, store_contiguous, suffix_above, Aggregate,
    AggregateId, Error, Event, EventStore, StoredEvent,
};

verus! {

/// An in-memory event store.
///
/// This is useful for testing or for applications that do not require a
/// persistent event store.
pub struct InMemoryEventStore<A: Aggregate> {
    /// The streams held, keyed by aggregate key.
    pub events: StringHashMap<Vec<StoredEvent<<A as Aggregate>::Event>>>,
}

/// Returns a copy of a stream of stored events.
fn clone_stream<E: Event>(stream: &Vec<StoredEvent<E>>) -> (r: Vec<StoredEvent<E>>)
    ensures
        r@ == stream@,
{
    let mut out: Vec<StoredEvent<E>> = Vec::new();
    let mut i: usize = 0;
    while i < stream.len()
        invariant
            i <= stream@.len(),
            out@ =~= stream@.take(i as int),
        decreases stream@.len() - i,
    {
        out.push(stream[i].duplicate());
        i = i + 1;
    }
    proof {
        assert(out@ =~= stream@);
    }
    out
}

/// Returns a copy of the records of a stream with version above `version`.
fn suffix_records<E: Event>(stream: &Vec<StoredEvent<E>>, version: i64) -> (r: Vec<StoredEvent<E>>)
    requires
        stream@.len() <= i64::MAX,
    ensures
        r@ == suffix_above(stream@, version),
{
    if version <= 0 {
        clone_stream(stream)
    } else if version >= stream.len() as i64 {
        Vec::new()
    } else {
        let start = version as usize;
        let mut out: Vec<StoredEvent<E>> = Vec::new();
        let mut i: usize = start;
        while i < stream.len()
            invariant
                start <= i <= stream@.len(),
                start < stream@.len(),
                out@.len() == i - start,
                forall|j: int| 0 <= j < out@.len() ==> out@[j] == stream@[start + j],
            decreases stream@.len() - i,
        {
            out.push(stream[i].duplicate());
            i = i + 1;
        }
        proof {
            assert(out@ =~= stream@.skip(version as int));
        }
        out
    }
}

impl<A: Aggregate> Default for InMemoryEventStore<A> {
    /// An empty event store.
    fn default() -> (r: Self)
        ensures
            r.streams() == Map::<Seq<char>, Seq<StoredEvent<<A as Aggregate>::Event>>>::empty(),
            r.inv(),
    {
        let r = InMemoryEventStore { events: StringHashMap::new() };
        proof {
            assert(r.streams() =~= Map::<
                Seq<char>,
                Seq<StoredEvent<<A as Aggregate>::Event>>,
            >::empty());
        }
        r
    }
}

impl<A: Aggregate> EventStore<A> for InMemoryEventStore<A> {
    open spec fn streams(&self) -> Map<Seq<char>, Seq<StoredEvent<<A as Aggregate>::Event>>> {
        self.events@.map_values(|stream: Vec<StoredEvent<<A as Aggregate>::Event>>| stream@)
    }

    open spec fn inv(&self) -> bool {
        store_contiguous(self.streams())
    }

    open spec fn reliable(&self) -> bool {
        true
    }

    proof fn inv_implies_contiguous(&self) {
    }

    fn append(&mut self, id: &A::Id, expected_version: i64, events: Vec<A::Event>) -> (r: Result<
        Vec<StoredEvent<A::Event>>,
        Error,
    >) {
        let key = id.key();
        let ghost prior = stream_of(old(self).streams(), key@);
        let mut stream: Vec<StoredEvent<A::Event>> = match self.events.get(key.as_str()) {
            Some(existing) => clone_stream(existing),
            None => Vec::new(),
        };
        proof {
            assert(stream@ == prior);
            assert(stream_contiguous(prior, key@));
            if stream@.len() > 0 {
                assert(stream@[stream@.len() - 1].version == stream@.len());
            }
        }
        let current_version: i64 = if stream.len() == 0 {
            0
        } else {
            stream[stream.len() - 1].version
        };
        match plan_append(key.as_str(), current_version, expected_version, &events) {
            Err(e) => Err(e),
            Ok(new_records) => {
                let mut i: usize = 0;
                while i < new_records.len()
                    invariant
                        i <= new_records@.len(),
                        stream@ =~= prior + new_records@.take(i as int),
                    decreases new_records@.len() - i,
                {
                    stream.push(new_records[i].duplicate());
                    i = i + 1;
                }
                proof {
                    assert(stream@ =~= prior + new_records@);
                }
                self.events.insert(key, stream);
                proof {
                    assert(self.streams() =~= old(self).streams().insert(
                        key@,
                        prior + new_records@,
                    ));
                    assert forall|k: Seq<char>| self.streams().contains_key(k) implies
                        stream_contiguous(#[trigger] self.streams()[k], k) by {
                        if k != key@ {
                            assert(self.streams()[k] == old(self).streams()[k]);
                        }
                    }
                }
                Ok(new_records)
            },
        }
    }

    fn load(&self, id: &A::Id) -> (r: Result<Vec<StoredEvent<A::Event>>, Error>) {
        let key = id.key();
        match self.events.get(key.as_str()) {
            Some(existing) => Ok(clone_stream(existing)),
            None => Ok(Vec::new()),
        }
    }

    fn load_from(&self, id: &A::Id, version: i64) -> (r: Result<
        Vec<StoredEvent<A::Event>>,
        Error,
    >) {
        let key = id.key();
        match self.events.get(key.as_str()) {
            Some(existing) => {
                proof {
                    assert(self.events@.contains_key(key@));
                    assert(self.streams()[key@] == existing@);
                    assert(stream_contiguous(existing@, key@));
                    if existing@.len() > 0 {
                        assert(existing@[existing@.len() - 1].version == existing@.len());
                    }
                }
                Ok(suffix_records(existing, version))
            },
            None => Ok(Vec::new()),
        }
    }

    fn load_raw(&self, id: &A::Id, version: i64) -> (r: Result<Vec<RawStoredEvent>, Error>) {
        let key = id.key();
        match self.events.get(key.as_str()) {
            Some(existing) => {
                proof {
                    assert(self.events@.contains_key(key@));
                    assert(self.streams()[key@] == existing@);
                    assert(stream_contiguous(existing@, key@));
                    if existing@.len() > 0 {
                        assert(existing@[existing@.len() - 1].version == existing@.len());
                    }
                }
                let suffix = suffix_records(existing, version);
                let mut raws: Vec<RawStoredEvent> = Vec::new();
                let mut i: usize = 0;
                while i < suffix.len()
                    invariant
                        i <= suffix@.len(),
                        raws@.len() == i,
                        forall|j: int| 0 <= j < i ==> raw_matches(#[trigger] raws@[j], suffix@[j]),
                    decreases suffix@.len() - i,
                {
                    raws.push(RawStoredEvent::from_stored(&suffix[i]));
                    i = i + 1;
                }
                Ok(raws)
            },
            None => Ok(Vec::new()),
        }
    }
}

} // verus!
