//! The snapshot module contains the traits and structs for creating and storing
//! aggregate snapshots.
use vstd::prelude::*;

use crate::{Aggregate, AggregateId, Error, Snapshot};

verus! {

/// Represents a stored snapshot, including metadata.
#[derive(Debug)]
pub struct StoredSnapshot<S: Snapshot> {
    /// The ID of the aggregate this snapshot belongs to.
    pub aggregate_id: String,
    /// The version of the aggregate when this snapshot was taken.
    pub version: i64,
    /// The snapshot payload itself.
    pub snapshot: S,
}

impl<S: Snapshot> StoredSnapshot<S> {
    /// Creates a new stored snapshot.
    pub fn new(aggregate_id: String, version: i64, snapshot: S) -> (r: Self)
        ensures
            r == (StoredSnapshot { aggregate_id, version, snapshot }),
    {
        Self { aggregate_id, version, snapshot }
    }

    /// Returns the aggregate ID.
    pub fn aggregate_id(&self) -> (r: &str)
        ensures
            r@ == self.aggregate_id@,
    {
        self.aggregate_id.as_str()
    }

    /// Returns the version of the aggregate when this snapshot was taken.
    pub fn version(&self) -> (r: i64)
        ensures
            r == self.version,
    {
        self.version
    }

    /// Consumes the stored snapshot and returns the inner snapshot.
    pub fn into_snapshot(self) -> (r: S)
        ensures
            r == self.snapshot,
    {
        self.snapshot
    }

    /// Returns a copy of this stored snapshot.
    pub fn duplicate(&self) -> (r: Self)
        ensures
            r == *self,
    {
        Self {
            aggregate_id: self.aggregate_id.clone(),
            version: self.version,
            snapshot: self.snapshot.clone_snapshot(),
        }
    }
}

/// A snapshot store is responsible for persisting and loading snapshots.
///
/// Snapshots are an optimization to reduce the time it takes to hydrate an
/// aggregate. Instead of replaying all events from the beginning of time, an
/// aggregate can be restored from a recent snapshot and then only replay the
/// events that occurred after it. At most one snapshot is retained per
/// aggregate: a save overwrites the prior one. Losing a snapshot only costs
/// replay time, never correctness.
pub trait SnapshotStore<A: Aggregate>: Sized {
    /// The snapshots this store holds, one per aggregate key, each a pair of
    /// the recorded version and the snapshot payload, as seen by
    /// specifications.
    spec fn snaps(&self) -> Map<Seq<char>, (i64, <A as Aggregate>::Snapshot)>;

    /// The store's internal well-formedness.
    spec fn inv(&self) -> bool;

    /// Whether this store never fails: no call of it returns `Error::Store`.
    /// An in-memory store is reliable; a persistent backend typically is not.
    spec fn reliable(&self) -> bool;

    /// In a well-formed store, every held snapshot records a non-negative
    /// version, and the version it records is the version its payload
    /// captured.
    proof fn inv_implies_versions(&self)
        requires
            self.inv(),
        ensures
            forall|k: Seq<char>|
                self.snaps().contains_key(k) ==> {
                    let entry = #[trigger] self.snaps()[k];
                    0 <= entry.0 && entry.0 == entry.1.version_spec()
                },
    ;

    /// Saves a snapshot for a given aggregate, unconditionally overwriting any
    /// existing snapshot for the same aggregate; or fails with `Error::Store`
    /// and changes nothing.
    fn save(&mut self, aggregate_id: &A::Id, version: i64, snapshot: A::Snapshot) -> (r: Result<
        (),
        Error,
    >)
        requires
            old(self).inv(),
            0 <= version,
            snapshot.version_spec() == version,
        ensures
            final(self).inv(),
            final(self).reliable() == old(self).reliable(),
            old(self).reliable() ==> r is Ok,
            match r {
                Ok(_) => final(self).snaps() == old(self).snaps().insert(
                    aggregate_id.key_spec(),
                    (version, snapshot),
                ),
                Err(Error::Store(_)) => final(self).snaps() == old(self).snaps(),
                Err(_) => false,
            },
    ;

    /// Loads the most recently saved snapshot for a given aggregate, or
    /// reports that the aggregate has never been snapshotted.
    fn load(&self, aggregate_id: &A::Id) -> (r: Result<Option<StoredSnapshot<A::Snapshot>>, Error>)
        requires
            self.inv(),
        ensures
            self.reliable() ==> r is Ok,
            ({
                let key = aggregate_id.key_spec();
                match r {
                    Ok(Some(stored)) => {
                        &&& self.snaps().contains_key(key)
                        &&& stored.aggregate_id@ == key
                        &&& stored.version == self.snaps()[key].0
                        &&& stored.snapshot == self.snaps()[key].1
                    },
                    Ok(None) => !self.snaps().contains_key(key),
                    Err(Error::Store(_)) => true,
                    Err(_) => false,
                }
            }),
    ;
}

} // verus!
