//! An in-memory snapshot store.
use vstd::prelude::*;

use vstd::hash_map::StringHashMap;

use crate::snapshot::{SnapshotStore, StoredSnapshot};
use crate::{Aggregate, AggregateId, Error, Snapshot};

verus! {

/// An in-memory snapshot store.
///
/// This is useful for testing or for applications that do not require a
/// persistent snapshot store.
pub struct InMemorySnapshotStore<A: Aggregate> {
    /// The held snapshots, one per aggregate key.
    pub snapshots: StringHashMap<StoredSnapshot<<A as Aggregate>::Snapshot>>,
}

impl<A: Aggregate> Default for InMemorySnapshotStore<A> {
    /// An empty snapshot store.
    fn default() -> (r: Self)
        ensures
            r.snaps() == Map::<Seq<char>, (i64, <A as Aggregate>::Snapshot)>::empty(),
            r.inv(),
    {
        let r = InMemorySnapshotStore { snapshots: StringHashMap::new() };
        proof {
            assert(r.snaps() =~= Map::<Seq<char>, (i64, <A as Aggregate>::Snapshot)>::empty());
        }
        r
    }
}

impl<A: Aggregate> SnapshotStore<A> for InMemorySnapshotStore<A> {
    open spec fn snaps(&self) -> Map<Seq<char>, (i64, <A as Aggregate>::Snapshot)> {
        self.snapshots@.map_values(
            |stored: StoredSnapshot<<A as Aggregate>::Snapshot>| (stored.version, stored.snapshot),
        )
    }

    open spec fn inv(&self) -> bool {
        forall|k: Seq<char>|
            self.snapshots@.contains_key(k) ==> {
                let stored = #[trigger] self.snapshots@[k];
                &&& 0 <= stored.version
                &&& stored.version == stored.snapshot.version_spec()
                &&& stored.aggregate_id@ == k
            }
    }

    open spec fn reliable(&self) -> bool {
        true
    }

    proof fn inv_implies_versions(&self) {
    }

    fn save(&mut self, aggregate_id: &A::Id, version: i64, snapshot: A::Snapshot) -> (r: Result<
        (),
        Error,
    >) {
        let key = aggregate_id.key();
        let stored = StoredSnapshot::new(key.clone(), version, snapshot);
        self.snapshots.insert(key, stored);
        proof {
            assert(self.snaps() =~= old(self).snaps().insert(
                aggregate_id.key_spec(),
                (version, snapshot),
            ));
        }
        Ok(())
    }

    fn load(&self, aggregate_id: &A::Id) -> (r: Result<
        Option<StoredSnapshot<A::Snapshot>>,
        Error,
    >) {
        let key = aggregate_id.key();
        match self.snapshots.get(key.as_str()) {
            Some(stored) => Ok(Some(stored.duplicate())),
            None => Ok(None),
        }
    }
}

} // verus!
