//! Defines the upcasting mechanism for handling event schema versioning.
//!
//! An upcaster migrates the payload of a stored event from one schema version
//! to the next. A chain of upcasters is applied repeatedly at load time until
//! no registered upcaster matches the event's type and current version, so old
//! persisted schema versions are transparently brought forward, one step at a
//! time, without rewriting history.
use vstd::prelude::*;

use crate::{Error, Event, StoredEvent};

verus! {

/// A raw, stored event, used for upcasting before deserialization.
#[derive(Debug)]
pub struct RawStoredEvent {
    /// The ID of the aggregate this event belongs to.
    pub aggregate_id: String,
    /// The version of the aggregate after this event was applied.
    pub version: i64,
    /// The version of the event's schema.
    pub event_version: u16,
    /// The type of the event.
    pub event_type: String,
    /// The event payload itself, as serialized text the core never interprets.
    pub payload: String,
}

/// Whether a raw record carries the same data as a stored event, with the
/// payload in its serialized form.
pub open spec fn raw_matches<E: Event>(r: RawStoredEvent, e: StoredEvent<E>) -> bool {
    &&& r.aggregate_id@ == e.aggregate_id@
    &&& r.version == e.version
    &&& r.event_version == e.event_version
    &&& r.event_type@ == e.event_type@
    &&& r.payload@ == e.event.payload_spec()
}

/// Whether a sequence of raw records carries, element for element, the same
/// data as a sequence of stored events.
pub open spec fn raw_seq_matches<E: Event>(
    rs: Seq<RawStoredEvent>,
    es: Seq<StoredEvent<E>>,
) -> bool {
    &&& rs.len() == es.len()
    &&& forall|i: int| 0 <= i < rs.len() ==> raw_matches(#[trigger] rs[i], es[i])
}

impl RawStoredEvent {
    /// Returns a copy of this raw record.
    pub fn duplicate(&self) -> (r: Self)
        ensures
            r == *self,
    {
        Self {
            aggregate_id: self.aggregate_id.clone(),
            version: self.version,
            event_version: self.event_version,
            event_type: self.event_type.clone(),
            payload: self.payload.clone(),
        }
    }

    /// Builds the raw form of a stored event, serializing its payload.
    pub fn from_stored<E: Event>(e: &StoredEvent<E>) -> (r: Self)
        ensures
            raw_matches(r, *e),
    {
        Self {
            aggregate_id: e.aggregate_id.clone(),
            version: e.version,
            event_version: e.event_version,
            event_type: e.event_type.clone(),
            payload: e.event.to_payload(),
        }
    }
}

/// How an upcaster's transformation fails, as seen by specifications: the
/// error variant it reports, with the message text.
pub enum UpcastFailure {
    /// A failure reported as [`Error::Store`].
    Store(Seq<char>),
    /// A failure reported as [`Error::Validation`].
    Validation(Seq<char>),
}

/// Whether an error value is the one a spec-level failure describes.
pub open spec fn error_reflects(e: Error, failure: UpcastFailure) -> bool {
    match (e, failure) {
        (Error::Store(m), UpcastFailure::Store(t)) => m@ == t,
        (Error::Validation(m), UpcastFailure::Validation(t)) => m@ == t,
        _ => false,
    }
}

/// Defines the interface for an upcaster.
///
/// An upcaster is responsible for transforming an event payload from an older
/// schema version to a newer one. This is a key part of handling schema
/// evolution. An upcaster is a pure transformation — `upcast_spec` names its
/// outcome — and always moves forward: its target version is strictly above
/// its source version.
pub trait Upcaster: Sized {
    /// The type of event this upcaster handles, as seen by specifications.
    spec fn type_spec(&self) -> Seq<char>;

    /// The schema version this upcaster transforms from, as seen by
    /// specifications.
    spec fn source_spec(&self) -> u16;

    /// The schema version this upcaster transforms to, as seen by
    /// specifications; unless redefined, one above the source.
    open spec fn target_spec(&self) -> u16 {
        if self.source_spec() == u16::MAX {
            0
        } else {
            (self.source_spec() + 1) as u16
        }
    }

    /// The transformation [`Upcaster::upcast`] performs, as seen by
    /// specifications: the payload it writes, or how it fails.
    spec fn upcast_spec(&self, payload: Seq<char>) -> Result<Seq<char>, UpcastFailure>;

    /// The type of event this upcaster can handle.
    fn event_type(&self) -> (r: &'static str)
        ensures
            r@ == self.type_spec(),
    ;

    /// The version of the event this upcaster can transform from.
    fn source_version(&self) -> (r: u16)
        ensures
            r == self.source_spec(),
    ;

    /// The version of the event this upcaster transforms to.
    fn target_version(&self) -> (r: u16)
        ensures
            r == self.target_spec(),
    ;

    /// Transforms a payload of an event into its next version. The result is
    /// the named transformation's; a failure may only be a diagnostic error,
    /// never a concurrency or absence signal.
    fn upcast(&self, payload: String) -> (r: Result<String, Error>)
        ensures
            match r {
                Ok(next) => self.upcast_spec(payload@) == Ok::<Seq<char>, UpcastFailure>(next@),
                Err(e) => self.upcast_spec(payload@) matches Err(failure) && error_reflects(
                    e,
                    failure,
                ),
            },
    ;
}

/// Whether some registered upcaster handles the given event type at the given
/// schema version.
pub open spec fn chain_matches<U: Upcaster>(
    upcasters: Seq<U>,
    event_type: Seq<char>,
    version: u16,
) -> bool {
    exists|i: int|
        0 <= i < upcasters.len() && (#[trigger] upcasters[i]).type_spec() == event_type
            && upcasters[i].source_spec() == version
}

/// Every upcaster of the sequence moves strictly forward, so repeated
/// application reaches a fixpoint.
pub open spec fn upcasters_forward<U: Upcaster>(upcasters: Seq<U>) -> bool {
    forall|i: int|
        0 <= i < upcasters.len() ==> (#[trigger] upcasters[i]).target_spec()
            > upcasters[i].source_spec()
}

/// The registration-order position of the first upcaster handling the given
/// event type at the given schema version, or a negative value when none does.
pub open spec fn first_match<U: Upcaster>(
    upcasters: Seq<U>,
    event_type: Seq<char>,
    version: u16,
) -> int
    decreases upcasters.len(),
{
    if upcasters.len() == 0 {
        -1
    } else {
        let in_prefix = first_match(upcasters.drop_last(), event_type, version);
        if in_prefix >= 0 {
            in_prefix
        } else if upcasters.last().type_spec() == event_type && upcasters.last().source_spec()
            == version {
            upcasters.len() - 1
        } else {
            -1
        }
    }
}

/// What `first_match` finds: a negative value exactly when no registration
/// matches, else the position of a matching registration with none before it.
pub proof fn lemma_first_match<U: Upcaster>(
    upcasters: Seq<U>,
    event_type: Seq<char>,
    version: u16,
)
    ensures
        ({
            let found = first_match(upcasters, event_type, version);
            &&& (found < 0 <==> !chain_matches(upcasters, event_type, version))
            &&& found >= 0 ==> {
                &&& found < upcasters.len()
                &&& upcasters[found].type_spec() == event_type
                &&& upcasters[found].source_spec() == version
                &&& (forall|j: int|
                    0 <= j < found ==> !((#[trigger] upcasters[j]).type_spec() == event_type
                        && upcasters[j].source_spec() == version))
            }
        }),
    decreases upcasters.len(),
{
    let found = first_match(upcasters, event_type, version);
    if upcasters.len() == 0 {
        assert(!chain_matches(upcasters, event_type, version));
    } else {
        let prefix = upcasters.drop_last();
        lemma_first_match(prefix, event_type, version);
        let in_prefix = first_match(prefix, event_type, version);
        assert(forall|j: int| 0 <= j < prefix.len() ==> prefix[j] == #[trigger] upcasters[j]);
        if in_prefix >= 0 {
            assert(found == in_prefix);
            assert(upcasters[found] == prefix[found]);
            assert(chain_matches(upcasters, event_type, version));
        } else {
            assert(!chain_matches(prefix, event_type, version));
            assert(forall|j: int|
                0 <= j < prefix.len() ==> !((#[trigger] prefix[j]).type_spec() == event_type
                    && prefix[j].source_spec() == version));
            if upcasters.last().type_spec() == event_type && upcasters.last().source_spec()
                == version {
                assert(found == upcasters.len() - 1);
                assert(upcasters[found] == upcasters.last());
                assert(chain_matches(upcasters, event_type, version));
            } else {
                assert(found < 0);
                assert forall|i: int| 0 <= i < upcasters.len() implies !((
                #[trigger] upcasters[i]).type_spec() == event_type && upcasters[i].source_spec()
                    == version) by {
                    if i < upcasters.len() - 1 {
                        assert(upcasters[i] == prefix[i]);
                    } else {
                        assert(upcasters[i] == upcasters.last());
                    }
                }
                assert(!chain_matches(upcasters, event_type, version));
            }
        }
    }
}

/// The result of applying the chain to an event of the given type, schema
/// version and payload until no registration matches: the final schema version
/// and payload, or the failure of the hop that failed. Each hop applies the
/// first matching registration, in registration order.
pub open spec fn chain_outcome<U: Upcaster>(
    upcasters: Seq<U>,
    event_type: Seq<char>,
    version: u16,
    payload: Seq<char>,
) -> Result<(u16, Seq<char>), UpcastFailure>
    decreases u16::MAX - version,
        when upcasters_forward(upcasters)
        via chain_outcome_decreases::<U>
{
    let found = first_match(upcasters, event_type, version);
    if found < 0 {
        Ok((version, payload))
    } else {
        match upcasters[found].upcast_spec(payload) {
            Ok(next) => chain_outcome(upcasters, event_type, upcasters[found].target_spec(), next),
            Err(failure) => Err(failure),
        }
    }
}

#[via_fn]
proof fn chain_outcome_decreases<U: Upcaster>(
    upcasters: Seq<U>,
    event_type: Seq<char>,
    version: u16,
    payload: Seq<char>,
) {
    lemma_first_match(upcasters, event_type, version);
}

/// A chain of upcasters that is applied repeatedly to an event until no
/// registered upcaster matches its type and current schema version.
pub struct UpcasterChain<U: Upcaster> {
    /// The registered upcasters, in registration order.
    pub upcasters: Vec<U>,
}

impl<U: Upcaster> UpcasterChain<U> {
    /// Every registered upcaster moves strictly forward, so repeated
    /// application reaches a fixpoint.
    pub open spec fn wf(&self) -> bool {
        upcasters_forward(self.upcasters@)
    }

    /// Creates a new, empty upcaster chain.
    pub fn new() -> (r: Self)
        ensures
            r.upcasters@ =~= Seq::<U>::empty(),
            r.wf(),
    {
        Self { upcasters: Vec::new() }
    }

    /// Adds an upcaster to the chain. The upcaster must move strictly forward.
    pub fn with(self, upcaster: U) -> (r: Self)
        requires
            self.wf(),
            upcaster.target_spec() > upcaster.source_spec(),
        ensures
            r.upcasters@ == self.upcasters@.push(upcaster),
            r.wf(),
    {
        let mut upcasters = self.upcasters;
        upcasters.push(upcaster);
        Self { upcasters }
    }

    /// Finds the first registered upcaster, in registration order, for the
    /// given event type and schema version, or reports that none matches.
    fn find_match(&self, event_type: &String, version: u16) -> (r: Option<usize>)
        ensures
            match r {
                Some(i) => {
                    &&& i < self.upcasters@.len()
                    &&& self.upcasters@[i as int].type_spec() == event_type@
                    &&& self.upcasters@[i as int].source_spec() == version
                    &&& i as int == first_match(self.upcasters@, event_type@, version)
                },
                None => {
                    &&& !chain_matches(self.upcasters@, event_type@, version)
                    &&& first_match(self.upcasters@, event_type@, version) < 0
                },
            },
    {
        let mut i: usize = 0;
        while i < self.upcasters.len()
            invariant
                i <= self.upcasters@.len(),
                forall|j: int|
                    0 <= j < i ==> !((#[trigger] self.upcasters@[j]).type_spec() == event_type@
                        && self.upcasters@[j].source_spec() == version),
            decreases self.upcasters@.len() - i,
        {
            let u = &self.upcasters[i];
            if u.event_type().to_owned() == *event_type && u.source_version() == version {
                proof {
                    lemma_first_match(self.upcasters@, event_type@, version);
                    let found = first_match(self.upcasters@, event_type@, version);
                    assert(chain_matches(self.upcasters@, event_type@, version));
                    if found < i {
                        assert(!(self.upcasters@[found].type_spec() == event_type@
                            && self.upcasters@[found].source_spec() == version));
                        assert(false);
                    }
                    if found > i {
                        assert(!(self.upcasters@[i as int].type_spec() == event_type@
                            && self.upcasters@[i as int].source_spec() == version));
                        assert(false);
                    }
                }
                return Some(i);
            }
            i = i + 1;
        }
        proof {
            lemma_first_match(self.upcasters@, event_type@, version);
        }
        None
    }

    /// Applies the upcasting chain to a raw stored event: as long as a
    /// registered upcaster matches the event's type and current schema version,
    /// the first matching registration's transformation is applied and the
    /// recorded version advances to its target. The result is exactly
    /// `chain_outcome` of the event's type, schema version and payload: at a
    /// fixpoint on success, or the failing hop's own error. An event whose type
    /// and version are never registered comes back unchanged.
    pub fn upcast(&self, event: RawStoredEvent) -> (r: Result<RawStoredEvent, Error>)
        requires
            self.wf(),
        ensures
            ({
                let outcome = chain_outcome(
                    self.upcasters@,
                    event.event_type@,
                    event.event_version,
                    event.payload@,
                );
                match r {
                    Ok(out) => {
                        &&& out.aggregate_id == event.aggregate_id
                        &&& out.version == event.version
                        &&& out.event_type == event.event_type
                        &&& outcome == Ok::<(u16, Seq<char>), UpcastFailure>(
                            (out.event_version, out.payload@),
                        )
                        &&& !chain_matches(self.upcasters@, out.event_type@, out.event_version)
                    },
                    Err(e) => {
                        &&& chain_matches(self.upcasters@, event.event_type@, event.event_version)
                        &&& (outcome matches Err(failure) && error_reflects(e, failure))
                    },
                }
            }),
            !chain_matches(self.upcasters@, event.event_type@, event.event_version) ==> r
                == Ok::<RawStoredEvent, Error>(event),
    {
        let RawStoredEvent { aggregate_id, version, event_version, event_type, payload } = event;
        let mut current_version = event_version;
        let mut current_payload = payload;
        loop
            invariant
                self.wf(),
                !chain_matches(self.upcasters@, event_type@, event.event_version) ==> (
                current_version == event.event_version && current_payload == event.payload),
                event_type == event.event_type,
                chain_outcome(
                    self.upcasters@,
                    event_type@,
                    event.event_version,
                    event.payload@,
                ) == chain_outcome(self.upcasters@, event_type@, current_version, current_payload@),
            ensures
                !chain_matches(self.upcasters@, event_type@, current_version),
                !chain_matches(self.upcasters@, event_type@, event.event_version) ==> (
                current_version == event.event_version && current_payload == event.payload),
                chain_outcome(
                    self.upcasters@,
                    event_type@,
                    event.event_version,
                    event.payload@,
                ) == chain_outcome(self.upcasters@, event_type@, current_version, current_payload@),
            decreases u16::MAX - current_version,
        {
            match self.find_match(&event_type, current_version) {
                Some(i) => {
                    proof {
                        if current_version == event.event_version {
                            assert(0 <= i < self.upcasters@.len()
                                && (#[trigger] self.upcasters@[i as int]).type_spec()
                                == event.event_type@ && self.upcasters@[i as int].source_spec()
                                == event.event_version);
                        }
                        assert(chain_matches(
                            self.upcasters@,
                            event.event_type@,
                            event.event_version,
                        ));
                    }
                    let ghost previous_payload = current_payload;
                    let upcaster = &self.upcasters[i];
                    current_payload = match upcaster.upcast(current_payload) {
                        Ok(next) => next,
                        Err(e) => {
                            proof {
                                assert(chain_outcome(
                                    self.upcasters@,
                                    event_type@,
                                    current_version,
                                    previous_payload@,
                                ) matches Err(failure) && error_reflects(e, failure));
                            }
                            return Err(e);
                        },
                    };
                    current_version = upcaster.target_version();
                },
                None => {
                    break ;
                },
            }
        }
        proof {
            lemma_first_match(self.upcasters@, event_type@, current_version);
            assert(chain_outcome(self.upcasters@, event_type@, current_version, current_payload@)
                == Ok::<(u16, Seq<char>), UpcastFailure>((current_version, current_payload@)));
        }
        Ok(
            RawStoredEvent {
                aggregate_id,
                version,
                event_version: current_version,
                event_type,
                payload: current_payload,
            },
        )
    }
}

impl<U: Upcaster> Default for UpcasterChain<U> {
    /// An empty upcaster chain.
    fn default() -> (r: Self)
        ensures
            r.upcasters@ =~= Seq::<U>::empty(),
            r.wf(),
    {
        Self { upcasters: Vec::new() }
    }
}

} // verus!
