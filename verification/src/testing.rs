//! A minimal domain model exercising the framework: an aggregate, its events,
//! its snapshot, and a pair of upcasters. The integration tests are written
//! against these types; they also show what an implementation of each
//! capability trait owes.
use vstd::prelude::*;

use crate::upcaster::{UpcastFailure, Upcaster};
use crate::{Aggregate, AggregateId, Error, Event, Snapshot};

verus! {

use vstd::string::StringExecFns;

/// Relies on `uuid::Uuid::new_v4` and the hyphenated text form of its
/// `Display` impl: a fresh random identifier, 36 characters long. The call
/// aborts if the operating system's randomness source fails; the crate offers
/// no fallible constructor.
#[verifier::external_body]
fn fresh_id_text() -> (r: String)
    ensures
        r@.len() == 36,
{
    uuid::Uuid::new_v4().to_string()
}

/// An aggregate identifier backed by a random UUID, carried as text.
#[derive(Debug, Clone)]
pub struct TestId {
    /// The hyphenated text of the identifier.
    pub text: String,
}

impl AggregateId for TestId {
    open spec fn key_spec(&self) -> Seq<char> {
        self.text@
    }

    fn new() -> Self {
        TestId { text: fresh_id_text() }
    }

    fn key(&self) -> (r: String) {
        self.text.clone()
    }
}

/// The events of [`TestAggregate`].
#[derive(Debug, Clone, Copy)]
pub enum TestEvent {
    /// The aggregate came into being.
    Created,
    /// The aggregate was touched.
    Updated,
}

impl Event for TestEvent {
    open spec fn type_spec(&self) -> Seq<char> {
        match self {
            TestEvent::Created => "Created"@,
            TestEvent::Updated => "Updated"@,
        }
    }

    open spec fn schema_spec(&self) -> u16 {
        1
    }

    open spec fn source_spec(&self) -> Seq<char> {
        "urn:sourcerer:test"@
    }

    open spec fn payload_spec(&self) -> Seq<char> {
        self.type_spec()
    }

    open spec fn decode_spec(payload: Seq<char>) -> Option<Self> {
        if payload == "Created"@ {
            Some(TestEvent::Created)
        } else if payload == "Updated"@ {
            Some(TestEvent::Updated)
        } else {
            None
        }
    }

    proof fn decode_inverts_encode(&self) {
        reveal_strlit("Created");
        reveal_strlit("Updated");
        assert("Created"@[0] != "Updated"@[0]);
    }

    fn event_type(&self) -> (r: &'static str) {
        match self {
            TestEvent::Created => "Created",
            TestEvent::Updated => "Updated",
        }
    }

    fn event_version(&self) -> (r: u16) {
        1
    }

    fn event_source(&self) -> (r: &'static str) {
        "urn:sourcerer:test"
    }

    fn clone_event(&self) -> (r: Self) {
        *self
    }

    fn to_payload(&self) -> (r: String) {
        match self {
            TestEvent::Created => "Created".to_owned(),
            TestEvent::Updated => "Updated".to_owned(),
        }
    }

    fn from_payload(payload: &str) -> Result<Self, String> {
        let text = payload.to_owned();
        if text == "Created".to_owned() {
            Ok(TestEvent::Created)
        } else if text == "Updated".to_owned() {
            Ok(TestEvent::Updated)
        } else {
            Err("unknown test event payload".to_owned())
        }
    }
}

/// Snapshot payload for [`TestAggregate`]: the version is its whole state.
#[derive(Debug, Clone, Copy)]
pub struct TestSnap {
    /// The aggregate version this snapshot captured.
    pub version: i64,
}

impl Snapshot for TestSnap {
    open spec fn version_spec(&self) -> i64 {
        self.version
    }

    fn clone_snapshot(&self) -> (r: Self) {
        *self
    }
}

/// A minimal aggregate whose state is its identity and its version.
#[derive(Debug)]
pub struct TestAggregate {
    /// The aggregate's identifier.
    pub id: TestId,
    /// The number of events applied since creation.
    pub version: i64,
}

impl Aggregate for TestAggregate {
    type Id = TestId;

    type Event = TestEvent;

    type Command = ();

    type Snapshot = TestSnap;

    type Error = Error;

    open spec fn id_spec(&self) -> Seq<char> {
        self.id.key_spec()
    }

    open spec fn version_spec(&self) -> i64 {
        self.version
    }

    open spec fn apply_spec(self, event: TestEvent) -> Self {
        TestAggregate { id: self.id, version: (self.version + 1) as i64 }
    }

    open spec fn snapshot_spec(&self) -> TestSnap {
        TestSnap { version: self.version }
    }

    fn initial() -> (r: Self) {
        TestAggregate { id: TestId { text: String::new() }, version: 0 }
    }

    fn id(&self) -> (r: &TestId) {
        &self.id
    }

    fn version(&self) -> (r: i64) {
        self.version
    }

    fn apply(&mut self, event: &TestEvent) {
        match event {
            TestEvent::Created => {},
            TestEvent::Updated => {},
        }
        self.version = self.version + 1;
        proof {
            assert(self.id == old(self).id);
            assert(self.version == old(self).version + 1);
            assert(*self == old(self).apply_spec(*event));
            assert(self.id_spec() == old(self).id_spec());
        }
    }

    fn handle(&self, _command: ()) -> Result<Vec<TestEvent>, Error> {
        Ok(Vec::new())
    }

    fn from_snapshot(snapshot: TestSnap) -> (r: Self) {
        let r = TestAggregate { id: TestId::new(), version: snapshot.version };
        proof {
            assert(r.snapshot_spec() == snapshot);
        }
        r
    }

    fn snapshot(&self) -> (r: TestSnap) {
        TestSnap { version: self.version }
    }
}

/// An event type whose schema version and source are configured per variant.
#[derive(Debug, Clone, Copy)]
pub enum CustomEvent {
    /// A variant that carries the type's own version and source.
    Something,
    /// A variant that overrides both.
    Else,
}

impl Event for CustomEvent {
    open spec fn type_spec(&self) -> Seq<char> {
        match self {
            CustomEvent::Something => "Something"@,
            CustomEvent::Else => "Else"@,
        }
    }

    open spec fn schema_spec(&self) -> u16 {
        match self {
            CustomEvent::Something => 7,
            CustomEvent::Else => 9,
        }
    }

    open spec fn source_spec(&self) -> Seq<char> {
        match self {
            CustomEvent::Something => "urn:custom"@,
            CustomEvent::Else => "urn:variant"@,
        }
    }

    open spec fn payload_spec(&self) -> Seq<char> {
        self.type_spec()
    }

    open spec fn decode_spec(payload: Seq<char>) -> Option<Self> {
        if payload == "Something"@ {
            Some(CustomEvent::Something)
        } else if payload == "Else"@ {
            Some(CustomEvent::Else)
        } else {
            None
        }
    }

    proof fn decode_inverts_encode(&self) {
        reveal_strlit("Something");
        reveal_strlit("Else");
        assert("Something"@.len() != "Else"@.len());
    }

    fn event_type(&self) -> (r: &'static str) {
        match self {
            CustomEvent::Something => "Something",
            CustomEvent::Else => "Else",
        }
    }

    fn event_version(&self) -> (r: u16) {
        match self {
            CustomEvent::Something => 7,
            CustomEvent::Else => 9,
        }
    }

    fn event_source(&self) -> (r: &'static str) {
        match self {
            CustomEvent::Something => "urn:custom",
            CustomEvent::Else => "urn:variant",
        }
    }

    fn clone_event(&self) -> (r: Self) {
        *self
    }

    fn to_payload(&self) -> (r: String) {
        match self {
            CustomEvent::Something => "Something".to_owned(),
            CustomEvent::Else => "Else".to_owned(),
        }
    }

    fn from_payload(payload: &str) -> Result<Self, String> {
        let text = payload.to_owned();
        if text == "Something".to_owned() {
            Ok(CustomEvent::Something)
        } else if text == "Else".to_owned() {
            Ok(CustomEvent::Else)
        } else {
            Err("unknown custom event payload".to_owned())
        }
    }
}

/// An upcaster for `Created` events that appends its own marker text to the
/// payload and advances the schema one version forward.
#[derive(Debug, Clone)]
pub struct StampUpcaster {
    /// The schema version this upcaster migrates from.
    pub source: u16,
    /// The marker the transformation appends.
    pub stamp: String,
}

impl Upcaster for StampUpcaster {
    open spec fn type_spec(&self) -> Seq<char> {
        "Created"@
    }

    open spec fn source_spec(&self) -> u16 {
        self.source
    }

    open spec fn upcast_spec(&self, payload: Seq<char>) -> Result<Seq<char>, UpcastFailure> {
        Ok(payload + self.stamp@)
    }

    fn event_type(&self) -> (r: &'static str) {
        "Created"
    }

    fn source_version(&self) -> (r: u16) {
        self.source
    }

    fn target_version(&self) -> (r: u16) {
        if self.source == u16::MAX {
            0
        } else {
            self.source + 1
        }
    }

    fn upcast(&self, payload: String) -> (r: Result<String, Error>) {
        Ok(payload.concat(self.stamp.as_str()))
    }
}

/// An upcaster for `Created` events whose transformation always fails with a
/// validation error.
#[derive(Debug, Clone, Copy)]
pub struct FailingUpcaster {
    /// The schema version this upcaster migrates from.
    pub source: u16,
}

impl Upcaster for FailingUpcaster {
    open spec fn type_spec(&self) -> Seq<char> {
        "Created"@
    }

    open spec fn source_spec(&self) -> u16 {
        self.source
    }

    open spec fn upcast_spec(&self, payload: Seq<char>) -> Result<Seq<char>, UpcastFailure> {
        Err(UpcastFailure::Validation("the payload cannot be migrated"@))
    }

    fn event_type(&self) -> (r: &'static str) {
        "Created"
    }

    fn source_version(&self) -> (r: u16) {
        self.source
    }

    fn target_version(&self) -> (r: u16) {
        if self.source == u16::MAX {
            0
        } else {
            self.source + 1
        }
    }

    fn upcast(&self, _payload: String) -> (r: Result<String, Error>) {
        Err(Error::Validation("the payload cannot be migrated".to_owned()))
    }
}

} // verus!
