//! The messages that the engine exchanges with its clients and with the
//! SEMA storage plane, as plain values.

use vstd::prelude::*;

verus! {

/// The content hash of a stored document.
#[derive(Debug, Clone, Copy)]
pub struct ContentHash(pub [u8; 32]);

/// A storage scope.
#[derive(Debug, Clone, Copy)]
pub struct FixtureScope(pub u64);

/// The slot under which a document is stored.
#[derive(Debug, Clone)]
pub struct SlotKey {
    pub scope: FixtureScope,
    pub name: String,
}

/// What storage reports of a stored document: its slot, version and hash.
#[derive(Debug, Clone)]
pub struct SlotSummary {
    pub key: SlotKey,
    pub version: u64,
    pub hash: ContentHash,
}

impl SlotKey {
    /// An equal copy of the key.
    pub fn duplicate(&self) -> (copy: Self)
        ensures
            copy == *self,
    {
        SlotKey { scope: self.scope, name: self.name.clone() }
    }
}

impl SlotSummary {
    /// An equal copy of the summary.
    pub fn duplicate(&self) -> (copy: Self)
        ensures
            copy == *self,
    {
        SlotSummary { key: self.key.duplicate(), version: self.version, hash: self.hash }
    }
}

/// A request that a client sends to the engine.
#[derive(Debug, Clone, Copy)]
pub enum Request {
    /// Project the stored Logos document with this hash to Rust.
    ProjectRust { scope: FixtureScope, logos: ContentHash },
    /// List the Logos documents of a scope.
    List { scope: FixtureScope },
    /// List the Logos documents of a scope, then stream each projection.
    Subscribe { scope: FixtureScope },
}

/// Why the engine refused a request.
#[derive(Debug, Clone, Copy, PartialEq, Eq, Structural)]
pub enum Rejection {
    /// Storage holds no document with the requested hash.
    LogosNotFound,
    /// The document with the requested hash is not a Logos document.
    WrongDocumentKind,
    /// Storage did not answer a listing with a list.
    StorageFailed,
}

/// The identifier of a subscription.
#[derive(Debug, Clone, Copy)]
pub struct SubscriptionIdentifier(pub u64);

/// A projection, as it is published to subscribers.
#[derive(Debug, Clone)]
pub struct ProjectionEvent {
    pub logos: ContentHash,
    pub rust: String,
    pub source: SlotSummary,
}

/// The engine's answer to a request.
#[derive(Debug, Clone)]
pub enum Reply {
    RustProjected { rust: String, source: SlotSummary },
    Listed(Vec<SlotSummary>),
    Subscribed { identifier: SubscriptionIdentifier, initial: Vec<SlotSummary> },
    Rejected(Rejection),
    Event(ProjectionEvent),
}

/// The kind of a stored document.
#[derive(Debug, Clone, Copy, PartialEq, Eq, Structural)]
pub enum DocumentKind {
    Logos,
    /// A kind that this engine does not project.
    Other,
}

/// A request to the SEMA storage plane.
#[derive(Debug, Clone, Copy)]
pub enum SemaRequest {
    HashFetch { hash: ContentHash },
    List { scope: FixtureScope, kind: Option<DocumentKind> },
}

/// The archived name table stored with a Logos document.
#[derive(Debug, Clone)]
pub struct NameTableBytes(pub Vec<u8>);

/// One encoded declaration item of a Logos document.
#[derive(Debug, Clone)]
pub struct LogosItem(pub Vec<u8>);

/// The content of a stored document.
#[derive(Debug, Clone)]
pub enum DocumentPayload {
    Logos { items: Vec<LogosItem>, names: NameTableBytes },
    /// A document of a kind that this engine does not project.
    Other,
}

/// A stored document.
#[derive(Debug, Clone)]
pub struct Document {
    pub key: SlotKey,
    pub version: u64,
    pub hash: ContentHash,
    pub payload: DocumentPayload,
}

/// The storage plane's answer.
#[derive(Debug, Clone)]
pub enum SemaReply {
    Document(Option<Document>),
    Listed(Vec<SlotSummary>),
    /// Any answer that is neither a document nor a list.
    Other,
}

/// The message that asks the storage plane for one exchange with SEMA.
#[derive(Debug, Clone, Copy)]
pub struct Fetch(pub SemaRequest);

/// The message that carries a client request into the engine.
#[derive(Debug, Clone, Copy)]
pub struct Dispatch(pub Request);

} // verus!
