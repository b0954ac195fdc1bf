//! The daemon's decisions around its sockets: which requests stream
//! events to their client, and which Nomos events become projections.

use vstd::prelude::*;
use crate::protocol::{FixtureScope, Request, SlotSummary};

verus! {

/// A Nomos event: a Logos document was stored under this slot.
#[derive(Debug, Clone)]
pub struct NomosEvent {
    pub logos: SlotSummary,
}

/// What the Nomos daemon sends to a subscriber.
#[derive(Debug, Clone)]
pub enum NomosReply {
    Event(NomosEvent),
    /// Any answer that is not an event.
    Other,
}

/// A request to the Nomos daemon.
#[derive(Debug, Clone, Copy)]
pub enum NomosRequest {
    Subscribe { scope: FixtureScope },
}

/// What the relay does after an attempt to follow the Nomos daemon.
#[derive(Debug, Clone, Copy, PartialEq, Eq, Structural)]
pub enum RelayAction {
    /// The attempt ended well: the relay is done.
    Stop,
    /// The attempt failed: wait this many milliseconds, then try again.
    RetryAfterMillis(u64),
}

/// The relay keeps trying until one attempt succeeds, pausing 50
/// milliseconds after each failed attempt.
pub fn relay_after_attempt(succeeded: bool) -> (action: RelayAction)
    ensures
        succeeded ==> action == RelayAction::Stop,
        !succeeded ==> action == RelayAction::RetryAfterMillis(50),
{
    if succeeded {
        RelayAction::Stop
    } else {
        RelayAction::RetryAfterMillis(50)
    }
}

/// The subscription that the relay opens on the Nomos daemon: scope 1.
pub fn relay_subscription() -> (request: NomosRequest)
    ensures
        request == (NomosRequest::Subscribe { scope: FixtureScope(1) }),
{
    NomosRequest::Subscribe { scope: FixtureScope(1) }
}

/// The projection that a Nomos event calls for: the stored document's
/// scope and hash. Any other answer calls for none.
pub fn relay_request(reply: &NomosReply) -> (request: Option<Request>)
    ensures
        match reply {
            NomosReply::Event(event) => request == Some(
                Request::ProjectRust { scope: event.logos.key.scope, logos: event.logos.hash },
            ),
            NomosReply::Other => request is None,
        },
{
    match reply {
        NomosReply::Event(event) => Some(
            Request::ProjectRust { scope: event.logos.key.scope, logos: event.logos.hash },
        ),
        NomosReply::Other => None,
    }
}

/// Whether a client connection stays open for projection events after its
/// reply: exactly for a subscription.
pub fn wants_events(request: &Request) -> (streams: bool)
    ensures
        streams == (request is Subscribe),
{
    match request {
        Request::Subscribe { .. } => true,
        _ => false,
    }
}

} // verus!
