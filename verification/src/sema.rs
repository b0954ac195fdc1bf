//! The SEMA storage plane: how one exchange with the SEMA socket proceeds.
//!
//! An exchange sends the current protocol handshake, waits for SEMA to
//! accept it, sends the request framed with the plane's read sequence
//! number, and waits for a reply frame whose payload is the answer.
//! [`SemaPlane::begin_exchange`] numbers the exchange; [`exchange_step`]
//! decides each following step from what SEMA sent back.

use vstd::prelude::*;
use std::path::PathBuf;
use crate::error::Error;

verus! {

/// `std::path::PathBuf`, carried through unopened.
#[verifier::external_type_specification]
#[verifier::external_body]
pub struct ExPathBuf(PathBuf);

/// The state of the storage plane: the SEMA socket and how many exchanges
/// it has started.
pub struct SemaPlane {
    pub socket: PathBuf,
    pub reads: u64,
}

/// Where an exchange stands.
#[derive(Debug, Clone, Copy, PartialEq, Eq, Structural)]
pub enum ExchangeState {
    /// The handshake was sent; the request will carry this sequence number.
    AwaitingHandshake { sequence: u64 },
    /// The request was sent.
    AwaitingReply,
    /// The exchange is over.
    Finished,
}

/// A frame that SEMA sent back, as the exchange reads it.
#[derive(Debug, Clone)]
pub enum ReceivedFrame {
    Reply { payload: Vec<u8> },
    /// Any frame that is not a reply.
    Other,
}

/// What SEMA answered.
#[derive(Debug, Clone)]
pub enum ExchangeEvent {
    /// SEMA's answer to the handshake, and whether it accepted it.
    Handshake { accepted: bool },
    /// SEMA's answer to the request.
    Frame(ReceivedFrame),
}

/// What the exchange does next.
#[derive(Debug)]
pub enum ExchangeAction {
    /// Send the request, framed with this sequence number.
    SendRequest { sequence: u64 },
    /// Decode this payload as storage's answer.
    DecodeReply { payload: Vec<u8> },
    /// Give up with this error.
    Fail(Error),
}

/// How one exchange begins: the plane's count of exchanges goes from
/// `before` to `after`, one more, and the exchange is numbered `after`.
pub open spec fn begins_exchange(before: u64, after: u64, state: ExchangeState) -> bool {
    &&& after == before + 1
    &&& state == (ExchangeState::AwaitingHandshake { sequence: after })
}

impl SemaPlane {
    /// A plane for this socket that has started no exchange.
    pub fn new(socket: PathBuf) -> (plane: Self)
        ensures
            plane.socket == socket,
            plane.reads == 0,
    {
        SemaPlane { socket, reads: 0 }
    }

    /// Starts an exchange: counts it, and numbers its request with the new
    /// count.
    pub fn begin_exchange(&mut self) -> (state: ExchangeState)
        requires
            old(self).reads < u64::MAX,
        ensures
            final(self).reads == old(self).reads + 1,
            final(self).socket == old(self).socket,
            state == (ExchangeState::AwaitingHandshake { sequence: final(self).reads }),
            begins_exchange(old(self).reads, final(self).reads, state),
    {
        self.reads = self.reads + 1;
        ExchangeState::AwaitingHandshake { sequence: self.reads }
    }
}

/// One step of an exchange: an accepted handshake lets the request go out,
/// a refused one ends the exchange; a reply frame hands its payload on to be
/// decoded, any other frame ends the exchange.
pub fn exchange_step(state: ExchangeState, event: ExchangeEvent) -> (next: (
    ExchangeState,
    ExchangeAction,
))
    requires
        state is AwaitingHandshake ==> event is Handshake,
        state is AwaitingReply ==> event is Frame,
        !(state is Finished),
    ensures
        match state {
            ExchangeState::AwaitingHandshake { sequence } => if event->accepted {
                &&& next.0 == ExchangeState::AwaitingReply
                &&& next.1 == (ExchangeAction::SendRequest { sequence })
            } else {
                &&& next.0 == ExchangeState::Finished
                &&& next.1 matches ExchangeAction::Fail(Error::Projection(m))
                &&& m@ == "Sema rejected frame protocol"@
            },
            _ => match event->Frame_0 {
                ReceivedFrame::Reply { payload } => {
                    &&& next.0 == ExchangeState::Finished
                    &&& next.1 == (ExchangeAction::DecodeReply { payload })
                },
                ReceivedFrame::Other => {
                    &&& next.0 == ExchangeState::Finished
                    &&& next.1 matches ExchangeAction::Fail(Error::Projection(m))
                    &&& m@ == "Sema returned a non-reply frame"@
                },
            },
        },
{
    match state {
        ExchangeState::AwaitingHandshake { sequence } => {
            let accepted: bool = match event {
                ExchangeEvent::Handshake { accepted } => accepted,
                ExchangeEvent::Frame(_) => false,
            };
            if accepted {
                (ExchangeState::AwaitingReply, ExchangeAction::SendRequest { sequence })
            } else {
                let message: String = "Sema rejected frame protocol".to_owned();
                (ExchangeState::Finished, ExchangeAction::Fail(Error::Projection(message)))
            }
        },
        _ => {
            let frame: ReceivedFrame = match event {
                ExchangeEvent::Frame(frame) => frame,
                ExchangeEvent::Handshake { .. } => ReceivedFrame::Other,
            };
            match frame {
                ReceivedFrame::Reply { payload } => (
                    ExchangeState::Finished,
                    ExchangeAction::DecodeReply { payload },
                ),
                ReceivedFrame::Other => {
                    let message: String = "Sema returned a non-reply frame".to_owned();
                    (ExchangeState::Finished, ExchangeAction::Fail(Error::Projection(message)))
                },
            }
        },
    }
}

proof fn lemma_count_after(reads: Seq<u64>, states: Seq<ExchangeState>, j: int)
    requires
        reads.len() == states.len() + 1,
        reads[0] == 0,
        forall|k: int|
            0 <= k < states.len() ==> #[trigger] begins_exchange(reads[k], reads[k + 1], states[k]),
        0 <= j <= states.len(),
    ensures
        reads[j] == j,
    decreases j,
{
    if j > 0 {
        lemma_count_after(reads, states, j - 1);
        assert(begins_exchange(reads[j - 1], reads[j], states[j - 1]));
    }
}

/// On a plane that starts with no exchange, the exchanges are numbered 1, 2,
/// 3, ... in the order they begin, with no number repeated or skipped:
/// nothing but the beginning of an exchange changes the count, so what
/// became of earlier exchanges does not matter.
pub proof fn lemma_exchanges_numbered_in_order(reads: Seq<u64>, states: Seq<ExchangeState>)
    requires
        reads.len() == states.len() + 1,
        reads[0] == 0,
        forall|k: int|
            0 <= k < states.len() ==> #[trigger] begins_exchange(reads[k], reads[k + 1], states[k]),
    ensures
        forall|j: int|
            0 <= j < states.len() ==> #[trigger] states[j] is AwaitingHandshake
                && states[j]->sequence == j + 1,
        forall|i: int, j: int| 0 <= i < j < states.len() ==> states[i] != states[j],
{
    assert forall|j: int| 0 <= j < states.len() implies #[trigger] states[j] is AwaitingHandshake
        && states[j]->sequence == j + 1 by {
        lemma_count_after(reads, states, j + 1);
        assert(begins_exchange(reads[j], reads[j + 1], states[j]));
    }
}

} // verus!
