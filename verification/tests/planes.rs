use std::path::PathBuf;

use logos_engine::error::Error;
use logos_engine::protocol::{ContentHash, FixtureScope, Request, SlotKey, SlotSummary};
use logos_engine::relay::{
    relay_after_attempt, relay_request, relay_subscription, wants_events, NomosEvent, NomosReply,
    NomosRequest, RelayAction,
};
use logos_engine::sema::{
    exchange_step, ExchangeAction, ExchangeEvent, ExchangeState, ReceivedFrame, SemaPlane,
};
use logos_engine::signal::SignalPlane;

#[test]
fn exchanges_are_numbered_from_one() {
    let mut plane = SemaPlane::new(PathBuf::from("/tmp/sema.sock"));
    assert_eq!(plane.reads, 0);
    assert_eq!(plane.begin_exchange(), ExchangeState::AwaitingHandshake { sequence: 1 });
    assert_eq!(plane.begin_exchange(), ExchangeState::AwaitingHandshake { sequence: 2 });
    assert_eq!(plane.reads, 2);
    assert_eq!(plane.socket, PathBuf::from("/tmp/sema.sock"));
}

#[test]
fn accepted_handshake_sends_request_with_sequence() {
    let (state, action) = exchange_step(
        ExchangeState::AwaitingHandshake { sequence: 4 },
        ExchangeEvent::Handshake { accepted: true },
    );
    assert_eq!(state, ExchangeState::AwaitingReply);
    assert!(matches!(action, ExchangeAction::SendRequest { sequence: 4 }));
}

#[test]
fn refused_handshake_fails_exchange() {
    let (state, action) = exchange_step(
        ExchangeState::AwaitingHandshake { sequence: 4 },
        ExchangeEvent::Handshake { accepted: false },
    );
    assert_eq!(state, ExchangeState::Finished);
    match action {
        ExchangeAction::Fail(Error::Projection(m)) => assert_eq!(m, "Sema rejected frame protocol"),
        other => panic!("unexpected {:?}", other),
    }
}

#[test]
fn reply_frame_payload_is_decoded() {
    let (state, action) = exchange_step(
        ExchangeState::AwaitingReply,
        ExchangeEvent::Frame(ReceivedFrame::Reply { payload: vec![1, 2] }),
    );
    assert_eq!(state, ExchangeState::Finished);
    match action {
        ExchangeAction::DecodeReply { payload } => assert_eq!(payload, vec![1, 2]),
        other => panic!("unexpected {:?}", other),
    }
}

#[test]
fn non_reply_frame_fails_exchange() {
    let (state, action) =
        exchange_step(ExchangeState::AwaitingReply, ExchangeEvent::Frame(ReceivedFrame::Other));
    assert_eq!(state, ExchangeState::Finished);
    match action {
        ExchangeAction::Fail(Error::Projection(m)) => {
            assert_eq!(m, "Sema returned a non-reply frame")
        }
        other => panic!("unexpected {:?}", other),
    }
}

#[test]
fn signal_plane_counts_admissions() {
    let mut plane = SignalPlane::new();
    plane.count_admission();
    plane.count_admission();
    assert_eq!(plane.admitted, 2);
}

#[test]
fn nomos_event_becomes_projection_of_its_slot() {
    let event = NomosEvent {
        logos: SlotSummary {
            key: SlotKey { scope: FixtureScope(6), name: "doc".to_string() },
            version: 2,
            hash: ContentHash([8; 32]),
        },
    };
    match relay_request(&NomosReply::Event(event)) {
        Some(Request::ProjectRust { scope, logos }) => {
            assert_eq!(scope.0, 6);
            assert_eq!(logos.0, [8; 32]);
        }
        other => panic!("unexpected {:?}", other),
    }
    assert!(relay_request(&NomosReply::Other).is_none());
}

#[test]
fn relay_subscribes_to_scope_one() {
    assert!(matches!(relay_subscription(), NomosRequest::Subscribe { scope: FixtureScope(1) }));
}

#[test]
fn only_subscriptions_stream_events() {
    assert!(wants_events(&Request::Subscribe { scope: FixtureScope(1) }));
    assert!(!wants_events(&Request::List { scope: FixtureScope(1) }));
    assert!(!wants_events(&Request::ProjectRust {
        scope: FixtureScope(1),
        logos: ContentHash([0; 32])
    }));
}

#[test]
fn relay_retries_after_fifty_millis_until_success() {
    assert_eq!(relay_after_attempt(false), RelayAction::RetryAfterMillis(50));
    assert_eq!(relay_after_attempt(true), RelayAction::Stop);
}

#[test]
fn exchanges_numbered_consecutively_whatever_their_outcome() {
    let mut plane = SemaPlane::new(PathBuf::from("/tmp/sema.sock"));
    for expected in 1..=5_u64 {
        let state = plane.begin_exchange();
        assert_eq!(state, ExchangeState::AwaitingHandshake { sequence: expected });
        // Every other exchange is refused by SEMA; numbering goes on regardless.
        let accepted = expected % 2 == 0;
        let _ = exchange_step(state, ExchangeEvent::Handshake { accepted });
    }
    assert_eq!(plane.reads, 5);
}
