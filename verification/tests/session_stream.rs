//! Session registry routing with real delivery channels, the shared-stream
//! state machine, and the configuration address strings.

use robot_gateway::backend::{hello_message, SignalMessage, SignalPayload};
use robot_gateway::config::{GRPCConfig, Settings, WebsocketConfig};
use robot_gateway::route::screen_outbound_json;
use robot_gateway::session::{DispatchOutcome, SessionManager, WsSender};
use robot_gateway::stream::{stream_step, StreamAction, StreamEvent, StreamState};
use tokio::sync::mpsc::unbounded_channel;

fn frame_for(robot_id: &str) -> SignalMessage {
    SignalMessage {
        robot_id: robot_id.to_owned(),
        payload: Some(SignalPayload::WebrtcError { error: "e".to_owned() }),
    }
}

#[test]
fn isolation_between_robots() {
    let (txa, mut rxa) = unbounded_channel::<SignalMessage>();
    let (txb, mut rxb) = unbounded_channel::<SignalMessage>();
    let mut sessions = SessionManager::new();
    sessions.insert("a".to_owned(), txa);
    sessions.insert("b".to_owned(), txb);
    assert_eq!(sessions.dispatch_message(frame_for("a")), DispatchOutcome::Delivered);
    let got = rxa.try_recv().expect("a received its message");
    assert_eq!(got.robot_id, "a");
    assert!(rxb.try_recv().is_err(), "b must never observe a's traffic");
}

#[test]
fn last_write_wins_on_reconnect() {
    let (tx1, mut rx1) = unbounded_channel::<SignalMessage>();
    let (tx2, mut rx2) = unbounded_channel::<SignalMessage>();
    let mut sessions = SessionManager::new();
    sessions.insert("r1".to_owned(), tx1);
    sessions.insert("r1".to_owned(), tx2);
    assert_eq!(sessions.len(), 1, "exactly one live entry for r1");
    assert_eq!(sessions.dispatch_message(frame_for("r1")), DispatchOutcome::Delivered);
    assert!(rx2.try_recv().is_ok(), "the second connection receives");
    assert!(rx1.try_recv().is_err(), "the first connection is orphaned");
}

#[test]
fn unmatched_messages_are_dropped() {
    let (txa, mut rxa) = unbounded_channel::<SignalMessage>();
    let mut sessions = SessionManager::new();
    sessions.insert("a".to_owned(), txa);
    assert_eq!(sessions.dispatch_message(frame_for("ghost")), DispatchOutcome::NoSession);
    assert!(rxa.try_recv().is_err());
}

#[test]
fn closed_session_is_reported() {
    let (txa, rxa) = unbounded_channel::<SignalMessage>();
    drop(rxa);
    let mut sessions = SessionManager::new();
    sessions.insert("a".to_owned(), txa);
    assert_eq!(sessions.dispatch_message(frame_for("a")), DispatchOutcome::SessionGone);
}

#[test]
fn unregister_removes_the_entry() {
    let (txa, _rxa) = unbounded_channel::<SignalMessage>();
    let mut sessions = SessionManager::new();
    sessions.insert("a".to_owned(), txa);
    assert!(sessions.get_ws_sender(&"a".to_owned()).is_some());
    sessions.remove(&"a".to_owned());
    assert!(sessions.get_ws_sender(&"a".to_owned()).is_none());
    assert_eq!(sessions.len(), 0);
    // Removing an absent entry does nothing.
    sessions.remove(&"a".to_owned());
    assert_eq!(sessions.len(), 0);
}

#[test]
fn lookup_yields_a_handle_to_the_same_channel() {
    let (txa, mut rxa) = unbounded_channel::<SignalMessage>();
    let mut sessions = SessionManager::new();
    sessions.insert("a".to_owned(), txa);
    let handle: WsSender = sessions.get_ws_sender(&"a".to_owned()).expect("registered");
    handle.send(frame_for("a")).expect("channel open");
    assert_eq!(rxa.try_recv().expect("delivered").robot_id, "a");
}

#[test]
fn single_open_race() {
    // Five concurrent first-time demands: exactly one backend open call.
    let mut state = StreamState::Absent;
    let mut opens = 0;
    for _ in 0..5 {
        let (next, action) = stream_step(state, StreamEvent::Demand);
        if action == StreamAction::StartOpen {
            opens += 1;
        } else {
            assert_eq!(action, StreamAction::AwaitOpen);
        }
        state = next;
    }
    assert_eq!(opens, 1);
    assert_eq!(state, StreamState::Initializing);
    // The winner's open succeeds; every later caller uses the one sender.
    let (next, action) = stream_step(state, StreamEvent::OpenSucceeded);
    assert_eq!(action, StreamAction::StoreSenderAndSpawn);
    state = next;
    for _ in 0..3 {
        let (next, action) = stream_step(state, StreamEvent::Demand);
        assert_eq!(action, StreamAction::UseSender);
        state = next;
    }
    assert_eq!(state, StreamState::Open);
}

#[test]
fn stream_failure_and_teardown() {
    // A failed open leaves the manager absent, so the next caller retries.
    let (state, action) = stream_step(StreamState::Absent, StreamEvent::Demand);
    assert_eq!(action, StreamAction::StartOpen);
    let (state, action) = stream_step(state, StreamEvent::OpenFailed);
    assert_eq!(action, StreamAction::AbandonOpen);
    assert_eq!(state, StreamState::Absent);
    let (_, action) = stream_step(state, StreamEvent::Demand);
    assert_eq!(action, StreamAction::StartOpen);
    // A dying stream clears the sender; forced close does the same.
    let (state, action) = stream_step(StreamState::Open, StreamEvent::StreamEnded);
    assert_eq!((state, action), (StreamState::Absent, StreamAction::ClearSender));
    let (state, action) = stream_step(StreamState::Open, StreamEvent::CloseRequested);
    assert_eq!((state, action), (StreamState::Absent, StreamAction::ClearSender));
    let (state, action) = stream_step(StreamState::Absent, StreamEvent::CloseRequested);
    assert_eq!((state, action), (StreamState::Absent, StreamAction::Ignore));
}

#[test]
fn hello_message_shape() {
    let m = hello_message("r1".to_owned());
    assert_eq!(m.robot_id, "r1");
    assert!(m.payload.is_none());
}

#[test]
fn configured_addresses() {
    let settings = Settings {
        websocket_server: WebsocketConfig {
            self_ip: "0.0.0.0".to_owned(),
            self_port: "9001".to_owned(),
        },
        grpc_client: GRPCConfig { to_ip: "10.0.0.5".to_owned(), to_port: "50051".to_owned() },
    };
    assert_eq!(settings.grpc_endpoint(), "http://10.0.0.5:50051");
    assert_eq!(settings.ws_bind_addr(), "0.0.0.0:9001");
}

#[test]
fn dispatched_messages_render_for_the_client() {
    let (txa, mut rxa) = unbounded_channel::<SignalMessage>();
    let mut sessions = SessionManager::new();
    sessions.insert("a".to_owned(), txa);
    assert_eq!(sessions.dispatch_message(frame_for("a")), DispatchOutcome::Delivered);
    let received = rxa.try_recv().expect("delivered");
    let json = screen_outbound_json(received).expect("has a client form");
    assert_eq!(json, "{\"type\":\"webrtc_error\",\"robot_id\":\"a\",\"error\":\"e\"}");
    // A handshake message has no client form and is dropped, not fatal.
    let hello = hello_message("a".to_owned());
    assert!(screen_outbound_json(hello).is_err());
}
