//! Resuming with the right token only, reaping, and bounded memory.

use std::sync::Arc;
use std::time::Duration;
use tokio::sync::mpsc::error::TryRecvError;
use tokio::sync::mpsc::Receiver;
use tokio::sync::Mutex;
use warp_server::channel::{writer_channel, Outgoing};
use warp_server::common::{
    OrderedTerminalEvent, OrderedTerminalEventType, ParticipantId, Payload, ReconnectToken,
    Scrollback, ScrollbackBlock, Selection, SessionId,
};
use warp_server::session::{Session, MAX_EVENT_LOG};
use warp_server::sharer::{
    DownstreamMessage as SharerDown, InitPayload as SharerInit, ReconnectPayload,
    ReconnectionFailedReason, UpstreamMessage as SharerUp,
};
use warp_server::sharer_ws::{self, ResumeOutcome, SharerFlow};
use warp_server::state::{Config, ServerState};
use warp_server::viewer::{
    DownstreamMessage as ViewerDown, FailedToJoinReason, InitPayload as ViewerInit,
    SessionEndedReason,
};
use warp_server::viewer_ws;

const ID: SessionId = 0x1234;
const FIRST_CONNECTION: u64 = 1;
const VIEWER_CONNECTION: u64 = 10;

fn payload(json: &str) -> Payload {
    Payload { json: json.to_owned() }
}

fn start() -> ServerState {
    ServerState::with_config(Config {
        sharer_grace: Duration::from_secs(1),
        max_message_bytes: 16 * 1024 * 1024,
    })
}

/// Opens a session; gives the sharer's queue and the token it was handed.
fn open_session(state: &mut ServerState) -> (Receiver<Outgoing>, ReconnectToken) {
    let (tx, mut rx) = writer_channel();
    let session = sharer_ws::create(
        ID,
        ParticipantId { text: "sharer".to_owned() },
        ReconnectToken { text: "the-token".to_owned() },
        payload("\"secret\""),
        FIRST_CONNECTION,
        SharerInit {
            scrollback: Arc::new(Scrollback {
                blocks: vec![ScrollbackBlock { raw: vec![] }],
                is_alt_screen_active: false,
            }),
            active_prompt: payload("{}"),
            window_size: payload("{}"),
            selection: Selection::Unset,
            init_block_id: payload("\"b\""),
            input_replica_id: payload("\"r\""),
            source_type: payload("\"user\""),
            source_task_id: None,
        },
        tx,
    );
    state.insert(ID, Arc::new(Mutex::new(session)));
    let Ok(Outgoing::ToSharer(SharerDown::SessionInitialized { session_id, reconnect_token, .. })) =
        rx.try_recv()
    else {
        panic!("expected SessionInitialized");
    };
    assert_eq!(session_id, ID);
    (rx, reconnect_token)
}

fn with_session<R>(state: &ServerState, act: impl FnOnce(&mut Session) -> R) -> R {
    let handle = state.get(&ID).expect("a live session");
    let mut session = handle.try_lock().unwrap();
    act(&mut session)
}

/// The wait for a sharer that left with `connection` is over.
fn wait_is_over(state: &mut ServerState, connection: u64) -> bool {
    let handle = state.get(&ID).expect("a live session");
    let mut session = handle.try_lock().unwrap();
    state.reap(&ID, &mut session, connection)
}

/// Handles a message of the sharer, and lets the registry know.
fn sharer_says(state: &mut ServerState, message: SharerUp) -> SharerFlow {
    let flow = with_session(state, |s| sharer_ws::handle_message(s, message));
    state.conclude(&ID, flow);
    flow
}

fn join(
    state: &ServerState,
    viewer_id: Option<&str>,
    last_received_event_no: Option<usize>,
) -> Receiver<Outgoing> {
    let (tx, rx) = writer_channel();
    let init = ViewerInit {
        viewer_id: viewer_id.map(|text| ParticipantId { text: text.to_owned() }),
        last_received_event_no,
    };
    let fresh_id = ParticipantId { text: "viewer".to_owned() };
    match state.get(&ID) {
        None => {
            viewer_ws::join(None, init, fresh_id, VIEWER_CONNECTION, tx);
        }
        Some(handle) => {
            let mut session = handle.try_lock().unwrap();
            viewer_ws::join(Some(&mut *session), init, fresh_id, VIEWER_CONNECTION, tx);
        }
    }
    rx
}

fn resume(
    state: &ServerState,
    token: ReconnectToken,
    connection: u64,
) -> (Receiver<Outgoing>, ResumeOutcome) {
    let (tx, rx) = writer_channel();
    let reconnect = ReconnectPayload { reconnect_token: token };
    let outcome = match state.get(&ID) {
        None => sharer_ws::resume(None, reconnect, connection, tx),
        Some(handle) => {
            let mut session = handle.try_lock().unwrap();
            sharer_ws::resume(Some(&mut *session), reconnect, connection, tx)
        }
    };
    (rx, outcome)
}

fn next_for_viewer(rx: &mut Receiver<Outgoing>) -> ViewerDown {
    match rx.try_recv().expect("a message") {
        Outgoing::ToViewer(m) => m,
        Outgoing::ToSharer(m) => panic!("a sharer's message: {m:?}"),
    }
}

fn next_for_sharer(rx: &mut Receiver<Outgoing>) -> SharerDown {
    match rx.try_recv().expect("a message") {
        Outgoing::ToSharer(m) => m,
        Outgoing::ToViewer(m) => panic!("a viewer's message: {m:?}"),
    }
}

fn pty_event(event_no: usize, bytes: &[u8]) -> SharerUp {
    SharerUp::OrderedTerminalEvent(OrderedTerminalEvent {
        event_no,
        event_type: OrderedTerminalEventType::PtyBytesRead { bytes: Arc::new(bytes.to_vec()) },
    })
}

#[test]
fn resume_with_wrong_token_is_rejected() {
    let mut state = start();
    let (mut sharer, _token) = open_session(&mut state);

    let (mut rec, outcome) =
        resume(&state, ReconnectToken { text: "a-bogus-token".to_owned() }, 2);
    assert!(matches!(outcome, ResumeOutcome::Refused { .. }));
    let SharerDown::FailedToReconnect { reason } = next_for_sharer(&mut rec) else {
        panic!("expected FailedToReconnect");
    };
    assert!(
        matches!(reason, ReconnectionFailedReason::WrongReconnectionToken),
        "expected WrongReconnectionToken, got {reason:?}"
    );

    // The sharer that is there keeps its role.
    with_session(&state, |s| {
        assert_eq!(s.sharer_connection, FIRST_CONNECTION);
        sharer_ws::handle_message(s, SharerUp::Ping { data: payload("7") });
    });
    let SharerDown::Pong { data } = next_for_sharer(&mut sharer) else {
        panic!("expected Pong");
    };
    assert_eq!(data.json, "7");
}

#[test]
fn resume_with_correct_token_succeeds() {
    let mut state = start();
    let (sharer, token) = open_session(&mut state);

    // Simulate the sharer's socket dropping.
    drop(sharer);

    let (mut rec, outcome) = resume(&state, token, 2);
    assert!(matches!(outcome, ResumeOutcome::Resumed));
    let SharerDown::SessionReconnected { last_received_event_no, participant_list } =
        next_for_sharer(&mut rec)
    else {
        panic!("expected SessionReconnected");
    };
    assert_eq!(last_received_event_no, None);
    assert_eq!(participant_list.sharer.info.id.text, "sharer");
    assert_eq!(participant_list.present_viewers.len(), 0);
}

#[test]
fn resume_of_unknown_session_is_rejected() {
    let state = start();
    let (mut rec, outcome) = resume(&state, ReconnectToken { text: "any".to_owned() }, 2);
    assert!(matches!(outcome, ResumeOutcome::Refused { .. }));
    assert!(matches!(
        next_for_sharer(&mut rec),
        SharerDown::FailedToReconnect { reason: ReconnectionFailedReason::SessionNotFound }
    ));
}

#[test]
fn session_reaped_after_sharer_disconnect() {
    let mut state = start();
    let (sharer, _token) = open_session(&mut state);
    let mut viewer = join(&state, None, None);
    assert!(matches!(next_for_viewer(&mut viewer), ViewerDown::JoinedSuccessfully { .. }));
    assert!(matches!(next_for_viewer(&mut viewer), ViewerDown::ParticipantListUpdated(_)));

    // The sharer drops without EndSession, and the grace period passes.
    drop(sharer);
    let waits = with_session(&state, |s| s.sharer_disconnected(FIRST_CONNECTION));
    assert!(waits);
    assert!(wait_is_over(&mut state, FIRST_CONNECTION));
    assert!(state.get(&ID).is_none());

    let ViewerDown::SessionEnded { reason } = next_for_viewer(&mut viewer) else {
        panic!("expected SessionEnded");
    };
    assert!(
        matches!(reason, SessionEndedReason::EndedBySharer),
        "expected EndedBySharer, got {reason:?}"
    );

    // A viewer that joins the session now must be told it's gone.
    let mut late = join(&state, None, None);
    let ViewerDown::FailedToJoin { reason } = next_for_viewer(&mut late) else {
        panic!("expected FailedToJoin");
    };
    assert!(
        matches!(reason, FailedToJoinReason::SessionNotFound),
        "expected SessionNotFound, got {reason:?}"
    );
}

#[test]
fn session_survives_within_grace_then_resumes() {
    let mut state = start();
    let (sharer, token) = open_session(&mut state);

    drop(sharer);
    assert!(with_session(&state, |s| s.sharer_disconnected(FIRST_CONNECTION)));
    let (mut rec, outcome) = resume(&state, token, 2);
    assert!(matches!(outcome, ResumeOutcome::Resumed));
    assert!(matches!(next_for_sharer(&mut rec), SharerDown::SessionReconnected { .. }));

    // The first grace period is over: the session must still exist.
    assert!(!wait_is_over(&mut state, FIRST_CONNECTION));
    assert!(state.get(&ID).is_some());
    let mut viewer = join(&state, None, None);
    assert!(matches!(next_for_viewer(&mut viewer), ViewerDown::JoinedSuccessfully { .. }));
}

#[test]
fn disconnect_noted_after_resume_is_ignored() {
    let mut state = start();
    let (_sharer, token) = open_session(&mut state);
    let (mut rec, _) = resume(&state, token, 2);
    assert!(matches!(next_for_sharer(&mut rec), SharerDown::SessionReconnected { .. }));

    assert!(!with_session(&state, |s| s.sharer_disconnected(FIRST_CONNECTION)));
    assert!(!with_session(&state, |s| s.reap(FIRST_CONNECTION)));
    assert!(!wait_is_over(&mut state, FIRST_CONNECTION));
    assert!(!wait_is_over(&mut state, 2));
    assert!(state.get(&ID).is_some());
    with_session(&state, |s| sharer_ws::handle_message(s, SharerUp::Ping { data: payload("1") }));
    assert!(matches!(next_for_sharer(&mut rec), SharerDown::Pong { .. }));
}

#[test]
fn ended_session_tells_viewers() {
    let mut state = start();
    let (_sharer, _token) = open_session(&mut state);
    let mut viewer = join(&state, None, None);
    let going_on = sharer_says(&mut state, SharerUp::Ping { data: payload("1") });
    assert_eq!(going_on, SharerFlow::Continues);
    assert!(state.get(&ID).is_some());
    let flow = sharer_says(&mut state, SharerUp::EndSession);
    assert_eq!(flow, SharerFlow::Ended);
    assert!(state.get(&ID).is_none());
    assert!(matches!(next_for_viewer(&mut viewer), ViewerDown::JoinedSuccessfully { .. }));
    assert!(matches!(next_for_viewer(&mut viewer), ViewerDown::ParticipantListUpdated(_)));
    assert!(matches!(
        next_for_viewer(&mut viewer),
        ViewerDown::SessionEnded { reason: SessionEndedReason::EndedBySharer }
    ));
}

#[test]
fn many_events_still_deliver() {
    const N: usize = 300;
    let mut state = start();
    let (_sharer, _token) = open_session(&mut state);
    let mut viewer = join(&state, None, None);
    let ViewerDown::JoinedSuccessfully { viewer_id, .. } = next_for_viewer(&mut viewer) else {
        panic!("expected JoinedSuccessfully");
    };
    assert!(matches!(next_for_viewer(&mut viewer), ViewerDown::ParticipantListUpdated(_)));

    for n in 0..N {
        with_session(&state, |s| {
            sharer_ws::handle_message(s, pty_event(n, format!("e{n}").as_bytes()))
        });
    }

    // The live viewer must receive every event in order.
    let mut last: Vec<u8> = vec![];
    for n in 0..N {
        let ViewerDown::OrderedTerminalEvent(e) = next_for_viewer(&mut viewer) else {
            panic!("expected an event");
        };
        assert_eq!(e.event_no, n);
        match e.event_type {
            OrderedTerminalEventType::PtyBytesRead { bytes } => last = bytes.to_vec(),
            _ => panic!("wrong event type"),
        }
    }
    assert_eq!(last, format!("e{}", N - 1).as_bytes());

    // A reconnecting viewer (same viewer_id) from event 0 catches up to latest.
    drop(viewer);
    let mut late = join(&state, Some(&viewer_id.text), Some(0));
    for n in 1..N {
        let ViewerDown::OrderedTerminalEvent(e) = next_for_viewer(&mut late) else {
            panic!("expected an event");
        };
        assert_eq!(e.event_no, n);
    }
    assert!(matches!(next_for_viewer(&mut late), ViewerDown::RejoinedSuccessfully { .. }));
}

#[test]
fn event_log_is_bounded_and_catch_up_fits() {
    let mut state = start();
    let (_sharer, _token) = open_session(&mut state);
    let extra = 5;
    for n in 0..MAX_EVENT_LOG + extra {
        with_session(&state, |s| sharer_ws::handle_message(s, pty_event(n, b"x")));
    }
    with_session(&state, |s| {
        assert_eq!(s.events.len(), MAX_EVENT_LOG);
        assert_eq!(s.events[0].event_no, extra);
        assert_eq!(s.latest_event_no, Some(MAX_EVENT_LOG + extra - 1));
    });

    // A viewer that has received nothing gets the whole log, and stays.
    let mut viewer = join(&state, Some("viewer"), None);
    for n in extra..MAX_EVENT_LOG + extra {
        let ViewerDown::OrderedTerminalEvent(e) = next_for_viewer(&mut viewer) else {
            panic!("expected an event");
        };
        assert_eq!(e.event_no, n);
    }
    assert!(matches!(next_for_viewer(&mut viewer), ViewerDown::RejoinedSuccessfully { .. }));
    assert!(matches!(viewer.try_recv(), Err(TryRecvError::Empty)));
}
