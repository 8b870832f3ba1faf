//! The relay from end to end: sessions, viewers and what each of them gets.

use std::sync::Arc;
use std::time::Duration;
use tokio::sync::mpsc::error::TryRecvError;
use tokio::sync::mpsc::Receiver;
use tokio::sync::Mutex;
use warp_server::channel::{writer_channel, Outgoing};
use warp_server::common::{
    OrderedTerminalEvent, OrderedTerminalEventType, ParticipantId, Payload, ReconnectToken,
    Scrollback, ScrollbackBlock, Selection, SessionId,
};
use warp_server::session::Session;
use warp_server::sharer::{
    DownstreamMessage as SharerDown, InitPayload as SharerInit, UpstreamMessage as SharerUp,
};
use warp_server::sharer_ws;
use warp_server::state::{Config, ServerState};
use warp_server::viewer::{
    DownstreamMessage as ViewerDown, FailedToJoinReason, InitPayload as ViewerInit,
    UpstreamMessage as ViewerUp,
};
use warp_server::viewer_ws::{self, JoinOutcome};

fn payload(json: &str) -> Payload {
    Payload { json: json.to_owned() }
}

struct Server {
    state: ServerState,
    minted: u64,
}

impl Server {
    fn start() -> Server {
        Server {
            state: ServerState::with_config(Config {
                sharer_grace: Duration::from_secs(120),
                max_message_bytes: 16 * 1024 * 1024,
            }),
            minted: 0,
        }
    }

    fn mint(&mut self) -> u64 {
        self.minted += 1;
        self.minted
    }

    fn open_session(&mut self, scrollback_bytes: &[u8]) -> (Receiver<Outgoing>, SessionId) {
        let n = self.mint();
        let session_id = 0xabc0_0000u128 + n as u128;
        let (tx, mut rx) = writer_channel();
        let session = sharer_ws::create(
            session_id,
            ParticipantId { text: format!("sharer-{n}") },
            ReconnectToken { text: format!("token-{n}") },
            payload("\"secret\""),
            n,
            sharer_init(scrollback_bytes),
            tx,
        );
        self.state.insert(session_id, Arc::new(Mutex::new(session)));
        let initialized = recv_sharer(&mut rx);
        let SharerDown::SessionInitialized { session_id: told, .. } = initialized else {
            panic!("expected SessionInitialized");
        };
        assert_eq!(told, session_id);
        (rx, session_id)
    }

    fn with_session<R>(&self, id: &SessionId, act: impl FnOnce(&mut Session) -> R) -> R {
        let handle = self.state.get(id).expect("a live session");
        let mut session = handle.try_lock().expect("an idle session");
        act(&mut session)
    }

    fn join(
        &mut self,
        id: &SessionId,
        viewer_id: Option<ParticipantId>,
        last_received_event_no: Option<usize>,
    ) -> (Receiver<Outgoing>, JoinOutcome) {
        let n = self.mint();
        let fresh_id = ParticipantId { text: format!("viewer-{n}") };
        let init = ViewerInit { viewer_id, last_received_event_no };
        let (tx, rx) = writer_channel();
        let outcome = match self.state.get(id) {
            None => viewer_ws::join(None, init, fresh_id, n, tx),
            Some(handle) => {
                let mut session = handle.try_lock().unwrap();
                viewer_ws::join(Some(&mut *session), init, fresh_id, n, tx)
            }
        };
        (rx, outcome)
    }

    /// Joins as a new viewer; gives the queue and the welcome.
    fn join_viewer(&mut self, id: &SessionId) -> (Receiver<Outgoing>, ViewerDown) {
        let (mut rx, _) = self.join(id, None, None);
        let joined = recv_viewer(&mut rx);
        assert!(matches!(joined, ViewerDown::JoinedSuccessfully { .. }));
        (rx, joined)
    }

    fn sharer_says(&self, id: &SessionId, message: SharerUp) {
        self.with_session(id, |s| sharer_ws::handle_message(s, message));
    }

    fn viewer_says(&self, id: &SessionId, viewer_id: &ParticipantId, message: ViewerUp) {
        self.with_session(id, |s| {
            viewer_ws::handle_message(s, viewer_id, message, payload("\"request-1\""))
        });
    }
}

fn sharer_init(scrollback_bytes: &[u8]) -> SharerInit {
    SharerInit {
        scrollback: Arc::new(Scrollback {
            blocks: vec![ScrollbackBlock { raw: scrollback_bytes.to_vec() }],
            is_alt_screen_active: false,
        }),
        active_prompt: payload("{\"prompt\":1}"),
        window_size: payload("{\"rows\":24}"),
        selection: Selection::Unset,
        init_block_id: payload("\"block\""),
        input_replica_id: payload("\"replica\""),
        source_type: payload("\"user\""),
        source_task_id: None,
    }
}

fn pty_event(event_no: usize, bytes: &[u8]) -> SharerUp {
    SharerUp::OrderedTerminalEvent(OrderedTerminalEvent {
        event_no,
        event_type: OrderedTerminalEventType::PtyBytesRead { bytes: Arc::new(bytes.to_vec()) },
    })
}

fn recv_sharer(rx: &mut Receiver<Outgoing>) -> SharerDown {
    match rx.try_recv().expect("a message for the sharer") {
        Outgoing::ToSharer(m) => m,
        Outgoing::ToViewer(m) => panic!("a viewer's message: {m:?}"),
    }
}

fn recv_viewer(rx: &mut Receiver<Outgoing>) -> ViewerDown {
    match rx.try_recv().expect("a message for the viewer") {
        Outgoing::ToViewer(m) => m,
        Outgoing::ToSharer(m) => panic!("a sharer's message: {m:?}"),
    }
}

/// The next message that `pred` holds of, skipping others.
fn recv_viewer_where(
    rx: &mut Receiver<Outgoing>,
    pred: impl Fn(&ViewerDown) -> bool,
) -> ViewerDown {
    loop {
        let m = recv_viewer(rx);
        if pred(&m) {
            return m;
        }
    }
}

fn recv_sharer_where(
    rx: &mut Receiver<Outgoing>,
    pred: impl Fn(&SharerDown) -> bool,
) -> SharerDown {
    loop {
        let m = recv_sharer(rx);
        if pred(&m) {
            return m;
        }
    }
}

fn expect_pty(rx: &mut Receiver<Outgoing>) -> (usize, Vec<u8>) {
    let m = recv_viewer_where(rx, |m| matches!(m, ViewerDown::OrderedTerminalEvent(_)));
    let ViewerDown::OrderedTerminalEvent(e) = m else { unreachable!() };
    match e.event_type {
        OrderedTerminalEventType::PtyBytesRead { bytes } => (e.event_no, bytes.to_vec()),
        _ => panic!("wrong event type"),
    }
}

#[test]
fn create_join_and_scrollback() {
    let mut server = Server::start();
    let (_sharer, id) = server.open_session(b"history-bytes");
    let (_viewer, joined) = server.join_viewer(&id);

    let ViewerDown::JoinedSuccessfully { scrollback, .. } = joined else {
        panic!("expected JoinedSuccessfully");
    };
    assert_eq!(scrollback.blocks.len(), 1);
    assert_eq!(scrollback.blocks[0].raw, b"history-bytes");
}

#[test]
fn live_fanout_to_two_viewers_and_ack() {
    let mut server = Server::start();
    let (mut sharer, id) = server.open_session(b"");
    let (mut v1, _) = server.join_viewer(&id);
    let (mut v2, _) = server.join_viewer(&id);

    server.sharer_says(&id, pty_event(0, b"hello"));

    for v in [&mut v1, &mut v2] {
        let (_, bytes) = expect_pty(v);
        assert_eq!(bytes, b"hello");
    }

    let ack = recv_sharer_where(&mut sharer, |m| {
        matches!(m, SharerDown::EventsProcessedAck { .. })
    });
    let SharerDown::EventsProcessedAck { latest_processed_event_no } = ack else { unreachable!() };
    assert_eq!(latest_processed_event_no, 0);
}

#[test]
fn fresh_join_reports_latest_event_no_and_reconnect_catches_up() {
    let mut server = Server::start();
    let (mut sharer, id) = server.open_session(b"");

    for n in 0..3 {
        server.sharer_says(&id, pty_event(n, format!("e{n}").as_bytes()));
    }
    let _ = recv_sharer_where(&mut sharer, |m| {
        matches!(
            m,
            SharerDown::EventsProcessedAck { latest_processed_event_no }
                if *latest_processed_event_no == 2
        )
    });

    // Fresh viewer: no event replay, but latest_event_no must be Some(2).
    let (mut viewer, joined) = server.join_viewer(&id);
    let (viewer_id, latest) = match joined {
        ViewerDown::JoinedSuccessfully { viewer_id, latest_event_no, .. } => {
            (viewer_id, latest_event_no)
        }
        _ => unreachable!(),
    };
    assert_eq!(latest, Some(2));
    assert!(matches!(recv_viewer(&mut viewer), ViewerDown::ParticipantListUpdated(_)));
    assert!(matches!(viewer.try_recv(), Err(TryRecvError::Empty)));

    // Disconnect, then reconnect with last_received_event_no = Some(0): expect
    // catch-up of events 1 and 2, then RejoinedSuccessfully.
    drop(viewer);
    let connection = server.minted;
    assert!(server.with_session(&id, |s| viewer_ws::leave(s, &viewer_id, connection)));
    let (mut rec, outcome) = server.join(&id, Some(viewer_id), Some(0));
    assert!(matches!(outcome, JoinOutcome::Rejoined { .. }));

    let ViewerDown::OrderedTerminalEvent(e1) = recv_viewer(&mut rec) else {
        panic!("expected an event");
    };
    assert_eq!(e1.event_no, 1);
    let ViewerDown::OrderedTerminalEvent(e2) = recv_viewer(&mut rec) else {
        panic!("expected an event");
    };
    assert_eq!(e2.event_no, 2);
    assert!(matches!(recv_viewer(&mut rec), ViewerDown::RejoinedSuccessfully { .. }));
}

#[test]
fn viewer_execute_command_forwarded_to_sharer() {
    let mut server = Server::start();
    let (mut sharer, id) = server.open_session(b"");
    let (_viewer, joined) = server.join_viewer(&id);
    let viewer_id = match joined {
        ViewerDown::JoinedSuccessfully { viewer_id, .. } => viewer_id,
        _ => unreachable!(),
    };

    server.viewer_says(
        &id,
        &viewer_id,
        ViewerUp::ExecuteCommand { buffer_id: payload("\"buffer\""), command: "ls".to_owned() },
    );

    let req = recv_sharer_where(&mut sharer, |m| {
        matches!(m, SharerDown::CommandExecutionRequested { .. })
    });
    let SharerDown::CommandExecutionRequested { id, participant_id, buffer_id, command } = req
    else {
        unreachable!()
    };
    assert_eq!(command, "ls");
    assert_eq!(participant_id.text, viewer_id.text);
    assert_eq!(id.json, "\"request-1\"");
    assert_eq!(buffer_id.json, "\"buffer\"");
}

#[test]
fn two_sessions_do_not_cross_talk() {
    let mut server = Server::start();
    let (_sharer_a, id_a) = server.open_session(b"");
    let (_sharer_b, id_b) = server.open_session(b"");
    assert_ne!(id_a.to_string(), id_b.to_string());
    assert!(server.state.get(&id_a).is_some());
    assert!(server.state.get(&id_b).is_some());

    let (mut va, _) = server.join_viewer(&id_a);
    let (mut vb, _) = server.join_viewer(&id_b);

    server.sharer_says(&id_a, pty_event(0, b"AAA"));
    server.sharer_says(&id_b, pty_event(0, b"BBB"));

    let (_, bytes) = expect_pty(&mut va);
    assert_eq!(bytes, b"AAA");
    // Viewer A must not receive BBB, nor anything else.
    assert!(matches!(va.try_recv(), Err(TryRecvError::Empty)));

    let (_, bytes) = expect_pty(&mut vb);
    assert_eq!(bytes, b"BBB");
    assert!(matches!(vb.try_recv(), Err(TryRecvError::Empty)));
}

#[test]
fn join_nonexistent_session_fails() {
    let mut server = Server::start();
    let (mut rx, outcome) = server.join(&77, None, None);
    let JoinOutcome::Refused { link } = outcome else {
        panic!("expected a refusal");
    };
    drop(link);
    let ViewerDown::FailedToJoin { reason } = recv_viewer(&mut rx) else {
        panic!("expected FailedToJoin");
    };
    assert!(matches!(reason, FailedToJoinReason::SessionNotFound));
    assert!(matches!(rx.try_recv(), Err(TryRecvError::Disconnected)));
}
