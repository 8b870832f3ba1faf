//! What each message does, who is dropped, and who is listed.

use std::sync::Arc;
use std::time::Duration;
use tokio::sync::mpsc::error::TryRecvError;
use tokio::sync::mpsc::Receiver;
use tokio::sync::Mutex;
use warp_server::channel::{self, writer_channel, Outgoing, WRITER_CHANNEL_CAP};
use warp_server::common::{
    ActivePromptUpdate, AgentPromptRequest, OrderedTerminalEvent, OrderedTerminalEventType,
    ParticipantId, Payload, PresenceUpdate, ReconnectToken, Role, RoleRequestResponse, Scrollback,
    ScrollbackBlock, Selection, SelectionUpdate,
};
use warp_server::frame::{next_step, Frame, Handshake, NextStep};
use warp_server::session::Session;
use warp_server::sharer::{self, DownstreamMessage as SharerDown, UpstreamMessage as SharerUp};
use warp_server::sharer_ws::{self, ResumeOutcome, SharerFlow};
use warp_server::state::{Config, ServerState};
use warp_server::viewer::{self, DownstreamMessage as ViewerDown, UpstreamMessage as ViewerUp};
use warp_server::viewer_ws::{self, JoinOutcome};

fn payload(json: &str) -> Payload {
    Payload { json: json.to_owned() }
}

fn pid(text: &str) -> ParticipantId {
    ParticipantId { text: text.to_owned() }
}

fn init() -> sharer::InitPayload {
    sharer::InitPayload {
        scrollback: Arc::new(Scrollback {
            blocks: vec![ScrollbackBlock { raw: vec![1, 2, 3] }],
            is_alt_screen_active: true,
        }),
        active_prompt: payload("\"prompt\""),
        window_size: payload("\"24x80\""),
        selection: Selection::Value(payload("\"sel\"")),
        init_block_id: payload("\"block\""),
        input_replica_id: payload("\"replica\""),
        source_type: payload("\"source\""),
        source_task_id: Some("task".to_owned()),
    }
}

fn open() -> (Session, Receiver<Outgoing>) {
    let (tx, rx) = writer_channel();
    let session = sharer_ws::create(
        9,
        pid("s1"),
        ReconnectToken { text: "token".to_owned() },
        payload("\"secret\""),
        1,
        init(),
        tx,
    );
    (session, rx)
}

/// A session with a quiet sharer and the viewers "a" and "b", on connections
/// 11 and 12.
fn with_two() -> (Session, Receiver<Outgoing>, Receiver<Outgoing>, Receiver<Outgoing>) {
    let (mut session, mut sharer) = open();
    let mut a = join(&mut session, "a", 11);
    let mut b = join(&mut session, "b", 12);
    drain(&mut sharer);
    drain(&mut a);
    drain(&mut b);
    (session, sharer, a, b)
}

fn join(session: &mut Session, id: &str, connection: u64) -> Receiver<Outgoing> {
    let (tx, rx) = writer_channel();
    let outcome = viewer_ws::join(
        Some(session),
        viewer::InitPayload { viewer_id: None, last_received_event_no: None },
        pid(id),
        connection,
        tx,
    );
    let JoinOutcome::Joined { viewer_id } = outcome else {
        panic!("expected to join");
    };
    assert_eq!(viewer_id.text, id);
    rx
}

fn rejoin(
    session: &mut Session,
    id: &str,
    last_received_event_no: Option<usize>,
    connection: u64,
) -> Receiver<Outgoing> {
    let (tx, rx) = writer_channel();
    let returning = viewer::InitPayload { viewer_id: Some(pid(id)), last_received_event_no };
    let outcome = viewer_ws::join(Some(session), returning, pid("unused"), connection, tx);
    assert!(matches!(outcome, JoinOutcome::Rejoined { viewer_id } if viewer_id.text == id));
    rx
}

fn drain(rx: &mut Receiver<Outgoing>) {
    while rx.try_recv().is_ok() {}
}

fn to_viewer(rx: &mut Receiver<Outgoing>) -> ViewerDown {
    match rx.try_recv() {
        Ok(Outgoing::ToViewer(m)) => m,
        other => panic!("no message for a viewer: {other:?}"),
    }
}

fn to_sharer(rx: &mut Receiver<Outgoing>) -> SharerDown {
    match rx.try_recv() {
        Ok(Outgoing::ToSharer(m)) => m,
        other => panic!("no message for a sharer: {other:?}"),
    }
}

fn silent(rx: &mut Receiver<Outgoing>) {
    assert!(matches!(rx.try_recv(), Err(TryRecvError::Empty)));
}

fn event(event_no: usize) -> OrderedTerminalEvent {
    OrderedTerminalEvent { event_no, event_type: OrderedTerminalEventType::Other(payload("0")) }
}

#[test]
fn created_session_is_announced_and_described() {
    let (session, mut rx) = open();
    let SharerDown::SessionInitialized {
        session_id,
        session_secret,
        reconnect_token,
        sharer_id,
        sharer_firebase_uid,
    } = to_sharer(&mut rx)
    else {
        panic!("expected SessionInitialized");
    };
    assert_eq!(session_id, 9);
    assert_eq!(session_secret.json, "\"secret\"");
    assert_eq!(reconnect_token.text, "token");
    assert_eq!(sharer_id.text, "s1");
    assert_eq!(sharer_firebase_uid, "self-hosted-sharer-s1");
    silent(&mut rx);

    assert_eq!(session.session_id, 9);
    assert_eq!(session.sharer_connection, 1);
    assert_eq!(session.latest_event_no, None);
    assert_eq!(session.events.len(), 0);
    let info = &session.participants.sharer.info;
    assert_eq!(info.id.text, "s1");
    assert_eq!(info.profile_data.firebase_uid, "self-hosted-sharer-s1");
    assert_eq!(info.profile_data.display_name, "Sharer");
    assert_eq!(info.profile_data.input_replica_id.json, "\"replica\"");
    assert!(matches!(&info.selection, Selection::Value(p) if p.json == "\"sel\""));
    assert_eq!(session.participants.present_viewers.len(), 0);
}

#[test]
fn new_viewer_is_welcomed_and_listed_with_full_access() {
    let (mut session, mut sharer) = open();
    drain(&mut sharer);
    let mut first = join(&mut session, "a", 11);
    let ViewerDown::JoinedSuccessfully {
        scrollback,
        active_prompt,
        latest_event_no,
        window_size,
        participant_list,
        viewer_id,
        viewer_firebase_uid,
        init_block_id,
        input_replica_id,
        universal_developer_input_context,
        source_type,
        source_task_id,
    } = to_viewer(&mut first)
    else {
        panic!("expected JoinedSuccessfully");
    };
    assert_eq!(scrollback.blocks[0].raw, vec![1, 2, 3]);
    assert!(scrollback.is_alt_screen_active);
    assert_eq!(active_prompt.json, "\"prompt\"");
    assert_eq!(latest_event_no, None);
    assert_eq!(window_size.json, "\"24x80\"");
    assert_eq!(viewer_id.text, "a");
    assert_eq!(viewer_firebase_uid, "self-hosted-viewer-a");
    assert_eq!(init_block_id.json, "\"block\"");
    assert_eq!(input_replica_id.json, "\"replica\"");
    assert!(universal_developer_input_context.is_none());
    assert_eq!(source_type.json, "\"source\"");
    assert_eq!(source_task_id.as_deref(), Some("task"));
    assert_eq!(participant_list.present_viewers.len(), 1);
    let listed = &participant_list.present_viewers[0];
    assert_eq!(listed.info.id.text, "a");
    assert_eq!(listed.info.profile_data.firebase_uid, "self-hosted-viewer-a");
    assert_eq!(listed.info.profile_data.display_name, "Viewer");
    assert_eq!(listed.info.profile_data.input_replica_id.json, "\"replica\"");
    assert!(matches!(listed.info.selection, Selection::Unset));
    assert!(matches!(listed.max_acl, Role::Full));

    // Everybody is sent the list, the new viewer too.
    assert!(matches!(to_viewer(&mut first), ViewerDown::ParticipantListUpdated(_)));
    assert!(matches!(
        to_sharer(&mut sharer),
        SharerDown::ParticipantListUpdated(list) if list.present_viewers.len() == 1
    ));
    let _second = join(&mut session, "b", 12);
    assert!(matches!(
        to_viewer(&mut first),
        ViewerDown::ParticipantListUpdated(list) if list.present_viewers.len() == 2
    ));
}

#[test]
fn any_number_of_viewers_may_join() {
    let (mut session, _sharer) = open();
    let mut viewers: Vec<Receiver<Outgoing>> = vec![];
    for n in 0..200 {
        viewers.push(join(&mut session, &format!("v{n}"), n));
    }
    assert_eq!(session.participants.present_viewers.len(), 200);
    for rx in viewers.iter_mut() {
        drain(rx);
    }
    sharer_ws::handle_message(&mut session, SharerUp::OrderedTerminalEvent(event(0)));
    for rx in viewers.iter_mut() {
        assert!(matches!(to_viewer(rx), ViewerDown::OrderedTerminalEvent(e) if e.event_no == 0));
    }
}

#[test]
fn sharer_messages_reach_every_viewer() {
    let (mut session, mut sharer, mut a, mut b) = with_two();

    let update =
        ActivePromptUpdate { active_prompt: payload("\"new\""), update: payload("\"update\"") };
    sharer_ws::handle_message(&mut session, SharerUp::UpdateActivePrompt(update));
    assert_eq!(session.active_prompt.json, "\"new\"");
    for rx in [&mut a, &mut b] {
        assert!(matches!(
            to_viewer(rx),
            ViewerDown::ActivePromptUpdated(u) if u.update.json == "\"update\""
        ));
    }

    sharer_ws::handle_message(
        &mut session,
        SharerUp::UpdateUniversalDeveloperInputContext(payload("\"context\"")),
    );
    sharer_ws::handle_message(&mut session, SharerUp::UpdateInput(payload("\"input\"")));
    sharer_ws::handle_message(
        &mut session,
        SharerUp::UpdateSelection(SelectionUpdate { selection: Selection::Value(payload("4")) }),
    );
    let new_role = SharerUp::UpdateRole {
        participant_id: pid("a"),
        role: Role::Other(payload("\"reader\"")),
    };
    sharer_ws::handle_message(&mut session, new_role);
    assert!(matches!(
        &session.participants.sharer.info.selection,
        Selection::Value(p) if p.json == "4"
    ));
    for rx in [&mut a, &mut b] {
        assert!(matches!(
            to_viewer(rx),
            ViewerDown::UniversalDeveloperInputContextUpdated(p) if p.json == "\"context\""
        ));
        assert!(matches!(to_viewer(rx), ViewerDown::InputUpdated(p) if p.json == "\"input\""));
        let ViewerDown::ParticipantPresenceUpdated(presence) = to_viewer(rx) else {
            panic!("expected a presence");
        };
        assert_eq!(presence.participant_id.text, "s1");
        let PresenceUpdate::Selection(selection) = presence.update;
        assert!(matches!(selection, Selection::Value(p) if p.json == "4"));
        let ViewerDown::ParticipantRoleChanged { participant_id, role } = to_viewer(rx) else {
            panic!("expected a role");
        };
        assert_eq!(participant_id.text, "a");
        assert!(matches!(role, Role::Other(p) if p.json == "\"reader\""));
        silent(rx);
    }
    silent(&mut sharer);
}

#[test]
fn viewer_requests_reach_the_sharer_in_its_name() {
    let (mut session, mut sharer, mut a, mut b) = with_two();
    let me = pid("a");
    let mut say = |message: ViewerUp| {
        viewer_ws::handle_message(&mut session, &me, message, payload("\"minted\""));
    };

    say(ViewerUp::WriteToPty { request_id: payload("\"w\""), bytes: vec![27, 65] });
    let SharerDown::WriteToPtyRequested { id, bytes } = to_sharer(&mut sharer) else {
        panic!("expected WriteToPtyRequested");
    };
    assert_eq!(id.json, "\"w\"");
    assert_eq!(bytes, vec![27, 65]);

    say(ViewerUp::SendAgentPrompt(AgentPromptRequest {
        id: payload("\"p\""),
        request: payload("\"whole\""),
    }));
    let SharerDown::AgentPromptRequested { id, participant_id, request } = to_sharer(&mut sharer)
    else {
        panic!("expected AgentPromptRequested");
    };
    assert_eq!(id.json, "\"p\"");
    assert_eq!(participant_id.text, "a");
    assert_eq!(request.request.json, "\"whole\"");

    say(ViewerUp::SendControlAction(payload("\"stop\"")));
    let SharerDown::ControlActionRequested { participant_id, request_id, action } =
        to_sharer(&mut sharer)
    else {
        panic!("expected ControlActionRequested");
    };
    assert_eq!(participant_id.text, "a");
    assert_eq!(request_id.json, "\"minted\"");
    assert_eq!(action.json, "\"stop\"");

    say(ViewerUp::ReportTerminalSize { window_size: payload("\"10x10\"") });
    let SharerDown::ViewerTerminalSizeReported { participant_id, window_size } =
        to_sharer(&mut sharer)
    else {
        panic!("expected ViewerTerminalSizeReported");
    };
    assert_eq!(participant_id.text, "a");
    assert_eq!(window_size.json, "\"10x10\"");

    silent(&mut sharer);
    silent(&mut a);
    silent(&mut b);
}

#[test]
fn viewer_input_and_selection_reach_the_others() {
    let (mut session, mut sharer, mut a, mut b) = with_two();
    let me = pid("a");

    viewer_ws::handle_message(
        &mut session,
        &me,
        ViewerUp::UpdateInput(payload("\"typed\"")),
        payload("0"),
    );
    assert!(matches!(
        to_sharer(&mut sharer),
        SharerDown::InputUpdated(p) if p.json == "\"typed\""
    ));
    assert!(matches!(to_viewer(&mut b), ViewerDown::InputUpdated(p) if p.json == "\"typed\""));

    let selected =
        ViewerUp::UpdateSelection(SelectionUpdate { selection: Selection::Value(payload("5")) });
    viewer_ws::handle_message(&mut session, &me, selected, payload("0"));
    let ViewerDown::ParticipantPresenceUpdated(presence) = to_viewer(&mut b) else {
        panic!("expected a presence");
    };
    assert_eq!(presence.participant_id.text, "a");

    silent(&mut sharer);
    silent(&mut a);
    silent(&mut b);
}

#[test]
fn requested_role_is_granted_and_announced() {
    let (mut session, mut sharer, mut a, mut b) = with_two();
    viewer_ws::handle_message(
        &mut session,
        &pid("a"),
        ViewerUp::RequestRole(Role::Other(payload("\"executor\""))),
        payload("0"),
    );
    let ViewerDown::RoleRequestResponse(RoleRequestResponse::Approved { new_role }) =
        to_viewer(&mut a)
    else {
        panic!("expected an approval");
    };
    assert!(matches!(new_role, Role::Other(p) if p.json == "\"executor\""));
    for rx in [&mut a, &mut b] {
        let ViewerDown::ParticipantRoleChanged { participant_id, role } = to_viewer(rx) else {
            panic!("expected a role");
        };
        assert_eq!(participant_id.text, "a");
        assert!(matches!(role, Role::Other(p) if p.json == "\"executor\""));
        silent(rx);
    }
    silent(&mut sharer);
}

#[test]
fn pings_are_answered_to_their_sender() {
    let (mut session, mut sharer, mut a, mut b) = with_two();
    sharer_ws::handle_message(&mut session, SharerUp::Ping { data: payload("1") });
    assert!(matches!(to_sharer(&mut sharer), SharerDown::Pong { data } if data.json == "1"));
    viewer_ws::handle_message(
        &mut session,
        &pid("b"),
        ViewerUp::Ping { data: payload("2") },
        payload("0"),
    );
    assert!(matches!(to_viewer(&mut b), ViewerDown::Pong { data } if data.json == "2"));
    silent(&mut sharer);
    silent(&mut a);
    silent(&mut b);
}

#[test]
fn messages_on_access_have_no_effect() {
    let (mut session, mut sharer, mut a, mut b) = with_two();
    for message in [
        SharerUp::RespondToRoleRequest,
        SharerUp::UpdateUserRole,
        SharerUp::UpdatePendingUserRole,
        SharerUp::UpdateAllRolesToReader,
        SharerUp::RejectInputUpdate,
        SharerUp::RejectCommandExecutionRequest,
        SharerUp::RejectWriteToPtyRequest,
        SharerUp::RejectAgentPromptRequest,
        SharerUp::RejectControlActionRequest,
        SharerUp::UpdateLinkAccessLevel,
        SharerUp::UpdateTeamAccessLevel,
        SharerUp::AddGuests,
        SharerUp::RemoveGuest,
        SharerUp::RemovePendingGuest,
        SharerUp::ExtendSessionRetention,
        SharerUp::Initialize(init()),
    ] {
        assert_eq!(sharer_ws::handle_message(&mut session, message), SharerFlow::Continues);
    }
    for message in [
        ViewerUp::CancelRoleRequest,
        ViewerUp::Reauthenticated,
        ViewerUp::UpdateUniversalDeveloperInputContext,
        ViewerUp::UpdateLinkAccessLevel,
        ViewerUp::UpdateTeamAccessLevel,
        ViewerUp::AddGuests,
        ViewerUp::RemoveGuest,
        ViewerUp::RemovePendingGuest,
        ViewerUp::UpdateUserRole,
        ViewerUp::UpdatePendingUserRole,
    ] {
        viewer_ws::handle_message(&mut session, &pid("a"), message, payload("0"));
    }
    silent(&mut sharer);
    silent(&mut a);
    silent(&mut b);
    assert_eq!(session.participants.present_viewers.len(), 2);
}

#[test]
fn leaving_viewer_is_unlisted_and_others_are_told() {
    let (mut session, mut sharer, mut a, mut b) = with_two();
    assert!(viewer_ws::leave(&mut session, &pid("a"), 11));
    assert!(matches!(a.try_recv(), Err(TryRecvError::Disconnected)));
    assert!(matches!(
        to_viewer(&mut b),
        ViewerDown::ParticipantListUpdated(list)
            if list.present_viewers.len() == 1 && list.present_viewers[0].info.id.text == "b"
    ));
    assert!(matches!(
        to_sharer(&mut sharer),
        SharerDown::ParticipantListUpdated(list) if list.present_viewers.len() == 1
    ));
    assert!(viewer_ws::leave(&mut session, &pid("b"), 12));
    assert_eq!(session.participants.present_viewers.len(), 0);
}

#[test]
fn highest_event_number_is_kept() {
    let (mut session, _sharer) = open();
    for n in [3, 7, 5] {
        session.record_and_broadcast_event(event(n));
    }
    assert_eq!(session.latest_event_no, Some(7));
    let numbers = |after: Option<usize>| -> Vec<usize> {
        session.events_after(after).iter().map(|e| e.event_no).collect()
    };
    assert_eq!(numbers(None), vec![3, 7, 5]);
    assert_eq!(numbers(Some(0)), vec![3, 7, 5]);
    assert_eq!(numbers(Some(3)), vec![7, 5]);
    assert_eq!(numbers(Some(5)), vec![7]);
    assert_eq!(numbers(Some(7)), Vec::<usize>::new());
}

#[test]
fn returning_viewer_misses_nothing_and_follows_on() {
    let (mut session, _sharer) = open();
    let mut a = join(&mut session, "a", 11);
    drain(&mut a);
    session.record_and_broadcast_event(event(0));
    session.record_and_broadcast_event(event(1));
    drop(a);
    assert!(viewer_ws::leave(&mut session, &pid("a"), 11));
    session.record_and_broadcast_event(event(2));
    session.record_and_broadcast_event(event(3));

    let mut back = rejoin(&mut session, "a", Some(1), 13);
    session.record_and_broadcast_event(event(4));

    assert!(matches!(to_viewer(&mut back), ViewerDown::OrderedTerminalEvent(e) if e.event_no == 2));
    assert!(matches!(to_viewer(&mut back), ViewerDown::OrderedTerminalEvent(e) if e.event_no == 3));
    assert!(matches!(to_viewer(&mut back), ViewerDown::RejoinedSuccessfully { .. }));
    assert!(matches!(to_viewer(&mut back), ViewerDown::OrderedTerminalEvent(e) if e.event_no == 4));
    silent(&mut back);
}

#[test]
fn late_end_of_an_earlier_connection_leaves_the_viewer_connected() {
    let (mut session, mut sharer, mut first, mut b) = with_two();
    session.record_and_broadcast_event(event(0));
    assert!(matches!(to_viewer(&mut b), ViewerDown::OrderedTerminalEvent(_)));

    // The viewer comes back before its first connection is seen to end.
    let mut second = rejoin(&mut session, "a", None, 13);
    assert!(matches!(to_viewer(&mut first), ViewerDown::OrderedTerminalEvent(_)));
    assert!(matches!(first.try_recv(), Err(TryRecvError::Disconnected)));
    assert!(matches!(to_viewer(&mut second), ViewerDown::OrderedTerminalEvent(_)));
    assert!(matches!(to_viewer(&mut second), ViewerDown::RejoinedSuccessfully { .. }));
    assert_eq!(session.viewers.connection_of(&pid("a")), Some(13));

    assert!(!viewer_ws::leave(&mut session, &pid("a"), 11));
    assert_eq!(session.viewers.connection_of(&pid("a")), Some(13));
    assert_eq!(session.participants.present_viewers.len(), 2);
    silent(&mut sharer);
    silent(&mut second);
    silent(&mut b);
    session.record_and_broadcast_event(event(1));
    for rx in [&mut second, &mut b] {
        assert!(matches!(to_viewer(rx), ViewerDown::OrderedTerminalEvent(e) if e.event_no == 1));
    }

    // The end of the connection that it is on takes it out.
    assert!(viewer_ws::leave(&mut session, &pid("a"), 13));
    assert_eq!(session.viewers.connection_of(&pid("a")), None);
    assert_eq!(session.participants.present_viewers.len(), 1);
    assert!(matches!(second.try_recv(), Err(TryRecvError::Disconnected)));
    assert!(matches!(to_viewer(&mut b), ViewerDown::ParticipantListUpdated(_)));
    assert!(matches!(to_sharer(&mut sharer), SharerDown::ParticipantListUpdated(_)));
}

#[test]
fn dropped_viewer_comes_back_and_outlives_its_stalled_connection() {
    let (mut session, mut sharer, stalled, mut b) = with_two();
    drop(stalled);
    session.record_and_broadcast_event(event(0));
    drain(&mut b);
    assert_eq!(session.viewers.connection_of(&pid("a")), None);

    let mut back = rejoin(&mut session, "a", None, 13);
    assert!(!viewer_ws::leave(&mut session, &pid("a"), 11));
    session.record_and_broadcast_event(event(1));
    assert!(matches!(to_viewer(&mut back), ViewerDown::OrderedTerminalEvent(e) if e.event_no == 0));
    assert!(matches!(to_viewer(&mut back), ViewerDown::RejoinedSuccessfully { .. }));
    assert!(matches!(to_viewer(&mut back), ViewerDown::OrderedTerminalEvent(e) if e.event_no == 1));
    silent(&mut back);
    silent(&mut sharer);
}

#[test]
fn each_queue_feeds_its_own_receiver() {
    let (tx1, mut rx1) = writer_channel();
    let (tx2, mut rx2) = writer_channel();
    let mut first = Some(tx1);
    let mut second = Some(tx2);
    for n in 0..3 {
        channel::send(&mut first, Outgoing::ToViewer(ViewerDown::OrderedTerminalEvent(event(n))));
    }
    channel::send(&mut second, Outgoing::ToViewer(ViewerDown::OrderedTerminalEvent(event(9))));
    for n in 0..3 {
        assert!(matches!(
            to_viewer(&mut rx1),
            ViewerDown::OrderedTerminalEvent(e) if e.event_no == n
        ));
    }
    silent(&mut rx1);
    assert!(matches!(to_viewer(&mut rx2), ViewerDown::OrderedTerminalEvent(e) if e.event_no == 9));
    silent(&mut rx2);
}

#[test]
fn queue_holds_its_bound_and_a_stalled_viewer_is_dropped() {
    let (mut session, mut sharer, mut stalled, mut reader) = with_two();
    assert_eq!(stalled.max_capacity(), WRITER_CHANNEL_CAP);
    for n in 0..WRITER_CHANNEL_CAP + 3 {
        sharer_ws::handle_message(&mut session, SharerUp::OrderedTerminalEvent(event(n)));
        drain(&mut sharer);
        assert!(matches!(
            to_viewer(&mut reader),
            ViewerDown::OrderedTerminalEvent(e) if e.event_no == n
        ));
    }
    // It sees everything up to the message at which it was dropped.
    for n in 0..WRITER_CHANNEL_CAP {
        assert!(matches!(
            to_viewer(&mut stalled),
            ViewerDown::OrderedTerminalEvent(e) if e.event_no == n
        ));
    }
    assert!(matches!(stalled.try_recv(), Err(TryRecvError::Disconnected)));
}

#[test]
fn viewer_whose_writer_is_gone_is_dropped() {
    let (mut session, _sharer, a, mut b) = with_two();
    drop(a);
    session.broadcast_viewers(ViewerDown::InputUpdated(payload("1")));
    assert!(matches!(to_viewer(&mut b), ViewerDown::InputUpdated(_)));
    assert!(session.viewers.take(&pid("a")).is_none());
    assert!(session.viewers.take(&pid("b")).is_some());
}

#[test]
fn sharer_whose_writer_is_gone_is_dropped() {
    let (mut session, sharer) = open();
    drop(sharer);
    assert!(session.sharer_tx.is_some());
    session.send_sharer(SharerDown::Pong { data: payload("1") });
    assert!(session.sharer_tx.is_none());
    session.send_sharer(SharerDown::Pong { data: payload("2") });
    assert!(session.sharer_tx.is_none());
}

#[test]
fn registry_finds_what_it_was_given() {
    let mut state = ServerState::with_config(Config {
        sharer_grace: Duration::from_secs(5),
        max_message_bytes: 64,
    });
    assert_eq!(state.config().sharer_grace, Duration::from_secs(5));
    assert_eq!(state.config().max_message_bytes, 64);
    assert!(state.get(&1).is_none());

    let (first, _rx1) = open();
    let (second, _rx2) = open();
    let first = Arc::new(Mutex::new(first));
    let second = Arc::new(Mutex::new(second));
    state.insert(1, first.clone());
    state.insert(2, second.clone());
    assert!(Arc::ptr_eq(&state.get(&1).unwrap(), &first));
    assert!(Arc::ptr_eq(&state.get(&2).unwrap(), &second));
    state.insert(1, second.clone());
    assert!(Arc::ptr_eq(&state.get(&1).unwrap(), &second));
    state.remove(&1);
    state.remove(&3);
    assert!(state.get(&1).is_none());
    assert!(Arc::ptr_eq(&state.get(&2).unwrap(), &second));
}

#[test]
fn a_session_that_is_over_leaves_the_others_live() {
    let mut state = ServerState::with_config(Config {
        sharer_grace: Duration::from_secs(5),
        max_message_bytes: 64,
    });
    let mut receivers: Vec<Receiver<Outgoing>> = vec![];
    for id in 1..4 {
        let (session, rx) = open();
        receivers.push(rx);
        state.insert(id, Arc::new(Mutex::new(session)));
    }
    state.conclude(&1, SharerFlow::Continues);
    assert!(state.get(&1).is_some());
    state.conclude(&1, SharerFlow::Ended);
    assert!(state.get(&1).is_none());

    let waiting = state.get(&2).unwrap();
    let mut session = waiting.try_lock().unwrap();
    assert!(!state.reap(&2, &mut session, 1));
    assert!(state.get(&2).is_some());
    assert!(session.sharer_disconnected(1));
    assert!(!state.reap(&2, &mut session, 7));
    assert!(state.get(&2).is_some());
    assert!(state.reap(&2, &mut session, 1));
    assert!(state.get(&2).is_none());
    assert!(state.get(&3).is_some());
    assert_eq!(state.config().max_message_bytes, 64);
}

#[test]
fn openings_wait_for_their_message() {
    assert!(matches!(
        sharer_ws::create_handshake(Frame::Message(SharerUp::Initialize(init()))),
        Handshake::Ready(p) if p.window_size.json == "\"24x80\""
    ));
    let ping = || SharerUp::Ping { data: payload("0") };
    assert!(matches!(
        sharer_ws::create_handshake(Frame::Message(ping())),
        Handshake::Waiting
    ));
    assert!(matches!(sharer_ws::create_handshake(Frame::Ignored), Handshake::Waiting));
    assert!(matches!(sharer_ws::create_handshake(Frame::Malformed), Handshake::Abandoned));
    assert!(matches!(sharer_ws::create_handshake(Frame::Closed), Handshake::Abandoned));
    assert!(matches!(sharer_ws::create_handshake(Frame::Failed), Handshake::Abandoned));

    let reconnect = sharer::ReconnectPayload {
        reconnect_token: ReconnectToken { text: "t".to_owned() },
    };
    assert!(matches!(
        sharer_ws::resume_handshake(Frame::Message(SharerUp::Reconnect(reconnect))),
        Handshake::Ready(p) if p.reconnect_token.text == "t"
    ));
    assert!(matches!(
        sharer_ws::resume_handshake(Frame::Message(SharerUp::Initialize(init()))),
        Handshake::Waiting
    ));
    assert!(matches!(sharer_ws::resume_handshake(Frame::Malformed), Handshake::Abandoned));

    let joining = viewer::InitPayload { viewer_id: None, last_received_event_no: Some(3) };
    assert!(matches!(
        viewer_ws::join_handshake(Frame::Message(ViewerUp::Initialize(joining))),
        Handshake::Ready(p) if p.last_received_event_no == Some(3)
    ));
    assert!(matches!(
        viewer_ws::join_handshake(Frame::Message(ViewerUp::AddGuests)),
        Handshake::Waiting
    ));
    assert!(matches!(viewer_ws::join_handshake(Frame::Closed), Handshake::Abandoned));
}

#[test]
fn open_connection_skips_what_it_cannot_read() {
    assert!(matches!(next_step(Frame::Message(4)), NextStep::Handle(4)));
    assert!(matches!(next_step::<u8>(Frame::Malformed), NextStep::Skip));
    assert!(matches!(next_step::<u8>(Frame::Ignored), NextStep::Skip));
    assert!(matches!(next_step::<u8>(Frame::Closed), NextStep::Stop));
    assert!(matches!(next_step::<u8>(Frame::Failed), NextStep::Stop));
}

#[test]
fn token_still_resumes_after_traffic() {
    let (mut session, sharer, _a, _b) = with_two();
    drop(sharer);
    session.record_and_broadcast_event(event(8));
    assert!(viewer_ws::leave(&mut session, &pid("b"), 12));
    assert!(session.sharer_disconnected(1));
    let (tx, mut back) = writer_channel();
    let reconnect = sharer::ReconnectPayload {
        reconnect_token: ReconnectToken { text: "token".to_owned() },
    };
    let outcome = sharer_ws::resume(Some(&mut session), reconnect, 2, tx);
    assert!(matches!(outcome, ResumeOutcome::Resumed));
    assert_eq!(session.session_id, 9);
    assert_eq!(session.sharer_connection, 2);
    let SharerDown::SessionReconnected { last_received_event_no, participant_list } =
        to_sharer(&mut back)
    else {
        panic!("expected SessionReconnected");
    };
    assert_eq!(last_received_event_no, Some(8));
    assert_eq!(participant_list.present_viewers.len(), 1);
    assert_eq!(participant_list.present_viewers[0].info.id.text, "a");
}

#[test]
fn sharer_gets_requests_and_acks_in_order() {
    let (mut session, mut sharer, _a, _b) = with_two();
    sharer_ws::handle_message(&mut session, SharerUp::OrderedTerminalEvent(event(0)));
    let run = ViewerUp::ExecuteCommand { buffer_id: payload("0"), command: "ls".to_owned() };
    viewer_ws::handle_message(&mut session, &pid("a"), run, payload("\"r\""));
    sharer_ws::handle_message(&mut session, SharerUp::OrderedTerminalEvent(event(1)));
    assert!(viewer_ws::leave(&mut session, &pid("b"), 12));

    assert!(matches!(
        to_sharer(&mut sharer),
        SharerDown::EventsProcessedAck { latest_processed_event_no: 0 }
    ));
    assert!(matches!(
        to_sharer(&mut sharer),
        SharerDown::CommandExecutionRequested { command, .. } if command == "ls"
    ));
    assert!(matches!(
        to_sharer(&mut sharer),
        SharerDown::EventsProcessedAck { latest_processed_event_no: 1 }
    ));
    assert!(matches!(to_sharer(&mut sharer), SharerDown::ParticipantListUpdated(_)));
    silent(&mut sharer);
}
