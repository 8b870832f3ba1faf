//! A viewer's connection: joining a session, what each of its messages does,
//! and leaving.

use crate::channel::{self, link_after, sending_composes, Outgoing, Tx};
use crate::common::{
    clone_text, OrderedTerminalEvent, ParticipantId, ParticipantList, Payload, Role,
    RoleRequestResponse,
};
use crate::frame::{Frame, Handshake};
use crate::session::{listed_as_viewer, newer_than, without_viewer, Session};
use crate::sharer;
use crate::sharer_ws::{presence_of, presence_update_for};
use crate::viewer::{DownstreamMessage, FailedToJoinReason, InitPayload, UpstreamMessage};
use crate::viewers::{
    connection_at, link_to, seat, seat_after, seat_at, table_after, table_with, to_all, to_one, Seat,
};
use vstd::prelude::*;

verus! {

/// The opening of a viewer's connection: other messages before `Initialize`
/// are passed over, and a malformed one ends it.
pub fn join_handshake(frame: Frame<UpstreamMessage>) -> (progress: Handshake<InitPayload>)
    ensures
        progress == match frame {
            Frame::Message(UpstreamMessage::Initialize(init)) => Handshake::Ready(init),
            Frame::Message(_) => Handshake::Waiting,
            Frame::Ignored => Handshake::Waiting,
            Frame::Malformed => Handshake::Abandoned,
            Frame::Closed => Handshake::Abandoned,
            Frame::Failed => Handshake::Abandoned,
        },
{
    match frame {
        Frame::Message(UpstreamMessage::Initialize(init)) => Handshake::Ready(init),
        Frame::Message(_) | Frame::Ignored => Handshake::Waiting,
        Frame::Malformed | Frame::Closed | Frame::Failed => Handshake::Abandoned,
    }
}

/// What became of a viewer's attempt to join.
pub enum JoinOutcome {
    /// A new viewer joined, under this identifier.
    Joined { viewer_id: ParticipantId },
    /// A viewer came back under the identifier it had.
    Rejoined { viewer_id: ParticipantId },
    /// The viewer was told why not; the connection is to be closed once its
    /// queue is drained.
    Refused { link: Option<Tx> },
}

/// The answer to a viewer that asks for a session that is not there.
pub open spec fn refusal() -> Outgoing {
    Outgoing::ToViewer(
        DownstreamMessage::FailedToJoin { reason: FailedToJoinReason::SessionNotFound },
    )
}

/// The messages that hand `events` to a viewer.
pub open spec fn replay(events: Seq<OrderedTerminalEvent>) -> Seq<Outgoing> {
    events.map_values(
        |e: OrderedTerminalEvent| Outgoing::ToViewer(DownstreamMessage::OrderedTerminalEvent(e)),
    )
}

/// What a viewer is sent that came back: what it missed, then the list of
/// participants.
pub open spec fn rejoin_messages(session: Session, after: Option<usize>) -> Seq<Outgoing> {
    replay(newer_than(session.events@, after)).push(
        Outgoing::ToViewer(
            DownstreamMessage::RejoinedSuccessfully { participant_list: session.participants },
        ),
    )
}

/// What a new viewer needs to show `session`, in which it is listed last.
pub open spec fn welcome(session: Session, viewer_id: ParticipantId) -> Outgoing {
    let listed = session.participants.present_viewers@.last();
    Outgoing::ToViewer(
        DownstreamMessage::JoinedSuccessfully {
            scrollback: session.scrollback,
            active_prompt: session.active_prompt,
            latest_event_no: session.latest_event_no,
            window_size: session.window_size,
            participant_list: session.participants,
            viewer_id,
            viewer_firebase_uid: listed.info.profile_data.firebase_uid,
            init_block_id: session.init_block_id,
            input_replica_id: session.input_replica_id,
            universal_developer_input_context: None,
            source_type: session.source_type,
            source_task_id: session.source_task_id,
        },
    )
}

/// The new list of participants, to the sharer.
pub open spec fn list_to_sharer(list: ParticipantList) -> Outgoing {
    Outgoing::ToSharer(sharer::DownstreamMessage::ParticipantListUpdated(list))
}

/// The new list of participants, to a viewer.
pub open spec fn list_to_viewer(list: ParticipantList) -> Outgoing {
    Outgoing::ToViewer(DownstreamMessage::ParticipantListUpdated(list))
}

/// A viewer came back to `before` as `viewer_id`, on `new`, in place of the
/// seat that it had if it was still connected.
pub open spec fn rejoined(
    before: Session,
    viewer_id: ParticipantId,
    last_received_event_no: Option<usize>,
    new: Seat,
    after: Session,
) -> bool {
    &&& after == Session { viewers: after.viewers, ..before }
    &&& after.viewers@ == table_with(
        before.viewers@,
        viewer_id@,
        seat_at(after.viewers@, viewer_id@),
    )
    &&& seat_after(
        Some(new),
        seat_at(after.viewers@, viewer_id@),
        rejoin_messages(before, last_received_event_no),
    )
}

/// A new viewer joined `before` as `viewer_id`, on `new`: it is listed and
/// welcomed, and everybody is sent the new list.
pub open spec fn joined(
    before: Session,
    viewer_id: ParticipantId,
    new: Seat,
    after: Session,
) -> bool {
    let listed = after.participants.present_viewers@;
    &&& after == Session {
        participants: after.participants,
        sharer_tx: after.sharer_tx,
        viewers: after.viewers,
        ..before
    }
    &&& after.participants.sharer == before.participants.sharer
    &&& listed.len() == before.participants.present_viewers@.len() + 1
    &&& listed.drop_last() == before.participants.present_viewers@
    &&& listed_as_viewer(listed.last(), viewer_id, before.input_replica_id)
    &&& link_after(before.sharer_tx, after.sharer_tx, seq![list_to_sharer(after.participants)])
    &&& seat_after(
        Some(new),
        seat_at(after.viewers@, viewer_id@),
        seq![welcome(after, viewer_id), list_to_viewer(after.participants)],
    )
    &&& forall|id: Seq<char>|
        #![trigger seat_at(after.viewers@, id)]
        #![trigger seat_at(before.viewers@, id)]
        id != viewer_id@ ==> seat_after(
            seat_at(before.viewers@, id),
            seat_at(after.viewers@, id),
            seq![list_to_viewer(after.participants)],
        )
}

/// Lets a viewer into a session, `session` being what the registry holds under
/// the identifier that the viewer asked for. Nobody is turned away from a
/// session that is there.
///
/// A viewer that names itself comes back: it is sent the events it missed. Any
/// other gets `fresh_id`, which the caller minted, as it did the number of the
/// connection.
pub fn join(
    session: Option<&mut Session>,
    init: InitPayload,
    fresh_id: ParticipantId,
    connection: u64,
    tx: Tx,
) -> (outcome: JoinOutcome)
    requires
        match session {
            None => true,
            Some(s) => s.wf(),
        },
    ensures
        match session {
            None => outcome matches JoinOutcome::Refused { link } && link_after(
                Some(tx),
                link,
                seq![refusal()],
            ),
            Some(s) => final(s).wf() && match init.viewer_id {
                Some(viewer_id) => {
                    &&& outcome == (JoinOutcome::Rejoined { viewer_id })
                    &&& rejoined(
                        *s,
                        viewer_id,
                        init.last_received_event_no,
                        Seat { connection, tx },
                        *final(s),
                    )
                },
                None => {
                    &&& outcome == (JoinOutcome::Joined { viewer_id: fresh_id })
                    &&& joined(*s, fresh_id, Seat { connection, tx }, *final(s))
                },
            },
        },
{
    match session {
        None => {
            let mut link = Some(tx);
            channel::send(
                &mut link,
                Outgoing::ToViewer(
                    DownstreamMessage::FailedToJoin { reason: FailedToJoinReason::SessionNotFound },
                ),
            );
            JoinOutcome::Refused { link }
        },
        Some(s) => {
            match init.viewer_id {
                Some(viewer_id) => {
                    rejoin(s, &viewer_id, init.last_received_event_no, connection, tx);
                    JoinOutcome::Rejoined { viewer_id }
                },
                None => {
                    join_fresh(s, &fresh_id, connection, tx);
                    JoinOutcome::Joined { viewer_id: fresh_id }
                },
            }
        },
    }
}

/// Brings a viewer back and up to date.
fn rejoin(
    s: &mut Session,
    viewer_id: &ParticipantId,
    last_received_event_no: Option<usize>,
    connection: u64,
    tx: Tx,
)
    requires
        old(s).wf(),
    ensures
        final(s).wf(),
        rejoined(
            *old(s),
            *viewer_id,
            last_received_event_no,
            (Seat { connection, tx }),
            *final(s),
        ),
{
    let missed = s.events_after(last_received_event_no);
    let mut link = Some(tx);
    let mut i: usize = 0;
    assert(replay(missed@.take(0)) =~= Seq::<Outgoing>::empty());
    while i < missed.len()
        invariant
            i <= missed@.len(),
            link_after(Some(tx), link, replay(missed@.take(i as int))),
        decreases missed@.len() - i,
    {
        let ghost between = link;
        let event = missed[i].clone();
        channel::send(
            &mut link,
            Outgoing::ToViewer(DownstreamMessage::OrderedTerminalEvent(event)),
        );
        proof {
            let sent = seq![
                Outgoing::ToViewer(DownstreamMessage::OrderedTerminalEvent(missed@[i as int])),
            ];
            sending_composes(Some(tx), between, link, replay(missed@.take(i as int)), sent);
            assert(replay(missed@.take(i as int)) + sent =~= replay(missed@.take(i + 1)));
        }
        i = i + 1;
    }
    assert(missed@.take(i as int) =~= missed@);
    let ghost between = link;
    let participant_list = s.participants.clone();
    channel::send(
        &mut link,
        Outgoing::ToViewer(DownstreamMessage::RejoinedSuccessfully { participant_list }),
    );
    proof {
        let sent = seq![
            Outgoing::ToViewer(
                DownstreamMessage::RejoinedSuccessfully { participant_list: s.participants },
            ),
        ];
        sending_composes(Some(tx), between, link, replay(missed@), sent);
        assert(replay(missed@) + sent =~= rejoin_messages(*s, last_received_event_no));
    }
    s.viewers.put(viewer_id.clone(), seat(connection, link));
}

/// Lists a new viewer, welcomes it, and tells everybody.
fn join_fresh(s: &mut Session, viewer_id: &ParticipantId, connection: u64, tx: Tx)
    requires
        old(s).wf(),
    ensures
        final(s).wf(),
        joined(*old(s), *viewer_id, (Seat { connection, tx }), *final(s)),
{
    let replica = s.input_replica_id.clone();
    s.add_present_viewer(viewer_id.clone(), replica);
    let list = s.participants.clone();
    let newest = list.present_viewers.len() - 1;
    let viewer_firebase_uid = list.present_viewers[newest].info.profile_data.firebase_uid.clone();
    let mut link = Some(tx);
    channel::send(
        &mut link,
        Outgoing::ToViewer(
            DownstreamMessage::JoinedSuccessfully {
                scrollback: s.scrollback.clone(),
                active_prompt: s.active_prompt.clone(),
                latest_event_no: s.latest_event_no,
                window_size: s.window_size.clone(),
                participant_list: s.participants.clone(),
                viewer_id: viewer_id.clone(),
                viewer_firebase_uid,
                init_block_id: s.init_block_id.clone(),
                input_replica_id: s.input_replica_id.clone(),
                universal_developer_input_context: None,
                source_type: s.source_type.clone(),
                source_task_id: clone_text(&s.source_task_id),
            },
        ),
    );
    let ghost welcomed = link;
    s.viewers.put(viewer_id.clone(), seat(connection, link));
    let ghost placed = s.viewers@;
    s.send_sharer(sharer::DownstreamMessage::ParticipantListUpdated(list.clone()));
    s.broadcast_viewers(DownstreamMessage::ParticipantListUpdated(list));
    proof {
        let me = viewer_id@;
        assert(link_to(placed, me) == welcomed);
        assert(seat_after(
            seat_at(placed, me),
            seat_at(s.viewers@, me),
            seq![list_to_viewer(s.participants)],
        ));
        sending_composes(
            Some(tx),
            welcomed,
            link_to(s.viewers@, me),
            seq![welcome(*s, *viewer_id)],
            seq![list_to_viewer(s.participants)],
        );
        assert(seq![welcome(*s, *viewer_id)] + seq![list_to_viewer(s.participants)] =~= seq![
            welcome(*s, *viewer_id),
            list_to_viewer(s.participants),
        ]);
        assert forall|id: Seq<char>|
            #![trigger seat_at(s.viewers@, id)]
            #![trigger seat_at(old(s).viewers@, id)]
            id != me implies seat_after(
            seat_at(old(s).viewers@, id),
            seat_at(s.viewers@, id),
            seq![list_to_viewer(s.participants)],
        ) by {
            assert(seat_at(placed, id) == seat_at(old(s).viewers@, id));
        }
    }
}

/// What the sharer is sent for `message` of the viewer `viewer_id`: requests go
/// out in the viewer's name, those that have no identifier yet under
/// `request_id`.
pub open spec fn to_sharer(
    viewer_id: ParticipantId,
    message: UpstreamMessage,
    request_id: Payload,
) -> Seq<Outgoing> {
    match message {
        UpstreamMessage::ExecuteCommand { buffer_id, command } => seq![
            Outgoing::ToSharer(
                sharer::DownstreamMessage::CommandExecutionRequested {
                    id: request_id,
                    participant_id: viewer_id,
                    buffer_id,
                    command,
                },
            ),
        ],
        UpstreamMessage::WriteToPty { request_id: id, bytes } => seq![
            Outgoing::ToSharer(sharer::DownstreamMessage::WriteToPtyRequested { id, bytes }),
        ],
        UpstreamMessage::SendAgentPrompt(request) => seq![
            Outgoing::ToSharer(
                sharer::DownstreamMessage::AgentPromptRequested {
                    id: request.id,
                    participant_id: viewer_id,
                    request,
                },
            ),
        ],
        UpstreamMessage::SendControlAction(action) => seq![
            Outgoing::ToSharer(
                sharer::DownstreamMessage::ControlActionRequested {
                    participant_id: viewer_id,
                    request_id,
                    action,
                },
            ),
        ],
        UpstreamMessage::ReportTerminalSize { window_size } => seq![
            Outgoing::ToSharer(
                sharer::DownstreamMessage::ViewerTerminalSizeReported {
                    participant_id: viewer_id,
                    window_size,
                },
            ),
        ],
        UpstreamMessage::UpdateInput(update) => seq![
            Outgoing::ToSharer(sharer::DownstreamMessage::InputUpdated(update)),
        ],
        _ => Seq::empty(),
    }
}

/// What the viewer `recipient` is sent for `message` of the viewer `viewer_id`.
pub open spec fn to_viewer(
    recipient: Seq<char>,
    viewer_id: ParticipantId,
    message: UpstreamMessage,
) -> Seq<Outgoing> {
    let is_sender = recipient == viewer_id@;
    match message {
        UpstreamMessage::Ping { data } if is_sender => seq![
            Outgoing::ToViewer(DownstreamMessage::Pong { data }),
        ],
        UpstreamMessage::UpdateInput(update) if !is_sender => seq![
            Outgoing::ToViewer(DownstreamMessage::InputUpdated(update)),
        ],
        UpstreamMessage::UpdateSelection(update) if !is_sender => seq![
            Outgoing::ToViewer(
                DownstreamMessage::ParticipantPresenceUpdated(
                    presence_of(viewer_id, update.selection),
                ),
            ),
        ],
        UpstreamMessage::RequestRole(role) => {
            let changed = Outgoing::ToViewer(
                DownstreamMessage::ParticipantRoleChanged { participant_id: viewer_id, role },
            );
            if is_sender {
                let approved = Outgoing::ToViewer(
                    DownstreamMessage::RoleRequestResponse(
                        RoleRequestResponse::Approved { new_role: role },
                    ),
                );
                seq![approved, changed]
            } else {
                seq![changed]
            }
        },
        _ => Seq::empty(),
    }
}

/// `after` is `before` once `message` of the viewer `viewer_id` is handled:
/// everybody was sent what is theirs, and nothing else has changed.
pub open spec fn handled(
    before: Session,
    viewer_id: ParticipantId,
    message: UpstreamMessage,
    request_id: Payload,
    after: Session,
) -> bool {
    &&& after == Session { sharer_tx: after.sharer_tx, viewers: after.viewers, ..before }
    &&& link_after(before.sharer_tx, after.sharer_tx, to_sharer(viewer_id, message, request_id))
    &&& table_after(
        before.viewers@,
        after.viewers@,
        |id: Seq<char>| to_viewer(id, viewer_id, message),
    )
}

/// Handles a message of a viewer that has joined.
///
/// Control requests go to the sharer; input and selection go to the other
/// viewers; a role that is asked for is granted at once and announced to all.
/// Messages on access levels, guests and users have no effect, for no access
/// is restricted. `request_id`, which the caller minted, names the requests
/// that come without an identifier.
pub fn handle_message(
    session: &mut Session,
    viewer_id: &ParticipantId,
    message: UpstreamMessage,
    request_id: Payload,
)
    requires
        old(session).wf(),
    ensures
        final(session).wf(),
        handled(*old(session), *viewer_id, message, request_id, *final(session)),
{
    match message {
        UpstreamMessage::Initialize(_) => {},
        UpstreamMessage::Ping { data } => {
            session.viewers.send_to(viewer_id, DownstreamMessage::Pong { data });
        },
        UpstreamMessage::ExecuteCommand { buffer_id, command } => {
            session.send_sharer(
                sharer::DownstreamMessage::CommandExecutionRequested {
                    id: request_id,
                    participant_id: viewer_id.clone(),
                    buffer_id,
                    command,
                },
            );
        },
        UpstreamMessage::WriteToPty { request_id: id, bytes } => {
            session.send_sharer(sharer::DownstreamMessage::WriteToPtyRequested { id, bytes });
        },
        UpstreamMessage::SendAgentPrompt(request) => {
            session.send_sharer(
                sharer::DownstreamMessage::AgentPromptRequested {
                    id: request.id.clone(),
                    participant_id: viewer_id.clone(),
                    request,
                },
            );
        },
        UpstreamMessage::SendControlAction(action) => {
            session.send_sharer(
                sharer::DownstreamMessage::ControlActionRequested {
                    participant_id: viewer_id.clone(),
                    request_id,
                    action,
                },
            );
        },
        UpstreamMessage::ReportTerminalSize { window_size } => {
            session.send_sharer(
                sharer::DownstreamMessage::ViewerTerminalSizeReported {
                    participant_id: viewer_id.clone(),
                    window_size,
                },
            );
        },
        UpstreamMessage::UpdateInput(update) => {
            session.send_sharer(sharer::DownstreamMessage::InputUpdated(update.clone()));
            session.viewers.fan_out(Some(viewer_id), DownstreamMessage::InputUpdated(update));
        },
        UpstreamMessage::UpdateSelection(update) => {
            let presence = presence_update_for(viewer_id, update.selection);
            session.viewers.fan_out(
                Some(viewer_id),
                DownstreamMessage::ParticipantPresenceUpdated(presence),
            );
        },
        UpstreamMessage::RequestRole(role) => {
            grant_role(session, viewer_id, role);
        },
        UpstreamMessage::CancelRoleRequest
        | UpstreamMessage::Reauthenticated
        | UpstreamMessage::UpdateUniversalDeveloperInputContext
        | UpstreamMessage::UpdateLinkAccessLevel
        | UpstreamMessage::UpdateTeamAccessLevel
        | UpstreamMessage::AddGuests
        | UpstreamMessage::RemoveGuest
        | UpstreamMessage::RemovePendingGuest
        | UpstreamMessage::UpdateUserRole
        | UpstreamMessage::UpdatePendingUserRole => {},
    }
}

/// Approves a viewer's request for a role, and tells every viewer.
fn grant_role(session: &mut Session, viewer_id: &ParticipantId, role: Role)
    requires
        old(session).wf(),
    ensures
        final(session).wf(),
        *final(session) == (Session { viewers: final(session).viewers, ..*old(session) }),
        table_after(
            old(session).viewers@,
            final(session).viewers@,
            |id: Seq<char>| to_viewer(id, *viewer_id, UpstreamMessage::RequestRole(role)),
        ),
{
    let ghost before = session.viewers@;
    let approved = DownstreamMessage::RoleRequestResponse(
        RoleRequestResponse::Approved { new_role: role.clone() },
    );
    session.viewers.send_to(viewer_id, approved);
    let ghost between = session.viewers@;
    let changed = DownstreamMessage::ParticipantRoleChanged {
        participant_id: viewer_id.clone(),
        role,
    };
    session.broadcast_viewers(changed);
    proof {
        let request = UpstreamMessage::RequestRole(role);
        assert forall|id: Seq<char>|
            #![trigger seat_at(before, id)]
            #![trigger seat_at(session.viewers@, id)]
            seat_after(
                seat_at(before, id),
                seat_at(session.viewers@, id),
                to_viewer(id, *viewer_id, request),
            ) by {
            let first = to_one(viewer_id@, approved)(id);
            let second = to_all(changed)(id);
            sending_composes(
                link_to(before, id),
                link_to(between, id),
                link_to(session.viewers@, id),
                first,
                second,
            );
            assert(first + second =~= to_viewer(id, *viewer_id, request));
        }
    }
}

/// `viewer_id` left `before`: it is neither connected nor listed any more, and
/// everybody else is sent the new list.
pub open spec fn left(before: Session, viewer_id: Seq<char>, after: Session) -> bool {
    &&& after == Session {
        participants: after.participants,
        sharer_tx: after.sharer_tx,
        viewers: after.viewers,
        ..before
    }
    &&& after.participants.sharer == before.participants.sharer
    &&& after.participants.present_viewers@ == without_viewer(
        before.participants.present_viewers@,
        viewer_id,
    )
    &&& link_after(before.sharer_tx, after.sharer_tx, seq![list_to_sharer(after.participants)])
    &&& table_after(
        before.viewers@.remove(viewer_id),
        after.viewers@,
        |id: Seq<char>| seq![list_to_viewer(after.participants)],
    )
}

/// The viewer `viewer_id` is connected on another connection than `connection`:
/// it has come back since.
pub open spec fn superseded(session: Session, viewer_id: Seq<char>, connection: u64) -> bool {
    connection_at(session.viewers@, viewer_id) matches Some(current) && current != connection
}

/// Takes the viewer whose connection `connection` is over out of the session,
/// and tells the others. If the viewer has come back on another connection
/// since, it stays. Tells whether the viewer is gone.
pub fn leave(session: &mut Session, viewer_id: &ParticipantId, connection: u64) -> (gone: bool)
    requires
        old(session).wf(),
    ensures
        final(session).wf(),
        gone == !superseded(*old(session), viewer_id@, connection),
        gone ==> left(*old(session), viewer_id@, *final(session)),
        !gone ==> *final(session) == *old(session),
{
    match session.viewers.connection_of(viewer_id) {
        Some(current) if current != connection => {
            return false;
        },
        _ => {},
    }
    let _ = session.viewers.take(viewer_id);
    session.remove_present_viewer(viewer_id);
    let list = session.participants.clone();
    session.send_sharer(sharer::DownstreamMessage::ParticipantListUpdated(list.clone()));
    session.broadcast_viewers(DownstreamMessage::ParticipantListUpdated(list));
    true
}

} // verus!
