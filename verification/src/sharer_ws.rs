//! The sharer's connection: starting a session, resuming it, and what each of
//! its messages does.

use crate::channel::{self, link_after, Outgoing, Tx};
use crate::common::{
    ParticipantId, ParticipantInfo, ParticipantList, ParticipantPresenceUpdate, Payload,
    PresenceUpdate, ReconnectToken, Selection, SessionId, Sharer,
};
use crate::frame::{Frame, Handshake};
use crate::session::{attached, highest, most_recent, Session, MAX_EVENT_LOG};
use crate::sharer::{
    DownstreamMessage, InitPayload, ReconnectPayload, ReconnectionFailedReason, UpstreamMessage,
};
use crate::viewer;
use crate::viewers::table_after;
use vstd::prelude::*;

verus! {

/// The opening of a connection that starts a session: other messages before
/// `Initialize` are passed over, and a malformed one ends it.
pub fn create_handshake(frame: Frame<UpstreamMessage>) -> (progress: Handshake<InitPayload>)
    ensures
        progress == match frame {
            Frame::Message(UpstreamMessage::Initialize(init)) => Handshake::Ready(init),
            Frame::Message(_) => Handshake::Waiting,
            Frame::Ignored => Handshake::Waiting,
            Frame::Malformed => Handshake::Abandoned,
            Frame::Closed => Handshake::Abandoned,
            Frame::Failed => Handshake::Abandoned,
        },
{
    match frame {
        Frame::Message(UpstreamMessage::Initialize(init)) => Handshake::Ready(init),
        Frame::Message(_) | Frame::Ignored => Handshake::Waiting,
        Frame::Malformed | Frame::Closed | Frame::Failed => Handshake::Abandoned,
    }
}

/// The opening of a connection that resumes a session: other messages before
/// `Reconnect` are passed over, and a malformed one ends it.
pub fn resume_handshake(frame: Frame<UpstreamMessage>) -> (progress: Handshake<ReconnectPayload>)
    ensures
        progress == match frame {
            Frame::Message(UpstreamMessage::Reconnect(reconnect)) => Handshake::Ready(reconnect),
            Frame::Message(_) => Handshake::Waiting,
            Frame::Ignored => Handshake::Waiting,
            Frame::Malformed => Handshake::Abandoned,
            Frame::Closed => Handshake::Abandoned,
            Frame::Failed => Handshake::Abandoned,
        },
{
    match frame {
        Frame::Message(UpstreamMessage::Reconnect(reconnect)) => Handshake::Ready(reconnect),
        Frame::Message(_) | Frame::Ignored => Handshake::Waiting,
        Frame::Malformed | Frame::Closed | Frame::Failed => Handshake::Abandoned,
    }
}

/// Starts a session on a sharer's connection, and tells the sharer how the
/// session is named and what it needs to resume it.
///
/// The identifiers and secrets are minted by the caller, and so is the number
/// of the connection.
pub fn create(
    session_id: SessionId,
    sharer_id: ParticipantId,
    reconnect_token: ReconnectToken,
    session_secret: Payload,
    connection: u64,
    init: InitPayload,
    tx: Tx,
) -> (session: Session)
    ensures
        session.wf(),
        (Session { sharer_tx: None, sharer_connection: 0, ..session }).is_fresh(
            session_id,
            sharer_id,
            reconnect_token,
            init,
        ),
        session.sharer_connection == connection,
        link_after(
            Some(tx),
            session.sharer_tx,
            seq![
                Outgoing::ToSharer(
                    DownstreamMessage::SessionInitialized {
                        session_id,
                        session_secret,
                        reconnect_token,
                        sharer_id,
                        sharer_firebase_uid: session.sharer_firebase_uid,
                    },
                ),
            ],
        ),
{
    let mut session = Session::new(
        session_id,
        sharer_id.clone(),
        reconnect_token.clone(),
        init,
    );
    session.attach_sharer(connection, tx);
    let sharer_firebase_uid = session.sharer_firebase_uid.clone();
    session.send_sharer(
        DownstreamMessage::SessionInitialized {
            session_id,
            session_secret,
            reconnect_token,
            sharer_id,
            sharer_firebase_uid,
        },
    );
    session
}

/// What became of a sharer's attempt to resume.
pub enum ResumeOutcome {
    Resumed,
    /// The sharer was told why not; the connection is to be closed once its
    /// queue is drained.
    Refused { link: Option<Tx> },
}

/// A sharer took `before` up again on the connection `connection`: it is told
/// how far the session has got and who takes part.
pub open spec fn resumed(before: Session, connection: u64, tx: Tx, after: Session) -> bool {
    &&& after == attached(before, connection, after.sharer_tx)
    &&& link_after(
        Some(tx),
        after.sharer_tx,
        seq![
            Outgoing::ToSharer(
                DownstreamMessage::SessionReconnected {
                    last_received_event_no: before.latest_event_no,
                    participant_list: before.participants,
                },
            ),
        ],
    )
}

/// Resumes a session on a new connection of its sharer, `session` being what
/// the registry holds under the identifier that the sharer asked for. Only the
/// token that was handed out when the session was created takes over the
/// sharer's role.
pub fn resume(
    session: Option<&mut Session>,
    reconnect: ReconnectPayload,
    connection: u64,
    tx: Tx,
) -> (outcome: ResumeOutcome)
    requires
        match session {
            None => true,
            Some(s) => s.wf(),
        },
    ensures
        match session {
            None => outcome matches ResumeOutcome::Refused { link } && link_after(
                Some(tx),
                link,
                seq![refusal(ReconnectionFailedReason::SessionNotFound)],
            ),
            Some(s) => final(s).wf() && if s.reconnect_token@ == reconnect.reconnect_token@ {
                &&& outcome is Resumed
                &&& resumed(*s, connection, tx, *final(s))
            } else {
                &&& *final(s) == *s
                &&& outcome matches ResumeOutcome::Refused { link } && link_after(
                    Some(tx),
                    link,
                    seq![refusal(ReconnectionFailedReason::WrongReconnectionToken)],
                )
            },
        },
{
    match session {
        None => {
            let mut link = Some(tx);
            channel::send(
                &mut link,
                Outgoing::ToSharer(
                    DownstreamMessage::FailedToReconnect {
                        reason: ReconnectionFailedReason::SessionNotFound,
                    },
                ),
            );
            ResumeOutcome::Refused { link }
        },
        Some(s) => {
            if s.reconnect_token.text == reconnect.reconnect_token.text {
                s.attach_sharer(connection, tx);
                let last_received_event_no = s.latest_event_no;
                let participant_list = s.participants.clone();
                s.send_sharer(
                    DownstreamMessage::SessionReconnected {
                        last_received_event_no,
                        participant_list,
                    },
                );
                ResumeOutcome::Resumed
            } else {
                let mut link = Some(tx);
                channel::send(
                    &mut link,
                    Outgoing::ToSharer(
                        DownstreamMessage::FailedToReconnect {
                            reason: ReconnectionFailedReason::WrongReconnectionToken,
                        },
                    ),
                );
                ResumeOutcome::Refused { link }
            }
        },
    }
}

/// The answer to a sharer that cannot resume.
pub open spec fn refusal(reason: ReconnectionFailedReason) -> Outgoing {
    Outgoing::ToSharer(DownstreamMessage::FailedToReconnect { reason })
}

/// Whether a session goes on after a message of its sharer.
#[derive(PartialEq, Eq, Structural, Debug, Clone, Copy)]
pub enum SharerFlow {
    Continues,
    /// The session is over and leaves the registry.
    Ended,
}

/// What `message` of the sharer makes of the session: only the request to end
/// it does.
pub open spec fn flow_after(message: UpstreamMessage) -> SharerFlow {
    if message is EndSession {
        SharerFlow::Ended
    } else {
        SharerFlow::Continues
    }
}

/// What the sharer is sent back for `message`.
pub open spec fn to_sharer(message: UpstreamMessage) -> Seq<Outgoing> {
    match message {
        UpstreamMessage::OrderedTerminalEvent(event) => seq![
            Outgoing::ToSharer(
                DownstreamMessage::EventsProcessedAck {
                    latest_processed_event_no: event.event_no,
                },
            ),
        ],
        UpstreamMessage::Ping { data } => seq![
            Outgoing::ToSharer(DownstreamMessage::Pong { data }),
        ],
        _ => Seq::empty(),
    }
}

/// What each viewer is sent for `message` of the sharer `sharer_id`.
pub open spec fn to_viewers(sharer_id: ParticipantId, message: UpstreamMessage) -> Seq<Outgoing> {
    match message {
        UpstreamMessage::OrderedTerminalEvent(event) => seq![
            Outgoing::ToViewer(viewer::DownstreamMessage::OrderedTerminalEvent(event)),
        ],
        UpstreamMessage::UpdateActivePrompt(update) => seq![
            Outgoing::ToViewer(viewer::DownstreamMessage::ActivePromptUpdated(update)),
        ],
        UpstreamMessage::UpdateUniversalDeveloperInputContext(update) => seq![
            Outgoing::ToViewer(
                viewer::DownstreamMessage::UniversalDeveloperInputContextUpdated(update),
            ),
        ],
        UpstreamMessage::UpdateSelection(update) => seq![
            Outgoing::ToViewer(
                viewer::DownstreamMessage::ParticipantPresenceUpdated(
                    presence_of(sharer_id, update.selection),
                ),
            ),
        ],
        UpstreamMessage::UpdateInput(update) => seq![
            Outgoing::ToViewer(viewer::DownstreamMessage::InputUpdated(update)),
        ],
        UpstreamMessage::EndSession => seq![
            Outgoing::ToViewer(
                viewer::DownstreamMessage::SessionEnded {
                    reason: viewer::SessionEndedReason::EndedBySharer,
                },
            ),
        ],
        UpstreamMessage::UpdateRole { participant_id, role } => seq![
            Outgoing::ToViewer(
                viewer::DownstreamMessage::ParticipantRoleChanged { participant_id, role },
            ),
        ],
        _ => Seq::empty(),
    }
}

/// How `message` of the sharer changes what the session remembers. What it
/// does to the connections is not looked at here.
pub open spec fn remembers(before: Session, message: UpstreamMessage, after: Session) -> bool {
    let frame = Session { sharer_tx: after.sharer_tx, viewers: after.viewers, ..before };
    match message {
        UpstreamMessage::OrderedTerminalEvent(event) => {
            &&& after.events@ == most_recent(before.events@.push(event), MAX_EVENT_LOG as nat)
            &&& after == Session {
                events: after.events,
                latest_event_no: Some(highest(before.latest_event_no, event.event_no)),
                ..frame
            }
        },
        UpstreamMessage::UpdateActivePrompt(update) => {
            after == Session { active_prompt: update.active_prompt, ..frame }
        },
        UpstreamMessage::UpdateSelection(update) => {
            after == Session {
                participants: with_sharer_selection(before.participants, update.selection),
                ..frame
            }
        },
        _ => after == frame,
    }
}

/// `list` with the sharer's selection replaced.
pub open spec fn with_sharer_selection(
    list: ParticipantList,
    selection: Selection,
) -> ParticipantList {
    ParticipantList {
        sharer: Sharer { info: ParticipantInfo { selection, ..list.sharer.info } },
        ..list
    }
}

/// `after` is `before` once `message` of the sharer is handled: the sharer and
/// every viewer were sent what is theirs, and the session remembers what it has
/// to.
pub open spec fn handled(before: Session, message: UpstreamMessage, after: Session) -> bool {
    &&& remembers(before, message, after)
    &&& link_after(before.sharer_tx, after.sharer_tx, to_sharer(message))
    &&& table_after(
        before.viewers@,
        after.viewers@,
        |id: Seq<char>| to_viewers(before.sharer_id, message),
    )
}

/// Handles a message of a sharer whose session is open.
///
/// Terminal events, prompt, input and selection go to every viewer; events are
/// acknowledged at once. Messages on roles of users, access levels, guests,
/// retention and refused requests have no effect, for no access is restricted.
pub fn handle_message(session: &mut Session, message: UpstreamMessage) -> (flow: SharerFlow)
    requires
        old(session).wf(),
    ensures
        final(session).wf(),
        flow == flow_after(message),
        handled(*old(session), message, *final(session)),
{
    match message {
        UpstreamMessage::Initialize(_) | UpstreamMessage::Reconnect(_) => {},
        UpstreamMessage::OrderedTerminalEvent(event) => {
            let latest_processed_event_no = event.event_no;
            session.record_and_broadcast_event(event);
            session.send_sharer(
                DownstreamMessage::EventsProcessedAck { latest_processed_event_no },
            );
        },
        UpstreamMessage::UpdateActivePrompt(update) => {
            session.active_prompt = update.active_prompt.clone();
            session.broadcast_viewers(viewer::DownstreamMessage::ActivePromptUpdated(update));
        },
        UpstreamMessage::UpdateUniversalDeveloperInputContext(update) => {
            session.broadcast_viewers(
                viewer::DownstreamMessage::UniversalDeveloperInputContextUpdated(update),
            );
        },
        UpstreamMessage::UpdateSelection(update) => {
            session.participants.sharer.info.selection = update.selection.clone();
            let presence = presence_update_for(&session.sharer_id, update.selection);
            session.broadcast_viewers(
                viewer::DownstreamMessage::ParticipantPresenceUpdated(presence),
            );
        },
        UpstreamMessage::UpdateInput(update) => {
            session.broadcast_viewers(viewer::DownstreamMessage::InputUpdated(update));
        },
        UpstreamMessage::Ping { data } => {
            session.send_sharer(DownstreamMessage::Pong { data });
        },
        UpstreamMessage::EndSession => {
            session.broadcast_viewers(
                viewer::DownstreamMessage::SessionEnded {
                    reason: viewer::SessionEndedReason::EndedBySharer,
                },
            );
            return SharerFlow::Ended;
        },
        UpstreamMessage::UpdateRole { participant_id, role } => {
            session.broadcast_viewers(
                viewer::DownstreamMessage::ParticipantRoleChanged { participant_id, role },
            );
        },
        UpstreamMessage::RespondToRoleRequest
        | UpstreamMessage::UpdateUserRole
        | UpstreamMessage::UpdatePendingUserRole
        | UpstreamMessage::UpdateAllRolesToReader
        | UpstreamMessage::RejectInputUpdate
        | UpstreamMessage::RejectCommandExecutionRequest
        | UpstreamMessage::RejectWriteToPtyRequest
        | UpstreamMessage::RejectAgentPromptRequest
        | UpstreamMessage::RejectControlActionRequest
        | UpstreamMessage::UpdateLinkAccessLevel
        | UpstreamMessage::UpdateTeamAccessLevel
        | UpstreamMessage::AddGuests
        | UpstreamMessage::RemoveGuest
        | UpstreamMessage::RemovePendingGuest
        | UpstreamMessage::ExtendSessionRetention => {},
    }
    SharerFlow::Continues
}

/// That the participant `id` has `selection` selected.
pub open spec fn presence_of(id: ParticipantId, selection: Selection) -> ParticipantPresenceUpdate {
    ParticipantPresenceUpdate {
        participant_id: id,
        update: PresenceUpdate::Selection(selection),
    }
}

/// Says that the participant `id` has `selection` selected.
pub fn presence_update_for(
    id: &ParticipantId,
    selection: Selection,
) -> (update: ParticipantPresenceUpdate)
    ensures
        update == presence_of(*id, selection),
{
    ParticipantPresenceUpdate {
        participant_id: id.clone(),
        update: PresenceUpdate::Selection(selection),
    }
}

} // verus!
