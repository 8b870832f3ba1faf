//! The messages between the relay and a viewer.

use crate::common::{
    clone_text, ActivePromptUpdate, AgentPromptRequest, OrderedTerminalEvent, ParticipantId,
    ParticipantList, ParticipantPresenceUpdate, Payload, Role, RoleRequestResponse, Scrollback,
    SelectionUpdate,
};
use std::sync::Arc;
use vstd::prelude::*;

verus! {

/// What a viewer presents on joining. One that was here before names itself
/// and the last event that it has received.
#[derive(Debug)]
pub struct InitPayload {
    pub viewer_id: Option<ParticipantId>,
    pub last_received_event_no: Option<usize>,
}

/// From a viewer. The contents of messages that the relay does nothing with
/// are not kept.
#[derive(Debug)]
pub enum UpstreamMessage {
    Initialize(InitPayload),
    Ping { data: Payload },
    ExecuteCommand { buffer_id: Payload, command: String },
    WriteToPty { request_id: Payload, bytes: Vec<u8> },
    SendAgentPrompt(AgentPromptRequest),
    SendControlAction(Payload),
    ReportTerminalSize { window_size: Payload },
    UpdateInput(Payload),
    UpdateSelection(SelectionUpdate),
    RequestRole(Role),
    CancelRoleRequest,
    Reauthenticated,
    UpdateUniversalDeveloperInputContext,
    UpdateLinkAccessLevel,
    UpdateTeamAccessLevel,
    AddGuests,
    RemoveGuest,
    RemovePendingGuest,
    UpdateUserRole,
    UpdatePendingUserRole,
}

/// Why a viewer could not join.
#[derive(Debug)]
pub enum FailedToJoinReason {
    SessionNotFound,
}

/// Why a session is over.
#[derive(Debug)]
pub enum SessionEndedReason {
    EndedBySharer,
}

/// To a viewer.
#[allow(inconsistent_fields)]
#[derive(Debug)]
pub enum DownstreamMessage {
    JoinedSuccessfully {
        scrollback: Arc<Scrollback>,
        active_prompt: Payload,
        latest_event_no: Option<usize>,
        window_size: Payload,
        participant_list: ParticipantList,
        viewer_id: ParticipantId,
        viewer_firebase_uid: String,
        init_block_id: Payload,
        input_replica_id: Payload,
        universal_developer_input_context: Option<Payload>,
        source_type: Payload,
        source_task_id: Option<String>,
    },
    RejoinedSuccessfully { participant_list: ParticipantList },
    FailedToJoin { reason: FailedToJoinReason },
    OrderedTerminalEvent(OrderedTerminalEvent),
    ActivePromptUpdated(ActivePromptUpdate),
    UniversalDeveloperInputContextUpdated(Payload),
    ParticipantPresenceUpdated(ParticipantPresenceUpdate),
    InputUpdated(Payload),
    ParticipantListUpdated(ParticipantList),
    ParticipantRoleChanged { participant_id: ParticipantId, role: Role },
    RoleRequestResponse(RoleRequestResponse),
    Pong { data: Payload },
    SessionEnded { reason: SessionEndedReason },
}

impl Clone for DownstreamMessage {
    fn clone(&self) -> (copy: Self)
        ensures
            copy == *self,
    {
        match self {
            DownstreamMessage::JoinedSuccessfully {
                scrollback,
                active_prompt,
                latest_event_no,
                window_size,
                participant_list,
                viewer_id,
                viewer_firebase_uid,
                init_block_id,
                input_replica_id,
                universal_developer_input_context,
                source_type,
                source_task_id,
            } => DownstreamMessage::JoinedSuccessfully {
                scrollback: scrollback.clone(),
                active_prompt: active_prompt.clone(),
                latest_event_no: *latest_event_no,
                window_size: window_size.clone(),
                participant_list: participant_list.clone(),
                viewer_id: viewer_id.clone(),
                viewer_firebase_uid: viewer_firebase_uid.clone(),
                init_block_id: init_block_id.clone(),
                input_replica_id: input_replica_id.clone(),
                universal_developer_input_context: match universal_developer_input_context {
                    None => None,
                    Some(context) => Some(context.clone()),
                },
                source_type: source_type.clone(),
                source_task_id: clone_text(source_task_id),
            },
            DownstreamMessage::RejoinedSuccessfully { participant_list } => {
                DownstreamMessage::RejoinedSuccessfully {
                    participant_list: participant_list.clone(),
                }
            },
            DownstreamMessage::FailedToJoin { reason: FailedToJoinReason::SessionNotFound } => {
                DownstreamMessage::FailedToJoin { reason: FailedToJoinReason::SessionNotFound }
            },
            DownstreamMessage::OrderedTerminalEvent(event) => {
                DownstreamMessage::OrderedTerminalEvent(event.clone())
            },
            DownstreamMessage::ActivePromptUpdated(update) => {
                DownstreamMessage::ActivePromptUpdated(update.clone())
            },
            DownstreamMessage::UniversalDeveloperInputContextUpdated(update) => {
                DownstreamMessage::UniversalDeveloperInputContextUpdated(update.clone())
            },
            DownstreamMessage::ParticipantPresenceUpdated(update) => {
                DownstreamMessage::ParticipantPresenceUpdated(update.clone())
            },
            DownstreamMessage::InputUpdated(update) => {
                DownstreamMessage::InputUpdated(update.clone())
            },
            DownstreamMessage::ParticipantListUpdated(list) => {
                DownstreamMessage::ParticipantListUpdated(list.clone())
            },
            DownstreamMessage::ParticipantRoleChanged { participant_id, role } => {
                DownstreamMessage::ParticipantRoleChanged {
                    participant_id: participant_id.clone(),
                    role: role.clone(),
                }
            },
            DownstreamMessage::RoleRequestResponse(response) => {
                DownstreamMessage::RoleRequestResponse(response.clone())
            },
            DownstreamMessage::Pong { data } => DownstreamMessage::Pong { data: data.clone() },
            DownstreamMessage::SessionEnded { reason: SessionEndedReason::EndedBySharer } => {
                DownstreamMessage::SessionEnded { reason: SessionEndedReason::EndedBySharer }
            },
        }
    }
}

} // verus!
