//! The messages between the relay and a sharer.

use crate::common::{
    ActivePromptUpdate, AgentPromptRequest, OrderedTerminalEvent, ParticipantId, ParticipantList,
    Payload, ReconnectToken, Role, Scrollback, Selection, SelectionUpdate, SessionId,
};
use std::sync::Arc;
use vstd::prelude::*;

verus! {

/// What a sharer says of its terminal when it starts a session.
#[derive(Debug)]
pub struct InitPayload {
    pub scrollback: Arc<Scrollback>,
    pub active_prompt: Payload,
    pub window_size: Payload,
    pub selection: Selection,
    pub init_block_id: Payload,
    pub input_replica_id: Payload,
    pub source_type: Payload,
    pub source_task_id: Option<String>,
}

/// What a sharer presents to take its session up again.
#[derive(Debug)]
pub struct ReconnectPayload {
    pub reconnect_token: ReconnectToken,
}

/// From the sharer. The contents of messages that the relay does nothing with
/// are not kept.
#[derive(Debug)]
pub enum UpstreamMessage {
    Initialize(InitPayload),
    Reconnect(ReconnectPayload),
    OrderedTerminalEvent(OrderedTerminalEvent),
    UpdateActivePrompt(ActivePromptUpdate),
    UpdateUniversalDeveloperInputContext(Payload),
    UpdateSelection(SelectionUpdate),
    UpdateInput(Payload),
    Ping { data: Payload },
    EndSession,
    UpdateRole { participant_id: ParticipantId, role: Role },
    RespondToRoleRequest,
    UpdateUserRole,
    UpdatePendingUserRole,
    UpdateAllRolesToReader,
    RejectInputUpdate,
    RejectCommandExecutionRequest,
    RejectWriteToPtyRequest,
    RejectAgentPromptRequest,
    RejectControlActionRequest,
    UpdateLinkAccessLevel,
    UpdateTeamAccessLevel,
    AddGuests,
    RemoveGuest,
    RemovePendingGuest,
    ExtendSessionRetention,
}

/// Why a sharer could not take its session up again.
#[derive(Debug)]
pub enum ReconnectionFailedReason {
    SessionNotFound,
    WrongReconnectionToken,
}

/// To the sharer.
#[derive(Debug)]
pub enum DownstreamMessage {
    SessionInitialized {
        session_id: SessionId,
        session_secret: Payload,
        reconnect_token: ReconnectToken,
        sharer_id: ParticipantId,
        sharer_firebase_uid: String,
    },
    SessionReconnected {
        last_received_event_no: Option<usize>,
        participant_list: ParticipantList,
    },
    FailedToReconnect { reason: ReconnectionFailedReason },
    EventsProcessedAck { latest_processed_event_no: usize },
    Pong { data: Payload },
    ParticipantListUpdated(ParticipantList),
    InputUpdated(Payload),
    CommandExecutionRequested {
        id: Payload,
        participant_id: ParticipantId,
        buffer_id: Payload,
        command: String,
    },
    WriteToPtyRequested { id: Payload, bytes: Vec<u8> },
    AgentPromptRequested {
        id: Payload,
        participant_id: ParticipantId,
        request: AgentPromptRequest,
    },
    ControlActionRequested { participant_id: ParticipantId, request_id: Payload, action: Payload },
    ViewerTerminalSizeReported { participant_id: ParticipantId, window_size: Payload },
}

} // verus!
