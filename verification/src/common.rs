//! Values that sharers and viewers exchange.
//!
//! What the relay never looks into is held as the JSON text it arrived as
//! ([`Payload`]). Byte blocks and lists that are handed to many viewers are
//! shared behind an [`Arc`]. So a clone of any value here equals the value
//! itself, and each `clone` says so.

use std::sync::Arc;
use vstd::prelude::*;

verus! {

/// A session's identifier: the 128 bits of a random UUID. Whoever knows it can
/// join the session.
pub type SessionId = u128;

/// A JSON value that is relayed and never interpreted.
#[derive(Debug)]
pub struct Payload {
    pub json: String,
}

impl Clone for Payload {
    fn clone(&self) -> (copy: Self)
        ensures
            copy == *self,
    {
        Payload { json: self.json.clone() }
    }
}

/// Identifies a sharer or a viewer within a session, in printed form.
#[derive(Debug)]
pub struct ParticipantId {
    pub text: String,
}

impl View for ParticipantId {
    type V = Seq<char>;

    open spec fn view(&self) -> Seq<char> {
        self.text@
    }
}

impl Clone for ParticipantId {
    fn clone(&self) -> (copy: Self)
        ensures
            copy == *self,
    {
        ParticipantId { text: self.text.clone() }
    }
}

impl ParticipantId {
    /// Whether both identifiers are the same text.
    pub fn same_as(&self, other: &ParticipantId) -> (same: bool)
        ensures
            same == (self@ == other@),
    {
        self.text == other.text
    }
}

/// The secret that lets a sharer take its session up again.
#[derive(Debug)]
pub struct ReconnectToken {
    pub text: String,
}

impl View for ReconnectToken {
    type V = Seq<char>;

    open spec fn view(&self) -> Seq<char> {
        self.text@
    }
}

impl Clone for ReconnectToken {
    fn clone(&self) -> (copy: Self)
        ensures
            copy == *self,
    {
        ReconnectToken { text: self.text.clone() }
    }
}

/// What a participant may do in a session. The relay only ever grants `Full`
/// by itself; any other role is passed along by its wire form.
#[derive(Debug)]
pub enum Role {
    Full,
    Other(Payload),
}

impl Clone for Role {
    fn clone(&self) -> (copy: Self)
        ensures
            copy == *self,
    {
        match self {
            Role::Full => Role::Full,
            Role::Other(p) => Role::Other(p.clone()),
        }
    }
}

/// What a participant has selected; `Unset` is the protocol's default.
#[derive(Debug)]
pub enum Selection {
    Unset,
    Value(Payload),
}

impl Clone for Selection {
    fn clone(&self) -> (copy: Self)
        ensures
            copy == *self,
    {
        match self {
            Selection::Unset => Selection::Unset,
            Selection::Value(p) => Selection::Value(p.clone()),
        }
    }
}

/// One block of terminal history.
#[derive(Debug)]
pub struct ScrollbackBlock {
    pub raw: Vec<u8>,
}

/// Terminal history from before the session was shared.
#[derive(Debug)]
pub struct Scrollback {
    pub blocks: Vec<ScrollbackBlock>,
    pub is_alt_screen_active: bool,
}

/// What happened in the sharer's terminal.
#[derive(Debug)]
pub enum OrderedTerminalEventType {
    PtyBytesRead { bytes: Arc<Vec<u8>> },
    Other(Payload),
}

impl Clone for OrderedTerminalEventType {
    fn clone(&self) -> (copy: Self)
        ensures
            copy == *self,
    {
        match self {
            OrderedTerminalEventType::PtyBytesRead { bytes } => {
                OrderedTerminalEventType::PtyBytesRead { bytes: bytes.clone() }
            },
            OrderedTerminalEventType::Other(p) => OrderedTerminalEventType::Other(p.clone()),
        }
    }
}

/// A terminal event with the number that the sharer gave it.
#[derive(Debug)]
pub struct OrderedTerminalEvent {
    pub event_no: usize,
    pub event_type: OrderedTerminalEventType,
}

impl Clone for OrderedTerminalEvent {
    fn clone(&self) -> (copy: Self)
        ensures
            copy == *self,
    {
        OrderedTerminalEvent { event_no: self.event_no, event_type: self.event_type.clone() }
    }
}

/// How a participant is shown to the others. Further fields of the protocol's
/// profile keep their defaults.
#[derive(Debug)]
pub struct ProfileData {
    pub firebase_uid: String,
    pub display_name: String,
    pub input_replica_id: Payload,
}

impl Clone for ProfileData {
    fn clone(&self) -> (copy: Self)
        ensures
            copy == *self,
    {
        ProfileData {
            firebase_uid: self.firebase_uid.clone(),
            display_name: self.display_name.clone(),
            input_replica_id: self.input_replica_id.clone(),
        }
    }
}

#[derive(Debug)]
pub struct ParticipantInfo {
    pub id: ParticipantId,
    pub profile_data: ProfileData,
    pub selection: Selection,
}

impl Clone for ParticipantInfo {
    fn clone(&self) -> (copy: Self)
        ensures
            copy == *self,
    {
        ParticipantInfo {
            id: self.id.clone(),
            profile_data: self.profile_data.clone(),
            selection: self.selection.clone(),
        }
    }
}

/// The sharer, as shown to the viewers.
#[derive(Debug)]
pub struct Sharer {
    pub info: ParticipantInfo,
}

impl Clone for Sharer {
    fn clone(&self) -> (copy: Self)
        ensures
            copy == *self,
    {
        Sharer { info: self.info.clone() }
    }
}

/// A viewer that is present, with the highest role it may take.
#[derive(Debug)]
pub struct PresentViewer {
    pub info: ParticipantInfo,
    pub max_acl: Role,
}

impl Clone for PresentViewer {
    fn clone(&self) -> (copy: Self)
        ensures
            copy == *self,
    {
        PresentViewer { info: self.info.clone(), max_acl: self.max_acl.clone() }
    }
}

/// Who takes part in a session. Further lists of the protocol (guests, absent
/// viewers, teams) stay empty.
#[derive(Debug)]
pub struct ParticipantList {
    pub sharer: Sharer,
    pub present_viewers: Arc<Vec<PresentViewer>>,
}

impl Clone for ParticipantList {
    fn clone(&self) -> (copy: Self)
        ensures
            copy == *self,
    {
        ParticipantList {
            sharer: self.sharer.clone(),
            present_viewers: self.present_viewers.clone(),
        }
    }
}

/// A change of the prompt: the new prompt, and the update as it arrived.
#[derive(Debug)]
pub struct ActivePromptUpdate {
    pub active_prompt: Payload,
    pub update: Payload,
}

impl Clone for ActivePromptUpdate {
    fn clone(&self) -> (copy: Self)
        ensures
            copy == *self,
    {
        ActivePromptUpdate {
            active_prompt: self.active_prompt.clone(),
            update: self.update.clone(),
        }
    }
}

/// A change of a participant's selection.
#[derive(Debug)]
pub struct SelectionUpdate {
    pub selection: Selection,
}

/// What a participant now has selected, for the others to show.
#[derive(Debug)]
pub struct ParticipantPresenceUpdate {
    pub participant_id: ParticipantId,
    pub update: PresenceUpdate,
}

#[derive(Debug)]
pub enum PresenceUpdate {
    Selection(Selection),
}

impl Clone for ParticipantPresenceUpdate {
    fn clone(&self) -> (copy: Self)
        ensures
            copy == *self,
    {
        let PresenceUpdate::Selection(selection) = &self.update;
        ParticipantPresenceUpdate {
            participant_id: self.participant_id.clone(),
            update: PresenceUpdate::Selection(selection.clone()),
        }
    }
}

/// A prompt for the sharer's agent: its identifier, and the request as it
/// arrived.
#[derive(Debug)]
pub struct AgentPromptRequest {
    pub id: Payload,
    pub request: Payload,
}

/// The answer to a request for a role.
#[derive(Debug)]
pub enum RoleRequestResponse {
    Approved { new_role: Role },
}

impl Clone for RoleRequestResponse {
    fn clone(&self) -> (copy: Self)
        ensures
            copy == *self,
    {
        let RoleRequestResponse::Approved { new_role } = self;
        RoleRequestResponse::Approved { new_role: new_role.clone() }
    }
}

/// A copy of an optional text.
pub(crate) fn clone_text(text: &Option<String>) -> (copy: Option<String>)
    ensures
        copy == *text,
{
    match text {
        None => None,
        Some(t) => Some(t.clone()),
    }
}

} // verus!
