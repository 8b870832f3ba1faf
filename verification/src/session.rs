//! The state of one session and its fan-out.
//!
//! A session has exactly one sharer, which may drop off and resume, and any
//! number of viewers. The most recent terminal events are kept in order, so
//! that a viewer that comes back can catch up.

use crate::channel::{self, link_after, Outgoing, Tx};
use crate::common::{
    OrderedTerminalEvent, ParticipantId, ParticipantInfo, ParticipantList, Payload, PresentViewer,
    ProfileData, ReconnectToken, Role, Scrollback, Selection, SessionId, Sharer,
};
use crate::sharer;
use crate::viewer;
use crate::viewers::{table_after, to_all, Seat, Viewers};
use std::collections::VecDeque;
use std::sync::Arc;
use vstd::prelude::*;

verus! {

/// How many terminal events a session keeps. Older ones are trimmed.
pub const MAX_EVENT_LOG: usize = 10000;

/// The last `n` items of `items`, or all of them if there are fewer.
pub open spec fn most_recent<A>(items: Seq<A>, n: nat) -> Seq<A> {
    if items.len() <= n {
        items
    } else {
        items.skip(items.len() - n)
    }
}

/// The higher of an event number and those before it, if there were any.
pub open spec fn highest(latest: Option<usize>, event_no: usize) -> usize {
    match latest {
        Some(n) if n > event_no => n,
        _ => event_no,
    }
}

/// The events that are newer than what a viewer has received.
pub open spec fn newer_than(
    events: Seq<OrderedTerminalEvent>,
    after: Option<usize>,
) -> Seq<OrderedTerminalEvent> {
    match after {
        None => events,
        Some(n) => events.filter(|e: OrderedTerminalEvent| e.event_no > n),
    }
}

/// The viewers in `list` other than `id`.
pub open spec fn without_viewer(list: Seq<PresentViewer>, id: Seq<char>) -> Seq<PresentViewer> {
    list.filter(|v: PresentViewer| v.info.id@ != id)
}

/// How a viewer that has just joined is listed: under its own identifier, by
/// generic names, with nothing selected, and with full access.
pub open spec fn listed_as_viewer(v: PresentViewer, id: ParticipantId, replica: Payload) -> bool {
    &&& v.info.id == id
    &&& v.info.profile_data.firebase_uid@ == "self-hosted-viewer-"@ + id@
    &&& v.info.profile_data.display_name@ == "Viewer"@
    &&& v.info.profile_data.input_replica_id == replica
    &&& v.info.selection == Selection::Unset
    &&& v.max_acl == Role::Full
}

pub struct Session {
    pub session_id: SessionId,
    pub reconnect_token: ReconnectToken,
    pub sharer_id: ParticipantId,
    pub sharer_firebase_uid: String,
    /// The queue to the sharer's writer; `None` while no sharer is connected.
    pub sharer_tx: Option<Tx>,
    /// The connection that took the sharer's role last, by its number.
    pub sharer_connection: u64,
    /// The connected viewers, each with the connection that it is on.
    pub viewers: Viewers,
    /// The most recent terminal events, in the order they arrived.
    pub events: VecDeque<OrderedTerminalEvent>,
    /// The highest number among all events so far; `None` before the first.
    pub latest_event_no: Option<usize>,
    pub scrollback: Arc<Scrollback>,
    pub active_prompt: Payload,
    pub window_size: Payload,
    pub init_block_id: Payload,
    pub input_replica_id: Payload,
    pub source_type: Payload,
    pub source_task_id: Option<String>,
    pub participants: ParticipantList,
}

/// `after` is `before` with `event` recorded and sent to every viewer.
pub open spec fn recorded(before: Session, event: OrderedTerminalEvent, after: Session) -> bool {
    &&& after.events@ == most_recent(before.events@.push(event), MAX_EVENT_LOG as nat)
    &&& after.latest_event_no == Some(highest(before.latest_event_no, event.event_no))
    &&& table_after(
        before.viewers@,
        after.viewers@,
        to_all(viewer::DownstreamMessage::OrderedTerminalEvent(event)),
    )
    &&& after == Session {
        events: after.events,
        latest_event_no: after.latest_event_no,
        viewers: after.viewers,
        ..before
    }
}

/// `session` with its sharer on the connection `connection`.
pub open spec fn attached(session: Session, connection: u64, link: Option<Tx>) -> Session {
    Session { sharer_tx: link, sharer_connection: connection, ..session }
}

/// `session` once the connection `connection` is over. If another has taken
/// the sharer's role since, that one stays.
pub open spec fn detached(session: Session, connection: u64) -> Session {
    if session.sharer_connection == connection {
        Session { sharer_tx: None, ..session }
    } else {
        session
    }
}

/// No sharer is connected, and the last one that was had this connection.
pub open spec fn abandoned(session: Session, connection: u64) -> bool {
    session.sharer_connection == connection && session.sharer_tx is None
}

impl Session {
    /// What every operation keeps: no viewer is connected twice, the event log
    /// is bounded, no event in it has a number above the highest, the sharer
    /// is listed under its own identifier and name, and every listed viewer
    /// has full access.
    pub open spec fn wf(&self) -> bool {
        &&& self.viewers.wf()
        &&& self.events@.len() <= MAX_EVENT_LOG
        &&& forall|i: int|
            0 <= i < self.events@.len() ==> self.latest_event_no is Some && (
            #[trigger] self.events@[i]).event_no <= self.latest_event_no->0
        &&& self.participants.sharer.info.id == self.sharer_id
        &&& self.participants.sharer.info.profile_data.firebase_uid == self.sharer_firebase_uid
        &&& forall|i: int|
            0 <= i < self.participants.present_viewers@.len() ==> (
            #[trigger] self.participants.present_viewers@[i]).max_acl == Role::Full
    }

    /// The session is as its sharer described it: nobody is connected, nothing
    /// has happened, and only the sharer is listed, by generic names.
    pub open spec fn is_fresh(
        &self,
        session_id: SessionId,
        sharer_id: ParticipantId,
        reconnect_token: ReconnectToken,
        init: sharer::InitPayload,
    ) -> bool {
        &&& self.session_id == session_id
        &&& self.reconnect_token == reconnect_token
        &&& self.sharer_id == sharer_id
        &&& self.sharer_firebase_uid@ == "self-hosted-sharer-"@ + sharer_id@
        &&& self.sharer_tx is None
        &&& self.sharer_connection == 0
        &&& self.viewers@ == Map::<Seq<char>, Seat>::empty()
        &&& self.events@ == Seq::<OrderedTerminalEvent>::empty()
        &&& self.latest_event_no is None
        &&& self.scrollback == init.scrollback
        &&& self.active_prompt == init.active_prompt
        &&& self.window_size == init.window_size
        &&& self.init_block_id == init.init_block_id
        &&& self.input_replica_id == init.input_replica_id
        &&& self.source_type == init.source_type
        &&& self.source_task_id == init.source_task_id
        &&& self.participants.sharer.info.id == sharer_id
        &&& self.participants.sharer.info.profile_data.firebase_uid == self.sharer_firebase_uid
        &&& self.participants.sharer.info.profile_data.display_name@ == "Sharer"@
        &&& self.participants.sharer.info.profile_data.input_replica_id == init.input_replica_id
        &&& self.participants.sharer.info.selection == init.selection
        &&& self.participants.present_viewers@ == Seq::<PresentViewer>::empty()
    }

    /// A session as its sharer describes it, with nobody connected yet.
    pub fn new(
        session_id: SessionId,
        sharer_id: ParticipantId,
        reconnect_token: ReconnectToken,
        init: sharer::InitPayload,
    ) -> (session: Session)
        ensures
            session.wf(),
            session.is_fresh(session_id, sharer_id, reconnect_token, init),
    {
        let sharer_firebase_uid = "self-hosted-sharer-".to_owned().concat(sharer_id.text.as_str());
        let participants = ParticipantList {
            sharer: Sharer {
                info: ParticipantInfo {
                    id: sharer_id.clone(),
                    profile_data: ProfileData {
                        firebase_uid: sharer_firebase_uid.clone(),
                        display_name: "Sharer".to_owned(),
                        input_replica_id: init.input_replica_id.clone(),
                    },
                    selection: init.selection,
                },
            },
            present_viewers: Arc::new(Vec::new()),
        };
        Session {
            session_id,
            reconnect_token,
            sharer_id,
            sharer_firebase_uid,
            sharer_tx: None,
            sharer_connection: 0,
            viewers: Viewers::new(),
            events: VecDeque::new(),
            latest_event_no: None,
            scrollback: init.scrollback,
            active_prompt: init.active_prompt,
            window_size: init.window_size,
            init_block_id: init.init_block_id,
            input_replica_id: init.input_replica_id,
            source_type: init.source_type,
            source_task_id: init.source_task_id,
            participants,
        }
    }

    /// Appends a terminal event to the log, trims the log, and sends the event
    /// to every viewer.
    pub fn record_and_broadcast_event(&mut self, event: OrderedTerminalEvent)
        requires
            old(self).wf(),
        ensures
            final(self).wf(),
            recorded(*old(self), event, *final(self)),
    {
        let latest: usize = match self.latest_event_no {
            Some(n) if n > event.event_no => n,
            _ => event.event_no,
        };
        self.latest_event_no = Some(latest);
        self.events.push_back(event.clone());
        if self.events.len() > MAX_EVENT_LOG {
            let _ = self.events.pop_front();
        }
        assert(self.events@ =~= most_recent(old(self).events@.push(event), MAX_EVENT_LOG as nat));
        self.broadcast_viewers(viewer::DownstreamMessage::OrderedTerminalEvent(event));
    }

    /// Sends a message to every viewer, dropping those whose queue refuses it.
    pub fn broadcast_viewers(&mut self, message: viewer::DownstreamMessage)
        requires
            old(self).wf(),
        ensures
            final(self).wf(),
            table_after(old(self).viewers@, final(self).viewers@, to_all(message)),
            *final(self) == (Session { viewers: final(self).viewers, ..*old(self) }),
    {
        self.viewers.fan_out(None, message);
    }

    /// Sends a message to the sharer if it is connected, dropping its
    /// connection if the queue refuses it.
    pub fn send_sharer(&mut self, message: sharer::DownstreamMessage)
        requires
            old(self).wf(),
        ensures
            final(self).wf(),
            link_after(
                old(self).sharer_tx,
                final(self).sharer_tx,
                seq![Outgoing::ToSharer(message)],
            ),
            *final(self) == (Session { sharer_tx: final(self).sharer_tx, ..*old(self) }),
    {
        channel::send(&mut self.sharer_tx, Outgoing::ToSharer(message));
    }

    /// Gives the sharer's role to the connection `connection`.
    pub fn attach_sharer(&mut self, connection: u64, tx: Tx)
        requires
            old(self).wf(),
        ensures
            final(self).wf(),
            *final(self) == attached(*old(self), connection, Some(tx)),
    {
        self.sharer_tx = Some(tx);
        self.sharer_connection = connection;
    }

    /// Notes that the connection `connection` is over. Tells whether it had
    /// the sharer's role, so that the session now waits for its sharer.
    pub fn sharer_disconnected(&mut self, connection: u64) -> (waits: bool)
        requires
            old(self).wf(),
        ensures
            final(self).wf(),
            *final(self) == detached(*old(self), connection),
            waits == (old(self).sharer_connection == connection),
    {
        if self.sharer_connection == connection {
            self.sharer_tx = None;
            true
        } else {
            false
        }
    }

    /// Ends a session whose sharer left with the connection `connection` and
    /// has not come back, telling the viewers. Tells whether it did.
    pub fn reap(&mut self, connection: u64) -> (reaped: bool)
        requires
            old(self).wf(),
        ensures
            final(self).wf(),
            reaped == abandoned(*old(self), connection),
            reaped ==> table_after(
                old(self).viewers@,
                final(self).viewers@,
                to_all(
                    viewer::DownstreamMessage::SessionEnded {
                        reason: viewer::SessionEndedReason::EndedBySharer,
                    },
                ),
            ),
            reaped ==> *final(self) == (Session { viewers: final(self).viewers, ..*old(self) }),
            !reaped ==> *final(self) == *old(self),
    {
        if self.sharer_connection == connection && self.sharer_tx.is_none() {
            self.broadcast_viewers(
                viewer::DownstreamMessage::SessionEnded {
                    reason: viewer::SessionEndedReason::EndedBySharer,
                },
            );
            true
        } else {
            false
        }
    }

    /// Lists a viewer as present, with full access.
    pub fn add_present_viewer(&mut self, id: ParticipantId, input_replica_id: Payload)
        requires
            old(self).wf(),
        ensures
            final(self).wf(),
            final(self).participants.present_viewers@.len()
                == old(self).participants.present_viewers@.len() + 1,
            final(self).participants.present_viewers@.drop_last()
                == old(self).participants.present_viewers@,
            listed_as_viewer(
                final(self).participants.present_viewers@.last(),
                id,
                input_replica_id,
            ),
            final(self).participants.sharer == old(self).participants.sharer,
            *final(self) == (Session { participants: final(self).participants, ..*old(self) }),
    {
        let firebase_uid = "self-hosted-viewer-".to_owned().concat(id.text.as_str());
        let mut list = copy_list(&self.participants.present_viewers);
        list.push(
            PresentViewer {
                info: ParticipantInfo {
                    id,
                    profile_data: ProfileData {
                        firebase_uid,
                        display_name: "Viewer".to_owned(),
                        input_replica_id,
                    },
                    selection: Selection::Unset,
                },
                max_acl: Role::Full,
            },
        );
        assert(list@.drop_last() =~= self.participants.present_viewers@);
        self.participants.present_viewers = Arc::new(list);
    }

    /// Takes a viewer off the list of those present.
    pub fn remove_present_viewer(&mut self, id: &ParticipantId)
        requires
            old(self).wf(),
        ensures
            final(self).wf(),
            final(self).participants.present_viewers@ == without_viewer(
                old(self).participants.present_viewers@,
                id@,
            ),
            final(self).participants.sharer == old(self).participants.sharer,
            *final(self) == (Session { participants: final(self).participants, ..*old(self) }),
    {
        let ghost old_list = self.participants.present_viewers@;
        let ghost stays = |v: PresentViewer| v.info.id@ != id@;
        let mut list: Vec<PresentViewer> = Vec::new();
        let mut i: usize = 0;
        proof {
            reveal(Seq::filter);
            assert(old_list.take(0) =~= Seq::empty());
        }
        while i < self.participants.present_viewers.len()
            invariant
                i <= old_list.len(),
                old_list == self.participants.present_viewers@,
                stays == (|v: PresentViewer| v.info.id@ != id@),
                list@ == old_list.take(i as int).filter(stays),
                forall|j: int|
                    0 <= j < old_list.len() ==> (#[trigger] old_list[j]).max_acl == Role::Full,
                forall|j: int|
                    0 <= j < list@.len() ==> (#[trigger] list@[j]).max_acl == Role::Full,
            decreases old_list.len() - i,
        {
            let viewer = &self.participants.present_viewers[i];
            proof {
                reveal(Seq::filter);
                assert(old_list.take(i + 1).drop_last() =~= old_list.take(i as int));
            }
            if !viewer.info.id.same_as(id) {
                list.push(viewer.clone());
            }
            i = i + 1;
        }
        assert(old_list.take(i as int) =~= old_list);
        self.participants.present_viewers = Arc::new(list);
    }

    /// The events that a viewer has missed whose last one was `after`; all
    /// events for a viewer that has received none.
    pub fn events_after(&self, after: Option<usize>) -> (missed: Vec<OrderedTerminalEvent>)
        ensures
            missed@ == newer_than(self.events@, after),
    {
        let mut missed: Vec<OrderedTerminalEvent> = Vec::new();
        let mut i: usize = 0;
        proof {
            reveal(Seq::filter);
            assert(self.events@.take(0) =~= Seq::empty());
        }
        while i < self.events.len()
            invariant
                i <= self.events@.len(),
                missed@ == newer_than(self.events@.take(i as int), after),
            decreases self.events@.len() - i,
        {
            let event = &self.events[i];
            proof {
                reveal(Seq::filter);
                assert(self.events@.take(i + 1).drop_last() =~= self.events@.take(i as int));
            }
            let is_newer = match after {
                None => true,
                Some(n) => event.event_no > n,
            };
            if is_newer {
                missed.push(event.clone());
            }
            i = i + 1;
            assert(missed@ =~= newer_than(self.events@.take(i as int), after));
        }
        assert(self.events@.take(i as int) =~= self.events@);
        missed
    }
}

/// A copy of a list of viewers.
fn copy_list(list: &Vec<PresentViewer>) -> (copy: Vec<PresentViewer>)
    ensures
        copy@ == list@,
{
    let mut copy: Vec<PresentViewer> = Vec::new();
    let mut i: usize = 0;
    while i < list.len()
        invariant
            i <= list@.len(),
            copy@ == list@.take(i as int),
        decreases list@.len() - i,
    {
        copy.push(list[i].clone());
        i = i + 1;
        assert(copy@ =~= list@.take(i as int));
    }
    assert(list@.take(i as int) =~= list@);
    copy
}

} // verus!
