//! What each operation does for those who use the relay, said of its inputs and
//! results alone: which messages end up in whose queue, and what the session
//! holds afterwards.

use crate::channel::{
    self, cut_log, cut_off, feeds, link_after, queue_bound, send_log, sent_all, taken, Outgoing, Tx,
};
use crate::common::{
    ActivePromptUpdate, OrderedTerminalEvent, ParticipantId, ParticipantPresenceUpdate, Payload,
    PresenceUpdate, Role, RoleRequestResponse, SelectionUpdate,
};
use crate::session::{Session, MAX_EVENT_LOG};
use crate::sharer;
use crate::sharer_ws::{self, SharerFlow};
use crate::viewer;
use crate::viewer_ws;
use crate::viewers::{seat_after, seat_at, table_after, Seat};
use tokio::sync::mpsc::Receiver;
use vstd::prelude::*;

verus! {

/// `after` sends to the same receiver as `before`.
pub open spec fn same_receiver(before: Tx, after: Tx) -> bool {
    forall|rx: Receiver<Outgoing>| #[trigger] feeds(after, rx) == feeds(before, rx)
}

/// The queue took the first `k` of `messages` and refused the next, which was
/// the last thing offered to it.
pub open spec fn refused_at(before: Tx, after: Tx, messages: Seq<Outgoing>, k: int) -> bool {
    &&& 0 <= k < messages.len()
    &&& same_receiver(before, after)
    &&& send_log(after) == send_log(before) + Seq::new(
        (k + 1) as nat,
        |i: int| (messages[i], i < k),
    )
}

/// `messages` and nothing else were put into a connection's queue, in order. A
/// connection that is gone stays gone; one whose queue took them all stays, and
/// one whose queue refused a message is gone. Where there was nothing to send
/// the queue was not touched.
pub open spec fn handed(before: Option<Tx>, after: Option<Tx>, messages: Seq<Outgoing>) -> bool {
    match before {
        None => after is None,
        Some(b) => match after {
            Some(a) => {
                &&& messages.len() == 0 ==> a == b
                &&& same_receiver(b, a)
                &&& queue_bound(a) == queue_bound(b)
                &&& send_log(a) == send_log(b) + Seq::new(
                    messages.len(),
                    |i: int| (messages[i], true),
                )
            },
            None => exists|a: Tx, k: int| #[trigger] refused_at(b, a, messages, k),
        },
    }
}

/// The queue to the viewer `id`, if it is connected.
pub open spec fn queue_to(table: Map<Seq<char>, Seat>, id: Seq<char>) -> Option<Tx> {
    if table.contains_key(id) {
        Some(table[id].tx)
    } else {
        None
    }
}

/// `messages` and nothing else were put into the queue of the viewer `id`,
/// which stays on the connection that it was on.
pub open spec fn viewer_handed(
    before: Map<Seq<char>, Seat>,
    after: Map<Seq<char>, Seat>,
    id: Seq<char>,
    messages: Seq<Outgoing>,
) -> bool {
    &&& handed(queue_to(before, id), queue_to(after, id), messages)
    &&& after.contains_key(id) ==> after[id].connection == before[id].connection
}

/// Every viewer was handed `messages`.
pub open spec fn all_handed(
    before: Map<Seq<char>, Seat>,
    after: Map<Seq<char>, Seat>,
    messages: Seq<Outgoing>,
) -> bool {
    forall|id: Seq<char>| #[trigger] viewer_handed(before, after, id, messages)
}

/// Every viewer but `me` was handed `messages`.
pub open spec fn others_handed(
    before: Map<Seq<char>, Seat>,
    after: Map<Seq<char>, Seat>,
    me: Seq<char>,
    messages: Seq<Outgoing>,
) -> bool {
    forall|id: Seq<char>| id != me ==> #[trigger] viewer_handed(before, after, id, messages)
}

/// No viewer was handed anything.
pub open spec fn none_handed(before: Map<Seq<char>, Seat>, after: Map<Seq<char>, Seat>) -> bool {
    after == before
}

/// `after` is `before` but for what is in the queues and who was dropped.
pub open spec fn only_queues_changed(before: Session, after: Session) -> bool {
    after == Session { sharer_tx: after.sharer_tx, viewers: after.viewers, ..before }
}

pub(crate) proof fn lemma_handed(before: Option<Tx>, after: Option<Tx>, messages: Seq<Outgoing>)
    requires
        link_after(before, after, messages),
    ensures
        handed(before, after, messages),
{
    if before is Some {
        let b = before->0;
        match after {
            Some(a) => {
                let all = Seq::new(messages.len(), |i: int| (messages[i], true));
                if messages.len() > 0 {
                    assert(sent_all(b, a, messages));
                    assert(taken(messages) =~= all);
                } else {
                    assert(send_log(a) =~= send_log(b) + all);
                }
            },
            None => {
                let a = choose|a: Tx| #[trigger] cut_off(b, a, messages);
                let k = choose|k: int|
                    0 <= k < messages.len() && send_log(a) == #[trigger] cut_log(
                        send_log(b),
                        messages,
                        k,
                    );
                assert(taken(messages.take(k)).push((messages[k], false)) =~= Seq::new(
                    (k + 1) as nat,
                    |i: int| (messages[i], i < k),
                ));
                assert(refused_at(b, a, messages, k));
            },
        }
    }
}

pub(crate) proof fn lemma_seat_handed(
    before: Map<Seq<char>, Seat>,
    after: Map<Seq<char>, Seat>,
    id: Seq<char>,
    messages: Seq<Outgoing>,
)
    requires
        seat_after(seat_at(before, id), seat_at(after, id), messages),
    ensures
        viewer_handed(before, after, id, messages),
{
    lemma_handed(queue_to(before, id), queue_to(after, id), messages);
}

/// What a table of viewers has become, viewer by viewer.
pub(crate) proof fn lemma_table_handed(
    before: Map<Seq<char>, Seat>,
    after: Map<Seq<char>, Seat>,
    messages: spec_fn(Seq<char>) -> Seq<Outgoing>,
)
    requires
        table_after(before, after, messages),
    ensures
        forall|id: Seq<char>| #[trigger] viewer_handed(before, after, id, messages(id)),
        (forall|id: Seq<char>| #[trigger] messages(id).len() == 0) ==> after == before,
{
    assert forall|id: Seq<char>| #[trigger]
        viewer_handed(before, after, id, messages(id)) by {
        assert(seat_after(seat_at(before, id), seat_at(after, id), messages(id)));
        lemma_seat_handed(before, after, id, messages(id));
    }
    if forall|id: Seq<char>| #[trigger] messages(id).len() == 0 {
        assert forall|id: Seq<char>| #[trigger]
            before.dom().contains(id) == after.dom().contains(id) by {
            assert(messages(id).len() == 0);
            assert(seat_at(before, id) == seat_at(after, id));
        }
        assert forall|id: Seq<char>| #[trigger] before.dom().contains(id) implies before[id]
            == after[id] by {
            assert(messages(id).len() == 0);
            assert(seat_at(before, id) == seat_at(after, id));
        }
        assert(before =~= after);
    }
}

/// What is sent to a connection goes into its queue, and a connection whose
/// queue refuses it is dropped.
pub proof fn a_message_goes_into_the_queue(link: &mut Option<Tx>, message: Outgoing)
    requires
        call_ensures(channel::send, (link, message), ()),
    ensures
        handed(*old(link), *final(link), seq![message]),
{
    lemma_handed(*old(link), *final(link), seq![message]);
}

/// Terminal output goes to every viewer and is acknowledged to the sharer by
/// its number. It is kept at the end of the log, which loses its oldest event
/// if it was full, and the highest number so far is remembered.
pub proof fn terminal_output_goes_to_all_viewers(
    session: &mut Session,
    event: OrderedTerminalEvent,
    flow: SharerFlow,
)
    requires
        call_ensures(
            sharer_ws::handle_message,
            (session, sharer::UpstreamMessage::OrderedTerminalEvent(event)),
            flow,
        ),
    ensures
        flow is Continues,
        all_handed(
            old(session).viewers@,
            final(session).viewers@,
            seq![Outgoing::ToViewer(viewer::DownstreamMessage::OrderedTerminalEvent(event))],
        ),
        handed(
            old(session).sharer_tx,
            final(session).sharer_tx,
            seq![
                Outgoing::ToSharer(
                    sharer::DownstreamMessage::EventsProcessedAck {
                        latest_processed_event_no: event.event_no,
                    },
                ),
            ],
        ),
        old(session).events@.len() < MAX_EVENT_LOG ==> final(session).events@ == old(session).events@.push(event),
        old(session).events@.len() == MAX_EVENT_LOG ==> final(session).events@ == old(session).events@.subrange(1, MAX_EVENT_LOG as int).push(event),
        final(session).latest_event_no == Some(
            match old(session).latest_event_no {
                None => event.event_no,
                Some(n) => if n < event.event_no {
                    event.event_no
                } else {
                    n
                },
            },
        ),
        *final(session) == (Session {
            sharer_tx: final(session).sharer_tx,
            viewers: final(session).viewers,
            events: final(session).events,
            latest_event_no: final(session).latest_event_no,
            ..*old(session)
        }),
{
    let message = sharer::UpstreamMessage::OrderedTerminalEvent(event);
    lemma_sharer_message(*old(session), message, *final(session));
    let log = old(session).events@;
    if log.len() == MAX_EVENT_LOG {
        assert(log.push(event).skip(1) =~= log.subrange(1, MAX_EVENT_LOG as int).push(event));
    }
}

/// What a sharer's message has put into the queues.
proof fn lemma_sharer_message(before: Session, message: sharer::UpstreamMessage, after: Session)
    requires
        sharer_ws::handled(before, message, after),
    ensures
        handed(before.sharer_tx, after.sharer_tx, sharer_ws::to_sharer(message)),
        all_handed(
            before.viewers@,
            after.viewers@,
            sharer_ws::to_viewers(before.sharer_id, message),
        ),
        sharer_ws::to_viewers(before.sharer_id, message).len() == 0 ==> none_handed(
            before.viewers@,
            after.viewers@,
        ),
        sharer_ws::to_sharer(message).len() == 0 ==> after.sharer_tx == before.sharer_tx,
{
    let messages = |id: Seq<char>| sharer_ws::to_viewers(before.sharer_id, message);
    lemma_handed(before.sharer_tx, after.sharer_tx, sharer_ws::to_sharer(message));
    lemma_table_handed(before.viewers@, after.viewers@, messages);
    assert forall|id: Seq<char>| #[trigger]
        viewer_handed(
            before.viewers@,
            after.viewers@,
            id,
            sharer_ws::to_viewers(before.sharer_id, message),
        ) by {
        assert(viewer_handed(before.viewers@, after.viewers@, id, messages(id)));
    }
}

/// A new prompt is remembered, whoever is there to see it, and goes to every
/// viewer as it arrived.
pub proof fn a_new_prompt_is_remembered_and_goes_to_all_viewers(
    session: &mut Session,
    update: ActivePromptUpdate,
    flow: SharerFlow,
)
    requires
        call_ensures(
            sharer_ws::handle_message,
            (session, sharer::UpstreamMessage::UpdateActivePrompt(update)),
            flow,
        ),
    ensures
        flow is Continues,
        all_handed(
            old(session).viewers@,
            final(session).viewers@,
            seq![Outgoing::ToViewer(viewer::DownstreamMessage::ActivePromptUpdated(update))],
        ),
        *final(session) == (Session {
            viewers: final(session).viewers,
            active_prompt: update.active_prompt,
            ..*old(session)
        }),
{
    let message = sharer::UpstreamMessage::UpdateActivePrompt(update);
    lemma_sharer_message(*old(session), message, *final(session));
}

/// A sharer's input, and the context of its input, go to every viewer as they
/// arrived.
pub proof fn a_sharers_input_goes_to_all_viewers(
    session: &mut Session,
    message: sharer::UpstreamMessage,
    flow: SharerFlow,
)
    requires
        call_ensures(sharer_ws::handle_message, (session, message), flow),
    ensures
        message matches sharer::UpstreamMessage::UpdateInput(update) ==> {
            &&& flow is Continues
            &&& all_handed(
                old(session).viewers@,
                final(session).viewers@,
                seq![Outgoing::ToViewer(viewer::DownstreamMessage::InputUpdated(update))],
            )
            &&& *final(session) == (Session { viewers: final(session).viewers, ..*old(session) })
        },
        message matches sharer::UpstreamMessage::UpdateUniversalDeveloperInputContext(context)
            ==> {
            &&& flow is Continues
            &&& all_handed(
                old(session).viewers@,
                final(session).viewers@,
                seq![
                    Outgoing::ToViewer(
                        viewer::DownstreamMessage::UniversalDeveloperInputContextUpdated(context),
                    ),
                ],
            )
            &&& *final(session) == (Session { viewers: final(session).viewers, ..*old(session) })
        },
{
    lemma_sharer_message(*old(session), message, *final(session));
}

/// A sharer's selection is shown to every viewer in the sharer's name, and is
/// what the list of participants then shows. Nothing else in the list changes.
pub proof fn a_sharers_selection_goes_to_all_viewers(
    session: &mut Session,
    update: SelectionUpdate,
    flow: SharerFlow,
)
    requires
        call_ensures(
            sharer_ws::handle_message,
            (session, sharer::UpstreamMessage::UpdateSelection(update)),
            flow,
        ),
    ensures
        flow is Continues,
        all_handed(
            old(session).viewers@,
            final(session).viewers@,
            seq![
                Outgoing::ToViewer(
                    viewer::DownstreamMessage::ParticipantPresenceUpdated(
                        ParticipantPresenceUpdate {
                            participant_id: old(session).sharer_id,
                            update: PresenceUpdate::Selection(update.selection),
                        },
                    ),
                ),
            ],
        ),
        final(session).participants.sharer.info.selection == update.selection,
        final(session).participants.sharer.info.id == old(session).participants.sharer.info.id,
        final(session).participants.sharer.info.profile_data == old(session).participants.sharer.info.profile_data,
        final(session).participants.present_viewers == old(session).participants.present_viewers,
        *final(session) == (Session {
            viewers: final(session).viewers,
            participants: final(session).participants,
            ..*old(session)
        }),
{
    let message = sharer::UpstreamMessage::UpdateSelection(update);
    lemma_sharer_message(*old(session), message, *final(session));
}

/// A role that the sharer gives to a participant is announced to every viewer.
pub proof fn a_given_role_is_announced(
    session: &mut Session,
    participant_id: ParticipantId,
    role: Role,
    flow: SharerFlow,
)
    requires
        call_ensures(
            sharer_ws::handle_message,
            (session, sharer::UpstreamMessage::UpdateRole { participant_id, role }),
            flow,
        ),
    ensures
        flow is Continues,
        all_handed(
            old(session).viewers@,
            final(session).viewers@,
            seq![
                Outgoing::ToViewer(
                    viewer::DownstreamMessage::ParticipantRoleChanged { participant_id, role },
                ),
            ],
        ),
        *final(session) == (Session { viewers: final(session).viewers, ..*old(session) }),
{
    let message = sharer::UpstreamMessage::UpdateRole { participant_id, role };
    lemma_sharer_message(*old(session), message, *final(session));
}

/// A sharer's ping is answered to the sharer, with what it carried.
pub proof fn a_sharers_ping_is_answered(session: &mut Session, data: Payload, flow: SharerFlow)
    requires
        call_ensures(
            sharer_ws::handle_message,
            (session, sharer::UpstreamMessage::Ping { data }),
            flow,
        ),
    ensures
        flow is Continues,
        handed(
            old(session).sharer_tx,
            final(session).sharer_tx,
            seq![Outgoing::ToSharer(sharer::DownstreamMessage::Pong { data })],
        ),
        none_handed(old(session).viewers@, final(session).viewers@),
        only_queues_changed(*old(session), *final(session)),
{
    let message = sharer::UpstreamMessage::Ping { data };
    lemma_sharer_message(*old(session), message, *final(session));
}

/// A sharer that ends its session ends it, and every viewer is told so.
pub proof fn ending_a_session_is_announced(session: &mut Session, flow: SharerFlow)
    requires
        call_ensures(
            sharer_ws::handle_message,
            (session, sharer::UpstreamMessage::EndSession),
            flow,
        ),
    ensures
        flow is Ended,
        all_handed(
            old(session).viewers@,
            final(session).viewers@,
            seq![
                Outgoing::ToViewer(
                    viewer::DownstreamMessage::SessionEnded {
                        reason: viewer::SessionEndedReason::EndedBySharer,
                    },
                ),
            ],
        ),
        *final(session) == (Session { viewers: final(session).viewers, ..*old(session) }),
{
    let message = sharer::UpstreamMessage::EndSession;
    lemma_sharer_message(*old(session), message, *final(session));
}

/// Every other message of a sharer changes nothing and reaches nobody.
pub proof fn other_messages_of_a_sharer_have_no_effect(
    session: &mut Session,
    message: sharer::UpstreamMessage,
    flow: SharerFlow,
)
    requires
        call_ensures(sharer_ws::handle_message, (session, message), flow),
        !(message is OrderedTerminalEvent),
        !(message is UpdateActivePrompt),
        !(message is UpdateUniversalDeveloperInputContext),
        !(message is UpdateSelection),
        !(message is UpdateInput),
        !(message is Ping),
        !(message is EndSession),
        !(message is UpdateRole),
    ensures
        flow is Continues,
        none_handed(old(session).viewers@, final(session).viewers@),
        *final(session) == (Session { viewers: final(session).viewers, ..*old(session) }),
{
    lemma_sharer_message(*old(session), message, *final(session));
}

/// What a viewer's message has put into the queues.
proof fn lemma_viewer_message(
    before: Session,
    viewer_id: ParticipantId,
    message: viewer::UpstreamMessage,
    request_id: Payload,
    after: Session,
)
    requires
        viewer_ws::handled(before, viewer_id, message, request_id, after),
    ensures
        handed(
            before.sharer_tx,
            after.sharer_tx,
            viewer_ws::to_sharer(viewer_id, message, request_id),
        ),
        viewer_ws::to_sharer(viewer_id, message, request_id).len() == 0 ==> after.sharer_tx
            == before.sharer_tx,
        forall|id: Seq<char>| #[trigger]
            viewer_handed(
                before.viewers@,
                after.viewers@,
                id,
                viewer_ws::to_viewer(id, viewer_id, message),
            ),
        (forall|id: Seq<char>| #[trigger]
            viewer_ws::to_viewer(id, viewer_id, message).len() == 0) ==> none_handed(
            before.viewers@,
            after.viewers@,
        ),
{
    let messages = |id: Seq<char>| viewer_ws::to_viewer(id, viewer_id, message);
    lemma_handed(
        before.sharer_tx,
        after.sharer_tx,
        viewer_ws::to_sharer(viewer_id, message, request_id),
    );
    lemma_table_handed(before.viewers@, after.viewers@, messages);
    assert forall|id: Seq<char>| #[trigger]
        viewer_handed(
            before.viewers@,
            after.viewers@,
            id,
            viewer_ws::to_viewer(id, viewer_id, message),
        ) by {
        assert(viewer_handed(before.viewers@, after.viewers@, id, messages(id)));
    }
    if forall|id: Seq<char>| #[trigger] viewer_ws::to_viewer(id, viewer_id, message).len() == 0 {
        assert forall|id: Seq<char>| #[trigger] messages(id).len() == 0 by {
            assert(viewer_ws::to_viewer(id, viewer_id, message).len() == 0);
        }
    }
}

/// The request that a viewer makes of the sharer with `message`, as the sharer
/// gets it: in the viewer's name, under the request's own identifier or, where
/// it comes without one, under `minted`.
pub open spec fn request(
    viewer_id: ParticipantId,
    message: viewer::UpstreamMessage,
    minted: Payload,
) -> Option<sharer::DownstreamMessage> {
    match message {
        viewer::UpstreamMessage::ExecuteCommand { buffer_id, command } => Some(
            sharer::DownstreamMessage::CommandExecutionRequested {
                id: minted,
                participant_id: viewer_id,
                buffer_id,
                command,
            },
        ),
        viewer::UpstreamMessage::WriteToPty { request_id, bytes } => Some(
            sharer::DownstreamMessage::WriteToPtyRequested { id: request_id, bytes },
        ),
        viewer::UpstreamMessage::SendAgentPrompt(prompt) => Some(
            sharer::DownstreamMessage::AgentPromptRequested {
                id: prompt.id,
                participant_id: viewer_id,
                request: prompt,
            },
        ),
        viewer::UpstreamMessage::SendControlAction(action) => Some(
            sharer::DownstreamMessage::ControlActionRequested {
                participant_id: viewer_id,
                request_id: minted,
                action,
            },
        ),
        viewer::UpstreamMessage::ReportTerminalSize { window_size } => Some(
            sharer::DownstreamMessage::ViewerTerminalSizeReported {
                participant_id: viewer_id,
                window_size,
            },
        ),
        _ => None,
    }
}

/// Every control request of a viewer, whatever it holds, reaches the sharer
/// once and as it was made, and reaches nobody else.
pub proof fn control_requests_reach_the_sharer(
    session: &mut Session,
    viewer_id: &ParticipantId,
    message: viewer::UpstreamMessage,
    minted: Payload,
)
    requires
        call_ensures(viewer_ws::handle_message, (session, viewer_id, message, minted), ()),
        request(*viewer_id, message, minted) is Some,
    ensures
        handed(
            old(session).sharer_tx,
            final(session).sharer_tx,
            seq![Outgoing::ToSharer(request(*viewer_id, message, minted)->0)],
        ),
        none_handed(old(session).viewers@, final(session).viewers@),
        only_queues_changed(*old(session), *final(session)),
{
    lemma_viewer_message(*old(session), *viewer_id, message, minted, *final(session));
}

/// Whatever a viewer types into the sharer's terminal reaches the sharer, byte
/// for byte.
pub proof fn keystrokes_reach_the_sharer(
    session: &mut Session,
    viewer_id: &ParticipantId,
    request_id: Payload,
    bytes: Vec<u8>,
    minted: Payload,
)
    requires
        call_ensures(
            viewer_ws::handle_message,
            (
                session,
                viewer_id,
                viewer::UpstreamMessage::WriteToPty { request_id, bytes },
                minted,
            ),
            (),
        ),
    ensures
        handed(
            old(session).sharer_tx,
            final(session).sharer_tx,
            seq![
                Outgoing::ToSharer(
                    sharer::DownstreamMessage::WriteToPtyRequested { id: request_id, bytes },
                ),
            ],
        ),
{
    let message = viewer::UpstreamMessage::WriteToPty { request_id, bytes };
    lemma_viewer_message(*old(session), *viewer_id, message, minted, *final(session));
}

/// A viewer's input goes to the sharer and to every other viewer as it
/// arrived, and not back to the viewer itself.
pub proof fn a_viewers_input_goes_to_all_others(
    session: &mut Session,
    viewer_id: &ParticipantId,
    update: Payload,
    minted: Payload,
)
    requires
        call_ensures(
            viewer_ws::handle_message,
            (session, viewer_id, viewer::UpstreamMessage::UpdateInput(update), minted),
            (),
        ),
    ensures
        handed(
            old(session).sharer_tx,
            final(session).sharer_tx,
            seq![Outgoing::ToSharer(sharer::DownstreamMessage::InputUpdated(update))],
        ),
        others_handed(
            old(session).viewers@,
            final(session).viewers@,
            viewer_id@,
            seq![Outgoing::ToViewer(viewer::DownstreamMessage::InputUpdated(update))],
        ),
        viewer_handed(
            old(session).viewers@,
            final(session).viewers@,
            viewer_id@,
            Seq::<Outgoing>::empty(),
        ),
        only_queues_changed(*old(session), *final(session)),
{
    let message = viewer::UpstreamMessage::UpdateInput(update);
    lemma_viewer_message(*old(session), *viewer_id, message, minted, *final(session));
    assert forall|id: Seq<char>| id != viewer_id@ implies #[trigger] viewer_handed(
        old(session).viewers@,
        final(session).viewers@,
        id,
        seq![Outgoing::ToViewer(viewer::DownstreamMessage::InputUpdated(update))],
    ) by {
        assert(viewer_ws::to_viewer(id, *viewer_id, message) == seq![
            Outgoing::ToViewer(viewer::DownstreamMessage::InputUpdated(update)),
        ]);
    }
    assert(viewer_ws::to_viewer(viewer_id@, *viewer_id, message) == Seq::<Outgoing>::empty());
}

/// A viewer's selection is shown to every other viewer in the viewer's name,
/// and to nobody else.
pub proof fn a_viewers_selection_goes_to_the_other_viewers(
    session: &mut Session,
    viewer_id: &ParticipantId,
    update: SelectionUpdate,
    minted: Payload,
)
    requires
        call_ensures(
            viewer_ws::handle_message,
            (session, viewer_id, viewer::UpstreamMessage::UpdateSelection(update), minted),
            (),
        ),
    ensures
        others_handed(
            old(session).viewers@,
            final(session).viewers@,
            viewer_id@,
            seq![
                Outgoing::ToViewer(
                    viewer::DownstreamMessage::ParticipantPresenceUpdated(
                        ParticipantPresenceUpdate {
                            participant_id: *viewer_id,
                            update: PresenceUpdate::Selection(update.selection),
                        },
                    ),
                ),
            ],
        ),
        viewer_handed(
            old(session).viewers@,
            final(session).viewers@,
            viewer_id@,
            Seq::<Outgoing>::empty(),
        ),
        *final(session) == (Session { viewers: final(session).viewers, ..*old(session) }),
{
    let message = viewer::UpstreamMessage::UpdateSelection(update);
    let shown = seq![
        Outgoing::ToViewer(
            viewer::DownstreamMessage::ParticipantPresenceUpdated(
                ParticipantPresenceUpdate {
                    participant_id: *viewer_id,
                    update: PresenceUpdate::Selection(update.selection),
                },
            ),
        ),
    ];
    lemma_viewer_message(*old(session), *viewer_id, message, minted, *final(session));
    assert forall|id: Seq<char>| id != viewer_id@ implies #[trigger] viewer_handed(
        old(session).viewers@,
        final(session).viewers@,
        id,
        shown,
    ) by {
        assert(viewer_ws::to_viewer(id, *viewer_id, message) == shown);
    }
    assert(viewer_ws::to_viewer(viewer_id@, *viewer_id, message) == Seq::<Outgoing>::empty());
}

/// A viewer's ping is answered to that viewer, with what it carried, and to
/// nobody else.
pub proof fn a_viewers_ping_is_answered(
    session: &mut Session,
    viewer_id: &ParticipantId,
    data: Payload,
    minted: Payload,
)
    requires
        call_ensures(
            viewer_ws::handle_message,
            (session, viewer_id, viewer::UpstreamMessage::Ping { data }, minted),
            (),
        ),
    ensures
        viewer_handed(
            old(session).viewers@,
            final(session).viewers@,
            viewer_id@,
            seq![Outgoing::ToViewer(viewer::DownstreamMessage::Pong { data })],
        ),
        others_handed(
            old(session).viewers@,
            final(session).viewers@,
            viewer_id@,
            Seq::<Outgoing>::empty(),
        ),
        *final(session) == (Session { viewers: final(session).viewers, ..*old(session) }),
{
    let message = viewer::UpstreamMessage::Ping { data };
    lemma_viewer_message(*old(session), *viewer_id, message, minted, *final(session));
    assert(viewer_ws::to_viewer(viewer_id@, *viewer_id, message) == seq![
        Outgoing::ToViewer(viewer::DownstreamMessage::Pong { data }),
    ]);
    assert forall|id: Seq<char>| id != viewer_id@ implies #[trigger] viewer_handed(
        old(session).viewers@,
        final(session).viewers@,
        id,
        Seq::<Outgoing>::empty(),
    ) by {
        assert(viewer_ws::to_viewer(id, *viewer_id, message) == Seq::<Outgoing>::empty());
    }
}

/// A viewer that asks for a role, whichever it is, is told that it has that
/// role, and then, with every other viewer, that the viewer's role is now that
/// one.
pub proof fn every_requested_role_is_granted_and_announced(
    session: &mut Session,
    viewer_id: &ParticipantId,
    role: Role,
    minted: Payload,
)
    requires
        call_ensures(
            viewer_ws::handle_message,
            (session, viewer_id, viewer::UpstreamMessage::RequestRole(role), minted),
            (),
        ),
    ensures
        viewer_handed(
            old(session).viewers@,
            final(session).viewers@,
            viewer_id@,
            seq![
                Outgoing::ToViewer(
                    viewer::DownstreamMessage::RoleRequestResponse(
                        RoleRequestResponse::Approved { new_role: role },
                    ),
                ),
                Outgoing::ToViewer(
                    viewer::DownstreamMessage::ParticipantRoleChanged {
                        participant_id: *viewer_id,
                        role,
                    },
                ),
            ],
        ),
        others_handed(
            old(session).viewers@,
            final(session).viewers@,
            viewer_id@,
            seq![
                Outgoing::ToViewer(
                    viewer::DownstreamMessage::ParticipantRoleChanged {
                        participant_id: *viewer_id,
                        role,
                    },
                ),
            ],
        ),
        *final(session) == (Session { viewers: final(session).viewers, ..*old(session) }),
{
    let message = viewer::UpstreamMessage::RequestRole(role);
    let approved = Outgoing::ToViewer(
        viewer::DownstreamMessage::RoleRequestResponse(
            RoleRequestResponse::Approved { new_role: role },
        ),
    );
    let changed = Outgoing::ToViewer(
        viewer::DownstreamMessage::ParticipantRoleChanged { participant_id: *viewer_id, role },
    );
    lemma_viewer_message(*old(session), *viewer_id, message, minted, *final(session));
    assert(viewer_ws::to_viewer(viewer_id@, *viewer_id, message) == seq![approved, changed]);
    assert forall|id: Seq<char>| id != viewer_id@ implies #[trigger] viewer_handed(
        old(session).viewers@,
        final(session).viewers@,
        id,
        seq![changed],
    ) by {
        assert(viewer_ws::to_viewer(id, *viewer_id, message) == seq![changed]);
    }
}

/// Every other message of a viewer changes nothing and reaches nobody.
pub proof fn other_messages_of_a_viewer_have_no_effect(
    session: &mut Session,
    viewer_id: &ParticipantId,
    message: viewer::UpstreamMessage,
    minted: Payload,
)
    requires
        call_ensures(viewer_ws::handle_message, (session, viewer_id, message, minted), ()),
        request(*viewer_id, message, minted) is None,
        !(message is UpdateInput),
        !(message is UpdateSelection),
        !(message is Ping),
        !(message is RequestRole),
    ensures
        none_handed(old(session).viewers@, final(session).viewers@),
        *final(session) == (Session { viewers: final(session).viewers, ..*old(session) }),
{
    lemma_viewer_message(*old(session), *viewer_id, message, minted, *final(session));
}

} // verus!
