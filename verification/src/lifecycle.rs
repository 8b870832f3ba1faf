//! What those who come and go get, said of the inputs and results of each
//! operation alone: opening a connection, starting, joining, leaving, resuming
//! and ending a session, and finding it in the registry.

use crate::channel::{self, queue_bound, send_log, Outgoing, Tx};
use crate::common::{
    OrderedTerminalEvent, ParticipantId, ParticipantPresenceUpdate, Payload, PresenceUpdate,
    PresentViewer, ReconnectToken, Role, Selection, SessionId,
};
use crate::frame::{next_step, Frame, Handshake, NextStep};
use crate::promises::{
    all_handed, handed, lemma_handed, lemma_seat_handed, lemma_table_handed, others_handed, queue_to,
    viewer_handed,
};
use crate::session::{newer_than, without_viewer, Session, MAX_EVENT_LOG};
use crate::sharer;
use crate::sharer_ws::{self, ResumeOutcome, SharerFlow};
use crate::state::{Config, ServerState, SessionHandle};
use crate::viewer;
use crate::viewer_ws::{self, JoinOutcome};
use crate::viewers::{
    seat_after, seat_at, table_after, to_all, to_one, to_others, Seat, Viewers,
};
use tokio::sync::mpsc::Receiver;
use vstd::prelude::*;

verus! {

/// A sharer's connection is ready once it has sent what its session starts
/// with; it is given up when it closes, fails, or sends what cannot be read,
/// and goes on waiting otherwise.
pub proof fn a_session_opens_with_initialize(
    frame: Frame<sharer::UpstreamMessage>,
    progress: Handshake<sharer::InitPayload>,
)
    requires
        call_ensures(sharer_ws::create_handshake, (frame,), progress),
    ensures
        frame matches Frame::Message(sharer::UpstreamMessage::Initialize(init)) ==> progress
            == Handshake::Ready(init),
        progress is Ready ==> (frame matches Frame::Message(sharer::UpstreamMessage::Initialize(_))),
        progress is Abandoned <==> frame is Malformed || frame is Closed || frame is Failed,
{
}

/// A returning sharer's connection is ready once it has presented its token;
/// it is given up when it closes, fails, or sends what cannot be read, and
/// goes on waiting otherwise.
pub proof fn a_resumption_opens_with_reconnect(
    frame: Frame<sharer::UpstreamMessage>,
    progress: Handshake<sharer::ReconnectPayload>,
)
    requires
        call_ensures(sharer_ws::resume_handshake, (frame,), progress),
    ensures
        frame matches Frame::Message(sharer::UpstreamMessage::Reconnect(reconnect)) ==> progress
            == Handshake::Ready(reconnect),
        progress is Ready ==> (frame matches Frame::Message(sharer::UpstreamMessage::Reconnect(_))),
        progress is Abandoned <==> frame is Malformed || frame is Closed || frame is Failed,
{
}

/// A viewer's connection is ready once the viewer has said who it is; it is
/// given up when it closes, fails, or sends what cannot be read, and goes on
/// waiting otherwise.
pub proof fn joining_opens_with_initialize(
    frame: Frame<viewer::UpstreamMessage>,
    progress: Handshake<viewer::InitPayload>,
)
    requires
        call_ensures(viewer_ws::join_handshake, (frame,), progress),
    ensures
        frame matches Frame::Message(viewer::UpstreamMessage::Initialize(init)) ==> progress
            == Handshake::Ready(init),
        progress is Ready ==> (frame matches Frame::Message(viewer::UpstreamMessage::Initialize(_))),
        progress is Abandoned <==> frame is Malformed || frame is Closed || frame is Failed,
{
}

/// On an open connection every message is handled, nothing else is, and only
/// the end of the connection ends it.
pub proof fn an_open_connection_handles_every_message<M>(frame: Frame<M>, step: NextStep<M>)
    requires
        call_ensures(next_step::<M>, (frame,), step),
    ensures
        frame matches Frame::Message(message) ==> step == NextStep::Handle(message),
        step is Handle ==> frame is Message,
        step is Stop <==> frame is Closed || frame is Failed,
{
}

/// A new connection's queue is empty, hands what it is given to its own
/// receiver, and has room for a whole event log and the confirmation after it.
pub proof fn a_new_queue_has_room_to_catch_up(ends: (Tx, Receiver<Outgoing>))
    requires
        call_ensures(channel::writer_channel, (), ends),
    ensures
        channel::feeds(ends.0, ends.1),
        send_log(ends.0).len() == 0,
        queue_bound(ends.0) > MAX_EVENT_LOG,
{
}

/// A session starts as its sharer described it, with nobody else in it and
/// nothing recorded. The sharer, on its connection, is told the identifiers
/// and the secrets that were minted, and they are the session's.
pub proof fn a_session_starts_as_described(
    session_id: SessionId,
    sharer_id: ParticipantId,
    reconnect_token: ReconnectToken,
    session_secret: Payload,
    connection: u64,
    init: sharer::InitPayload,
    tx: Tx,
    session: Session,
)
    requires
        call_ensures(
            sharer_ws::create,
            (session_id, sharer_id, reconnect_token, session_secret, connection, init, tx),
            session,
        ),
    ensures
        session.session_id == session_id,
        session.reconnect_token == reconnect_token,
        session.sharer_id == sharer_id,
        session.sharer_firebase_uid@ == "self-hosted-sharer-"@ + sharer_id.text@,
        session.sharer_connection == connection,
        handed(
            Some(tx),
            session.sharer_tx,
            seq![
                Outgoing::ToSharer(
                    sharer::DownstreamMessage::SessionInitialized {
                        session_id,
                        session_secret,
                        reconnect_token,
                        sharer_id,
                        sharer_firebase_uid: session.sharer_firebase_uid,
                    },
                ),
            ],
        ),
        starts_with(session, sharer_id, init),
        session.wf(),
{
    lemma_handed(
        Some(tx),
        session.sharer_tx,
        seq![
            Outgoing::ToSharer(
                sharer::DownstreamMessage::SessionInitialized {
                    session_id,
                    session_secret,
                    reconnect_token,
                    sharer_id,
                    sharer_firebase_uid: session.sharer_firebase_uid,
                },
            ),
        ],
    );
}

/// What a new session holds of its sharer's description.
pub open spec fn starts_with(
    session: Session,
    sharer_id: ParticipantId,
    init: sharer::InitPayload,
) -> bool {
    &&& session.viewers@.dom() == Set::<Seq<char>>::empty()
    &&& session.events@.len() == 0
    &&& session.latest_event_no is None
    &&& session.scrollback == init.scrollback
    &&& session.active_prompt == init.active_prompt
    &&& session.window_size == init.window_size
    &&& session.init_block_id == init.init_block_id
    &&& session.input_replica_id == init.input_replica_id
    &&& session.source_type == init.source_type
    &&& session.source_task_id == init.source_task_id
    &&& session.participants.sharer.info.id == sharer_id
    &&& session.participants.sharer.info.profile_data.firebase_uid == session.sharer_firebase_uid
    &&& session.participants.sharer.info.profile_data.display_name@ == "Sharer"@
    &&& session.participants.sharer.info.profile_data.input_replica_id == init.input_replica_id
    &&& session.participants.sharer.info.selection == init.selection
    &&& session.participants.present_viewers@.len() == 0
}

/// A session without connections is as its sharer described it.
pub proof fn a_bare_session_is_as_described(
    session_id: SessionId,
    sharer_id: ParticipantId,
    reconnect_token: ReconnectToken,
    init: sharer::InitPayload,
    session: Session,
)
    requires
        call_ensures(Session::new, (session_id, sharer_id, reconnect_token, init), session),
    ensures
        session.wf(),
        session.session_id == session_id,
        session.reconnect_token == reconnect_token,
        session.sharer_id == sharer_id,
        session.sharer_firebase_uid@ == "self-hosted-sharer-"@ + sharer_id.text@,
        session.sharer_tx is None,
        starts_with(session, sharer_id, init),
{
}

/// A viewer that asks for a session that is not there is told so, and nothing
/// more.
pub proof fn a_viewer_is_told_of_a_missing_session(
    init: viewer::InitPayload,
    fresh_id: ParticipantId,
    connection: u64,
    tx: Tx,
    outcome: JoinOutcome,
)
    requires
        call_ensures(
            viewer_ws::join,
            (None::<&mut Session>, init, fresh_id, connection, tx),
            outcome,
        ),
    ensures
        outcome matches JoinOutcome::Refused { link } && handed(
            Some(tx),
            link,
            seq![
                Outgoing::ToViewer(
                    viewer::DownstreamMessage::FailedToJoin {
                        reason: viewer::FailedToJoinReason::SessionNotFound,
                    },
                ),
            ],
        ),
{
    match outcome {
        JoinOutcome::Refused { link } => {
            lemma_handed(Some(tx), link, seq![viewer_ws::refusal()]);
        },
        _ => {},
    }
}

/// A sharer that asks for a session that is not there is told so, and nothing
/// more.
pub proof fn a_sharer_is_told_of_a_missing_session(
    reconnect: sharer::ReconnectPayload,
    connection: u64,
    tx: Tx,
    outcome: ResumeOutcome,
)
    requires
        call_ensures(
            sharer_ws::resume,
            (None::<&mut Session>, reconnect, connection, tx),
            outcome,
        ),
    ensures
        outcome matches ResumeOutcome::Refused { link } && handed(
            Some(tx),
            link,
            seq![
                Outgoing::ToSharer(
                    sharer::DownstreamMessage::FailedToReconnect {
                        reason: sharer::ReconnectionFailedReason::SessionNotFound,
                    },
                ),
            ],
        ),
{
    match outcome {
        ResumeOutcome::Refused { link } => {
            lemma_handed(
                Some(tx),
                link,
                seq![sharer_ws::refusal(sharer::ReconnectionFailedReason::SessionNotFound)],
            );
        },
        _ => {},
    }
}

/// A sharer with another token than the session's is turned away: it is told
/// why, and the session stays as it is.
pub proof fn a_wrong_token_is_turned_away(
    session: &mut Session,
    reconnect: sharer::ReconnectPayload,
    connection: u64,
    tx: Tx,
    outcome: ResumeOutcome,
)
    requires
        call_ensures(sharer_ws::resume, (Some(session), reconnect, connection, tx), outcome),
        reconnect.reconnect_token.text@ != old(session).reconnect_token.text@,
    ensures
        *final(session) == *old(session),
        outcome matches ResumeOutcome::Refused { link } && handed(
            Some(tx),
            link,
            seq![
                Outgoing::ToSharer(
                    sharer::DownstreamMessage::FailedToReconnect {
                        reason: sharer::ReconnectionFailedReason::WrongReconnectionToken,
                    },
                ),
            ],
        ),
{
    match outcome {
        ResumeOutcome::Refused { link } => {
            lemma_handed(
                Some(tx),
                link,
                seq![sharer_ws::refusal(sharer::ReconnectionFailedReason::WrongReconnectionToken)],
            );
        },
        _ => {},
    }
}

/// A sharer with the session's token takes the session over on its connection,
/// and is told the highest event number that the session has recorded and who
/// takes part. Nothing else changes.
pub proof fn the_right_token_resumes(
    session: &mut Session,
    reconnect: sharer::ReconnectPayload,
    connection: u64,
    tx: Tx,
    outcome: ResumeOutcome,
)
    requires
        call_ensures(sharer_ws::resume, (Some(session), reconnect, connection, tx), outcome),
        reconnect.reconnect_token.text@ == old(session).reconnect_token.text@,
    ensures
        outcome is Resumed,
        handed(
            Some(tx),
            final(session).sharer_tx,
            seq![
                Outgoing::ToSharer(
                    sharer::DownstreamMessage::SessionReconnected {
                        last_received_event_no: old(session).latest_event_no,
                        participant_list: old(session).participants,
                    },
                ),
            ],
        ),
        *final(session) == (Session {
            sharer_tx: final(session).sharer_tx,
            sharer_connection: connection,
            ..*old(session)
        }),
{
    lemma_handed(
        Some(tx),
        final(session).sharer_tx,
        seq![
            Outgoing::ToSharer(
                sharer::DownstreamMessage::SessionReconnected {
                    last_received_event_no: old(session).latest_event_no,
                    participant_list: old(session).participants,
                },
            ),
        ],
    );
}

/// The events of `log` that a viewer has not received whose last one was
/// `last`; all of them for a viewer that has received none.
pub open spec fn missed(log: Seq<OrderedTerminalEvent>, last: Option<usize>) -> Seq<
    OrderedTerminalEvent,
> {
    log.filter(|e: OrderedTerminalEvent| last is None || e.event_no > last->0)
}

proof fn lemma_filter_everything(log: Seq<OrderedTerminalEvent>)
    ensures
        missed(log, None) == log,
    decreases log.len(),
{
    reveal(Seq::filter);
    if log.len() > 0 {
        lemma_filter_everything(log.drop_last());
        assert(log.drop_last().push(log.last()) =~= log);
    }
}

proof fn lemma_missed(log: Seq<OrderedTerminalEvent>, last: Option<usize>)
    ensures
        missed(log, last) == newer_than(log, last),
{
    match last {
        None => {
            lemma_filter_everything(log);
        },
        Some(n) => {
            let one = |e: OrderedTerminalEvent| last is None || e.event_no > last->0;
            let other = |e: OrderedTerminalEvent| e.event_no > n;
            assert(one =~= other);
        },
    }
}

/// The events that a viewer has missed are those of the log with a higher
/// number than the last that it has received, in the order of the log; for a
/// viewer that has received none they are the whole log.
pub proof fn missed_events_are_those_with_higher_numbers(
    session: &Session,
    after: Option<usize>,
    found: Vec<OrderedTerminalEvent>,
)
    requires
        call_ensures(Session::events_after, (session, after), found),
    ensures
        found@ == missed(session.events@, after),
        after is None ==> found@ == session.events@,
{
    lemma_missed(session.events@, after);
    lemma_filter_everything(session.events@);
}

/// What a viewer that comes back is handed: every event of `log` that it has
/// missed, in order, and then that it is back, with who takes part.
pub open spec fn catch_up(session: Session, last: Option<usize>) -> Seq<Outgoing> {
    Seq::new(
        missed(session.events@, last).len(),
        |i: int|
            Outgoing::ToViewer(
                viewer::DownstreamMessage::OrderedTerminalEvent(missed(session.events@, last)[i]),
            ),
    ).push(
        Outgoing::ToViewer(
            viewer::DownstreamMessage::RejoinedSuccessfully {
                participant_list: session.participants,
            },
        ),
    )
}

/// A viewer that comes back is sent, on its new connection, exactly the events
/// of the log with a higher number than the last that it has received, in the
/// order of the log, and then that it is back. It is on the new connection from
/// then on. The other viewers, the sharer and all else stay as they are.
pub proof fn a_returning_viewer_is_sent_what_it_missed(
    session: &mut Session,
    init: viewer::InitPayload,
    fresh_id: ParticipantId,
    connection: u64,
    tx: Tx,
    outcome: JoinOutcome,
)
    requires
        call_ensures(viewer_ws::join, (Some(session), init, fresh_id, connection, tx), outcome),
        init.viewer_id is Some,
    ensures
        outcome == (JoinOutcome::Rejoined { viewer_id: init.viewer_id->0 }),
        handed(
            Some(tx),
            queue_to(final(session).viewers@, init.viewer_id->0.text@),
            catch_up(*old(session), init.last_received_event_no),
        ),
        final(session).viewers@.contains_key(init.viewer_id->0.text@) ==> final(session).viewers@[init.viewer_id->0.text@].connection == connection,
        final(session).viewers@.remove(init.viewer_id->0.text@) == old(session).viewers@.remove(
            init.viewer_id->0.text@,
        ),
        *final(session) == (Session { viewers: final(session).viewers, ..*old(session) }),
{
    let me = init.viewer_id->0.text@;
    let last = init.last_received_event_no;
    lemma_missed(old(session).events@, last);
    assert(viewer_ws::rejoin_messages(*old(session), last) =~= catch_up(*old(session), last));
    lemma_handed(
        Some(tx),
        queue_to(final(session).viewers@, me),
        catch_up(*old(session), last),
    );
    assert(final(session).viewers@.remove(me) =~= old(session).viewers@.remove(me));
}

/// A viewer that is new is listed last, under the identifier that was minted
/// for it, with full access; it is sent what it needs to show the session, and
/// everybody is sent the new list. All else stays as it is.
pub proof fn a_new_viewer_is_welcomed(
    session: &mut Session,
    init: viewer::InitPayload,
    fresh_id: ParticipantId,
    connection: u64,
    tx: Tx,
    outcome: JoinOutcome,
)
    requires
        call_ensures(viewer_ws::join, (Some(session), init, fresh_id, connection, tx), outcome),
        init.viewer_id is None,
    ensures
        outcome == (JoinOutcome::Joined { viewer_id: fresh_id }),
        newly_listed(*old(session), fresh_id, old(session).input_replica_id, *final(session)),
        handed(
            Some(tx),
            queue_to(final(session).viewers@, fresh_id.text@),
            seq![
                Outgoing::ToViewer(
                    viewer::DownstreamMessage::JoinedSuccessfully {
                        scrollback: old(session).scrollback,
                        active_prompt: old(session).active_prompt,
                        latest_event_no: old(session).latest_event_no,
                        window_size: old(session).window_size,
                        participant_list: final(session).participants,
                        viewer_id: fresh_id,
                        viewer_firebase_uid: final(session).participants.present_viewers@.last().info.profile_data.firebase_uid,
                        init_block_id: old(session).init_block_id,
                        input_replica_id: old(session).input_replica_id,
                        universal_developer_input_context: None,
                        source_type: old(session).source_type,
                        source_task_id: old(session).source_task_id,
                    },
                ),
                Outgoing::ToViewer(
                    viewer::DownstreamMessage::ParticipantListUpdated(final(session).participants),
                ),
            ],
        ),
        final(session).viewers@.contains_key(fresh_id.text@) ==> final(session).viewers@[fresh_id.text@].connection == connection,
        others_handed(
            old(session).viewers@,
            final(session).viewers@,
            fresh_id.text@,
            seq![
                Outgoing::ToViewer(
                    viewer::DownstreamMessage::ParticipantListUpdated(final(session).participants),
                ),
            ],
        ),
        handed(
            old(session).sharer_tx,
            final(session).sharer_tx,
            seq![
                Outgoing::ToSharer(
                    sharer::DownstreamMessage::ParticipantListUpdated(final(session).participants),
                ),
            ],
        ),
        *final(session) == (Session {
            sharer_tx: final(session).sharer_tx,
            viewers: final(session).viewers,
            participants: final(session).participants,
            ..*old(session)
        }),
{
    let me = fresh_id.text@;
    let listed = final(session).participants.present_viewers@;
    assert(listed =~= listed.drop_last().push(listed.last()));
    let news = seq![
        Outgoing::ToViewer(
            viewer::DownstreamMessage::ParticipantListUpdated(final(session).participants),
        ),
    ];
    lemma_handed(
        Some(tx),
        queue_to(final(session).viewers@, me),
        seq![
            viewer_ws::welcome(*final(session), fresh_id),
            viewer_ws::list_to_viewer(final(session).participants),
        ],
    );
    lemma_handed(
        old(session).sharer_tx,
        final(session).sharer_tx,
        seq![viewer_ws::list_to_sharer(final(session).participants)],
    );
    assert forall|id: Seq<char>| id != me implies #[trigger] viewer_handed(
        old(session).viewers@,
        final(session).viewers@,
        id,
        news,
    ) by {
        assert(seat_after(
            seat_at(old(session).viewers@, id),
            seat_at(final(session).viewers@, id),
            news,
        ));
        lemma_seat_handed(old(session).viewers@, final(session).viewers@, id, news);
    }
}

/// The list of participants in `after` is that in `before` with the viewer `id`
/// at its end, by generic names, with nothing selected and with full access.
pub open spec fn newly_listed(
    before: Session,
    id: ParticipantId,
    replica: Payload,
    after: Session,
) -> bool {
    let listed = after.participants.present_viewers@;
    let new = listed.last();
    &&& after.participants.sharer == before.participants.sharer
    &&& listed == before.participants.present_viewers@.push(new)
    &&& new.info.id == id
    &&& new.info.profile_data.firebase_uid@ == "self-hosted-viewer-"@ + id.text@
    &&& new.info.profile_data.display_name@ == "Viewer"@
    &&& new.info.profile_data.input_replica_id == replica
    &&& new.info.selection == Selection::Unset
    &&& new.max_acl == Role::Full
}

/// A viewer that is listed as present is listed last, with full access.
pub proof fn a_listed_viewer_has_full_access(
    session: &mut Session,
    id: ParticipantId,
    replica: Payload,
)
    requires
        call_ensures(Session::add_present_viewer, (session, id, replica), ()),
    ensures
        final(session).wf(),
        newly_listed(*old(session), id, replica, *final(session)),
        *final(session) == (Session {
            participants: final(session).participants,
            ..*old(session)
        }),
{
    let listed = final(session).participants.present_viewers@;
    assert(listed =~= listed.drop_last().push(listed.last()));
}

/// The viewers of `list` that are not `id`, in their order.
pub open spec fn all_but(list: Seq<PresentViewer>, id: Seq<char>) -> Seq<PresentViewer> {
    list.filter(|v: PresentViewer| v.info.id.text@ != id)
}

pub(crate) proof fn lemma_all_but(list: Seq<PresentViewer>, id: Seq<char>)
    ensures
        all_but(list, id) == without_viewer(list, id),
    decreases list.len(),
{
    reveal(Seq::filter);
    if list.len() > 0 {
        lemma_all_but(list.drop_last(), id);
    }
}

/// A viewer that is taken off the list is gone from it, and nobody else is.
pub proof fn an_unlisted_viewer_is_gone(session: &mut Session, id: &ParticipantId)
    requires
        call_ensures(Session::remove_present_viewer, (session, id), ()),
    ensures
        final(session).wf(),
        final(session).participants.present_viewers@ == all_but(
            old(session).participants.present_viewers@,
            id.text@,
        ),
        final(session).participants.sharer == old(session).participants.sharer,
        *final(session) == (Session {
            participants: final(session).participants,
            ..*old(session)
        }),
{
    lemma_all_but(old(session).participants.present_viewers@, id.text@);
}

/// When a viewer's connection is over, then, unless the viewer is on another
/// one by then, it is neither connected nor listed any more, everybody else is
/// sent the new list, and all else stays. Where it is on another one, nothing
/// at all changes.
pub proof fn a_viewer_leaves_with_its_connection(
    session: &mut Session,
    viewer_id: &ParticipantId,
    connection: u64,
    gone: bool,
)
    requires
        call_ensures(viewer_ws::leave, (session, viewer_id, connection), gone),
    ensures
        gone <==> !(old(session).viewers@.contains_key(viewer_id.text@) && old(session).viewers@[viewer_id.text@].connection != connection),
        !gone ==> *final(session) == *old(session),
        gone ==> {
            &&& !final(session).viewers@.contains_key(viewer_id.text@)
            &&& final(session).participants.present_viewers@ == all_but(
                old(session).participants.present_viewers@,
                viewer_id.text@,
            )
            &&& final(session).participants.sharer == old(session).participants.sharer
            &&& others_handed(
                old(session).viewers@,
                final(session).viewers@,
                viewer_id.text@,
                seq![
                    Outgoing::ToViewer(
                        viewer::DownstreamMessage::ParticipantListUpdated(
                            final(session).participants,
                        ),
                    ),
                ],
            )
            &&& handed(
                old(session).sharer_tx,
                final(session).sharer_tx,
                seq![
                    Outgoing::ToSharer(
                        sharer::DownstreamMessage::ParticipantListUpdated(
                            final(session).participants,
                        ),
                    ),
                ],
            )
            &&& *final(session) == (Session {
                sharer_tx: final(session).sharer_tx,
                viewers: final(session).viewers,
                participants: final(session).participants,
                ..*old(session)
            })
        },
{
    let me = viewer_id.text@;
    let before = old(session).viewers@;
    let after = final(session).viewers@;
    if gone {
        let news = seq![
            Outgoing::ToViewer(
                viewer::DownstreamMessage::ParticipantListUpdated(final(session).participants),
            ),
        ];
        lemma_all_but(old(session).participants.present_viewers@, me);
        lemma_handed(
            old(session).sharer_tx,
            final(session).sharer_tx,
            seq![viewer_ws::list_to_sharer(final(session).participants)],
        );
        lemma_table_handed(
            before.remove(me),
            after,
            |id: Seq<char>| seq![viewer_ws::list_to_viewer(final(session).participants)],
        );
        assert(seat_at(before.remove(me), me) is None);
        assert(seat_at(after, me) is None);
        assert forall|id: Seq<char>| id != me implies #[trigger] viewer_handed(
            before,
            after,
            id,
            news,
        ) by {
            assert(seat_at(before.remove(me), id) == seat_at(before, id));
            assert(seat_after(seat_at(before.remove(me), id), seat_at(after, id), news));
            lemma_seat_handed(before, after, id, news);
        }
    }
}

/// The end of the connection that the sharer is on leaves the session without
/// a sharer, and waiting for one; the end of any other changes nothing.
pub proof fn a_session_waits_once_its_sharer_is_gone(
    session: &mut Session,
    connection: u64,
    waits: bool,
)
    requires
        call_ensures(Session::sharer_disconnected, (session, connection), waits),
    ensures
        waits <==> old(session).sharer_connection == connection,
        waits ==> *final(session) == (Session { sharer_tx: None, ..*old(session) }),
        !waits ==> *final(session) == *old(session),
{
}

/// A sharer's connection that is given the role has it.
pub proof fn an_attached_sharer_has_the_role(session: &mut Session, connection: u64, tx: Tx)
    requires
        call_ensures(Session::attach_sharer, (session, connection, tx), ()),
    ensures
        final(session).wf(),
        *final(session) == (Session {
            sharer_tx: Some(tx),
            sharer_connection: connection,
            ..*old(session)
        }),
{
}

/// That a session is over, as every viewer is told.
pub open spec fn it_is_over() -> Seq<Outgoing> {
    seq![
        Outgoing::ToViewer(
            viewer::DownstreamMessage::SessionEnded {
                reason: viewer::SessionEndedReason::EndedBySharer,
            },
        ),
    ]
}

/// Once the wait for a sharer is over the session ends, and every viewer is
/// told, if and only if the connection that was lost is still the last that
/// the sharer was on and no sharer is connected.
pub proof fn a_session_ends_if_nobody_came_back(
    session: &mut Session,
    connection: u64,
    reaped: bool,
)
    requires
        call_ensures(Session::reap, (session, connection), reaped),
    ensures
        reaped <==> old(session).sharer_tx is None && old(session).sharer_connection == connection,
        reaped ==> all_handed(old(session).viewers@, final(session).viewers@, it_is_over()),
        reaped ==> *final(session) == (Session {
            viewers: final(session).viewers,
            ..*old(session)
        }),
        !reaped ==> *final(session) == *old(session),
{
    if reaped {
        lemma_all_handed(
            old(session).viewers@,
            final(session).viewers@,
            viewer::DownstreamMessage::SessionEnded {
                reason: viewer::SessionEndedReason::EndedBySharer,
            },
        );
    }
}

/// A session that ends because nobody came back leaves the registry, and no
/// other session does.
pub proof fn a_session_that_nobody_came_back_to_is_not_found(
    state: &mut ServerState,
    id: &SessionId,
    session: &mut Session,
    connection: u64,
    reaped: bool,
)
    requires
        call_ensures(ServerState::reap, (state, id, session, connection), reaped),
    ensures
        final(session).wf(),
        reaped <==> old(session).sharer_tx is None && old(session).sharer_connection == connection,
        reaped ==> all_handed(old(session).viewers@, final(session).viewers@, it_is_over()),
        reaped ==> *final(session) == (Session {
            viewers: final(session).viewers,
            ..*old(session)
        }),
        reaped ==> !final(state)@.contains_key(*id),
        reaped ==> final(state)@ == old(state)@.remove(*id),
        !reaped ==> *final(session) == *old(session),
        !reaped ==> final(state)@ == old(state)@,
        final(state).settings() == old(state).settings(),
{
    if reaped {
        lemma_all_handed(
            old(session).viewers@,
            final(session).viewers@,
            viewer::DownstreamMessage::SessionEnded {
                reason: viewer::SessionEndedReason::EndedBySharer,
            },
        );
    }
}

/// A session leaves the registry when its sharer has ended it, and no other
/// session does; it stays while it goes on.
pub proof fn a_session_that_was_ended_is_not_found(
    state: &mut ServerState,
    id: &SessionId,
    flow: SharerFlow,
)
    requires
        call_ensures(ServerState::conclude, (state, id, flow), ()),
    ensures
        flow is Ended ==> !final(state)@.contains_key(*id),
        flow is Ended ==> final(state)@ == old(state)@.remove(*id),
        flow is Continues ==> final(state)@ == old(state)@,
        final(state).settings() == old(state).settings(),
{
}

/// A registry starts empty and with the configuration that it was given.
pub proof fn a_registry_starts_empty(config: Config, state: ServerState, read: &Config)
    requires
        call_ensures(ServerState::with_config, (config,), state),
        call_ensures(ServerState::config, (&state,), read),
    ensures
        forall|id: SessionId| !state@.contains_key(id),
        *read == config,
{
}

/// A session that was inserted is found under its identifier; what is found
/// under any other identifier is what was found there before.
pub proof fn an_inserted_session_is_found(
    state: &mut ServerState,
    id: SessionId,
    session: SessionHandle,
    asked: &SessionId,
    before: Option<SessionHandle>,
    after: Option<SessionHandle>,
)
    requires
        call_ensures(ServerState::get, (&*old(state), asked), before),
        call_ensures(ServerState::insert, (state, id, session), ()),
        call_ensures(ServerState::get, (&*final(state), asked), after),
    ensures
        *asked == id ==> after == Some(session),
        *asked != id ==> after == before,
        final(state).settings() == old(state).settings(),
{
}

/// A session that was removed is not found; what is found under any other
/// identifier is what was found there before.
pub proof fn a_removed_session_is_not_found(
    state: &mut ServerState,
    id: &SessionId,
    asked: &SessionId,
    before: Option<SessionHandle>,
    after: Option<SessionHandle>,
)
    requires
        call_ensures(ServerState::get, (&*old(state), asked), before),
        call_ensures(ServerState::remove, (state, id), ()),
        call_ensures(ServerState::get, (&*final(state), asked), after),
    ensures
        *asked == *id ==> after is None,
        *asked != *id ==> after == before,
        final(state).settings() == old(state).settings(),
{
}

/// A lookup finds what the registry holds.
pub proof fn a_live_session_is_found(
    state: &ServerState,
    id: &SessionId,
    found: Option<SessionHandle>,
)
    requires
        call_ensures(ServerState::get, (state, id), found),
    ensures
        found is Some <==> state@.contains_key(*id),
        found is Some ==> found->0 == state@[*id],
{
}

proof fn lemma_all_handed(
    before: Map<Seq<char>, Seat>,
    after: Map<Seq<char>, Seat>,
    message: viewer::DownstreamMessage,
)
    requires
        table_after(before, after, to_all(message)),
    ensures
        all_handed(before, after, seq![Outgoing::ToViewer(message)]),
{
    lemma_table_handed(before, after, to_all(message));
    assert forall|id: Seq<char>| #[trigger]
        viewer_handed(before, after, id, seq![Outgoing::ToViewer(message)]) by {
        assert(viewer_handed(before, after, id, to_all(message)(id)));
    }
}

/// A broadcast reaches every viewer, and changes nothing else.
pub proof fn a_broadcast_reaches_every_viewer(
    session: &mut Session,
    message: viewer::DownstreamMessage,
)
    requires
        call_ensures(Session::broadcast_viewers, (session, message), ()),
    ensures
        final(session).wf(),
        all_handed(
            old(session).viewers@,
            final(session).viewers@,
            seq![Outgoing::ToViewer(message)],
        ),
        *final(session) == (Session { viewers: final(session).viewers, ..*old(session) }),
{
    lemma_all_handed(old(session).viewers@, final(session).viewers@, message);
}

/// What is sent to the sharer goes into the sharer's queue, and changes nothing
/// else.
pub proof fn a_message_to_the_sharer_goes_to_the_sharer(
    session: &mut Session,
    message: sharer::DownstreamMessage,
)
    requires
        call_ensures(Session::send_sharer, (session, message), ()),
    ensures
        final(session).wf(),
        handed(
            old(session).sharer_tx,
            final(session).sharer_tx,
            seq![Outgoing::ToSharer(message)],
        ),
        *final(session) == (Session { sharer_tx: final(session).sharer_tx, ..*old(session) }),
{
    lemma_handed(
        old(session).sharer_tx,
        final(session).sharer_tx,
        seq![Outgoing::ToSharer(message)],
    );
}

/// A recorded event is last in the log, which loses its oldest event if it was
/// full, and goes to every viewer; the highest number so far is remembered.
pub proof fn a_recorded_event_is_kept_and_sent(session: &mut Session, event: OrderedTerminalEvent)
    requires
        call_ensures(Session::record_and_broadcast_event, (session, event), ()),
    ensures
        final(session).wf(),
        all_handed(
            old(session).viewers@,
            final(session).viewers@,
            seq![Outgoing::ToViewer(viewer::DownstreamMessage::OrderedTerminalEvent(event))],
        ),
        old(session).events@.len() < MAX_EVENT_LOG ==> final(session).events@ == old(session).events@.push(event),
        old(session).events@.len() == MAX_EVENT_LOG ==> final(session).events@ == old(session).events@.subrange(1, MAX_EVENT_LOG as int).push(event),
        final(session).latest_event_no is Some,
        final(session).latest_event_no->0 >= event.event_no,
        old(session).latest_event_no matches Some(n) ==> final(session).latest_event_no->0 >= n,
        final(session).latest_event_no == Some(event.event_no)
            || final(session).latest_event_no == old(session).latest_event_no,
        *final(session) == (Session {
            viewers: final(session).viewers,
            events: final(session).events,
            latest_event_no: final(session).latest_event_no,
            ..*old(session)
        }),
{
    let log = old(session).events@;
    if log.len() == MAX_EVENT_LOG {
        assert(log.push(event).skip(1) =~= log.subrange(1, MAX_EVENT_LOG as int).push(event));
    }
    lemma_all_handed(
        old(session).viewers@,
        final(session).viewers@,
        viewer::DownstreamMessage::OrderedTerminalEvent(event),
    );
}

/// A new table of viewers is empty.
pub proof fn a_new_table_is_empty(table: Viewers)
    requires
        call_ensures(Viewers::new, (), table),
    ensures
        table.wf(),
        forall|id: Seq<char>| !table@.contains_key(id),
{
}

/// A viewer that is put on a seat sits there, and one that is taken off its
/// seat is gone with it; the others keep their seats.
pub proof fn a_seat_is_had_from_put_to_take(
    table: &mut Viewers,
    id: ParticipantId,
    seat: Option<Seat>,
    later: &mut Viewers,
    taken: Option<Seat>,
    asked: &ParticipantId,
    connection: Option<u64>,
)
    requires
        call_ensures(Viewers::put, (table, id, seat), ()),
        *old(later) == *final(table),
        call_ensures(Viewers::connection_of, (&*old(later), asked), connection),
        call_ensures(Viewers::take, (later, asked), taken),
    ensures
        asked.text@ == id.text@ ==> taken == seat,
        asked.text@ != id.text@ ==> (taken is Some <==> old(table)@.contains_key(asked.text@)),
        asked.text@ != id.text@ && taken is Some ==> taken->0 == old(table)@[asked.text@],
        connection is Some <==> taken is Some,
        connection is Some ==> connection->0 == taken->0.connection,
        final(table)@.remove(id.text@) == old(table)@.remove(id.text@),
        final(later)@ == old(later)@.remove(asked.text@),
        final(table).wf(),
        final(later).wf(),
{
    assert(final(table)@.remove(id.text@) =~= old(table)@.remove(id.text@));
}

/// What is sent to one viewer goes to that viewer alone.
pub proof fn a_message_to_one_viewer_goes_to_it_alone(
    table: &mut Viewers,
    id: &ParticipantId,
    message: viewer::DownstreamMessage,
)
    requires
        call_ensures(Viewers::send_to, (table, id, message), ()),
    ensures
        final(table).wf(),
        viewer_handed(old(table)@, final(table)@, id.text@, seq![Outgoing::ToViewer(message)]),
        others_handed(old(table)@, final(table)@, id.text@, Seq::<Outgoing>::empty()),
{
    let messages = to_one(id@, message);
    lemma_table_handed(old(table)@, final(table)@, messages);
    assert(viewer_handed(old(table)@, final(table)@, id@, messages(id@)));
    assert forall|other: Seq<char>| other != id.text@ implies #[trigger] viewer_handed(
        old(table)@,
        final(table)@,
        other,
        Seq::<Outgoing>::empty(),
    ) by {
        assert(viewer_handed(old(table)@, final(table)@, other, messages(other)));
    }
}

/// What is sent to all viewers goes to all, but for one that is left out, which
/// gets nothing.
pub proof fn a_message_to_all_viewers_leaves_out_one_at_most(
    table: &mut Viewers,
    except: Option<&ParticipantId>,
    message: viewer::DownstreamMessage,
)
    requires
        call_ensures(Viewers::fan_out, (table, except, message), ()),
    ensures
        final(table).wf(),
        except is None ==> all_handed(
            old(table)@,
            final(table)@,
            seq![Outgoing::ToViewer(message)],
        ),
        except matches Some(me) ==> others_handed(
            old(table)@,
            final(table)@,
            me.text@,
            seq![Outgoing::ToViewer(message)],
        ) && viewer_handed(old(table)@, final(table)@, me.text@, Seq::<Outgoing>::empty()),
{
    match except {
        None => {
            lemma_all_handed(old(table)@, final(table)@, message);
        },
        Some(me) => {
            let messages = to_others(me@, message);
            lemma_table_handed(old(table)@, final(table)@, messages);
            assert(viewer_handed(old(table)@, final(table)@, me@, messages(me@)));
            assert forall|other: Seq<char>| other != me.text@ implies #[trigger] viewer_handed(
                old(table)@,
                final(table)@,
                other,
                seq![Outgoing::ToViewer(message)],
            ) by {
                assert(viewer_handed(old(table)@, final(table)@, other, messages(other)));
            }
        },
    }
}

/// A session is in order when its table is, its log is within bounds, it knows
/// a number at least as high as any in the log, its sharer is listed under its
/// own identifier and name, and every viewer has full access. No more is asked.
pub proof fn a_session_in_order(session: Session)
    ensures
        session.wf() <==> {
            &&& session.viewers.wf()
            &&& session.events@.len() <= MAX_EVENT_LOG
            &&& forall|i: int|
                0 <= i < session.events@.len() ==> session.latest_event_no is Some && (
                #[trigger] session.events@[i]).event_no <= session.latest_event_no->0
            &&& session.participants.sharer.info.id == session.sharer_id
            &&& session.participants.sharer.info.profile_data.firebase_uid
                == session.sharer_firebase_uid
            &&& forall|i: int|
                0 <= i < session.participants.present_viewers@.len() ==> (
                #[trigger] session.participants.present_viewers@[i]).max_acl == Role::Full
        },
{
}

/// A session that is in order serves everybody: whatever message comes from
/// whomever, whoever joins, leaves or resumes, nothing more is asked of them.
pub proof fn a_session_in_order_serves_everybody(
    session: &mut Session,
    from_sharer: sharer::UpstreamMessage,
    viewer_id: &ParticipantId,
    from_viewer: viewer::UpstreamMessage,
    minted: Payload,
    joining: viewer::InitPayload,
    fresh_id: ParticipantId,
    reconnect: sharer::ReconnectPayload,
    connection: u64,
    tx: Tx,
    after: Option<usize>,
    event: OrderedTerminalEvent,
    to_viewers: viewer::DownstreamMessage,
    to_sharer: sharer::DownstreamMessage,
)
    requires
        old(session).wf(),
    ensures
        call_requires(sharer_ws::handle_message, (session, from_sharer)),
        call_requires(viewer_ws::handle_message, (session, viewer_id, from_viewer, minted)),
        call_requires(viewer_ws::join, (Some(session), joining, fresh_id, connection, tx)),
        call_requires(viewer_ws::join, (None::<&mut Session>, joining, fresh_id, connection, tx)),
        call_requires(viewer_ws::leave, (session, viewer_id, connection)),
        call_requires(sharer_ws::resume, (Some(session), reconnect, connection, tx)),
        call_requires(sharer_ws::resume, (None::<&mut Session>, reconnect, connection, tx)),
        call_requires(Session::sharer_disconnected, (session, connection)),
        call_requires(Session::reap, (session, connection)),
        call_requires(Session::events_after, (&*old(session), after)),
        call_requires(Session::record_and_broadcast_event, (session, event)),
        call_requires(Session::broadcast_viewers, (session, to_viewers)),
        call_requires(Session::send_sharer, (session, to_sharer)),
        call_requires(Session::attach_sharer, (session, connection, tx)),
        call_requires(Session::add_present_viewer, (session, fresh_id, minted)),
        call_requires(Session::remove_present_viewer, (session, viewer_id)),
{
}

/// A table that is in order takes every request.
pub proof fn a_table_in_order_takes_every_request(
    table: &mut Viewers,
    id: ParticipantId,
    seat: Option<Seat>,
    except: Option<&ParticipantId>,
    message: viewer::DownstreamMessage,
)
    requires
        old(table).wf(),
    ensures
        call_requires(Viewers::connection_of, (&*old(table), &id)),
        call_requires(Viewers::take, (table, &id)),
        call_requires(Viewers::put, (table, id, seat)),
        call_requires(Viewers::send_to, (table, &id, message)),
        call_requires(Viewers::fan_out, (table, except, message)),
{
}

/// Any frame can be looked at, any session can be started, and the registry
/// takes any request.
pub proof fn nobody_is_turned_away_at_the_door(
    from_sharer: Frame<sharer::UpstreamMessage>,
    from_viewer: Frame<viewer::UpstreamMessage>,
    session_id: SessionId,
    sharer_id: ParticipantId,
    reconnect_token: ReconnectToken,
    session_secret: Payload,
    connection: u64,
    init: sharer::InitPayload,
    tx: Tx,
    config: Config,
    state: &mut ServerState,
    session: SessionHandle,
    flow: SharerFlow,
    abandoned: &mut Session,
)
    requires
        old(abandoned).wf(),
    ensures
        call_requires(sharer_ws::create_handshake, (from_sharer,)),
        call_requires(sharer_ws::resume_handshake, (from_sharer,)),
        call_requires(viewer_ws::join_handshake, (from_viewer,)),
        call_requires(next_step::<sharer::UpstreamMessage>, (from_sharer,)),
        call_requires(channel::writer_channel, ()),
        call_requires(
            sharer_ws::create,
            (session_id, sharer_id, reconnect_token, session_secret, connection, init, tx),
        ),
        call_requires(ServerState::with_config, (config,)),
        call_requires(ServerState::get, (&*old(state), &session_id)),
        call_requires(ServerState::insert, (state, session_id, session)),
        call_requires(ServerState::remove, (state, &session_id)),
        call_requires(ServerState::conclude, (state, &session_id, flow)),
        call_requires(ServerState::reap, (state, &session_id, abandoned, connection)),
{
}

/// A presence names the participant and what it has selected.
pub proof fn a_presence_names_who_and_what(
    id: &ParticipantId,
    selection: Selection,
    update: ParticipantPresenceUpdate,
)
    requires
        call_ensures(sharer_ws::presence_update_for, (id, selection), update),
    ensures
        update.participant_id == *id,
        update.update == PresenceUpdate::Selection(selection),
{
}

/// Two identifiers are the same if and only if their texts are.
pub proof fn identifiers_are_told_apart_by_their_text(
    one: &ParticipantId,
    other: &ParticipantId,
    same: bool,
)
    requires
        call_ensures(ParticipantId::same_as, (one, other), same),
    ensures
        same <==> one.text@ == other.text@,
{
}

} // verus!
