//! What the participants of a session get over its whole life: however a
//! session came to be as it is, what it tells is what has happened in it.

use crate::channel::{Outgoing, Tx};
use crate::common::{
    OrderedTerminalEvent, ParticipantId, Payload, PresentViewer, ReconnectToken, Selection,
    SessionId,
};
use crate::laws::{
    a_session_keeps_its_identity, events_of, history, is_terminal_output, lemma_shorter_history,
    moves, moves_sharer, output_is_lossless_and_ordered, requests_and_acks_reach_the_sharer,
    sent_over, sent_to_sharer_by, sent_to_sharer_over, steps_to, Step,
};
use crate::lifecycle::{
    a_new_viewer_is_welcomed, a_returning_viewer_is_sent_what_it_missed,
    a_session_starts_as_described, a_wrong_token_is_turned_away, all_but, catch_up, lemma_all_but,
    missed, the_right_token_resumes,
};
use crate::promises::{handed, lemma_handed, lemma_seat_handed, queue_to, request, viewer_handed};
use crate::session::{Session, MAX_EVENT_LOG};
use crate::sharer;
use crate::sharer_ws::{self, ResumeOutcome, SharerFlow};
use crate::viewer;
use crate::viewer_ws::{self, JoinOutcome};
use crate::viewers::{only_on, Seat};
use vstd::prelude::*;

verus! {

/// Handling a message of the sharer is a step of its session.
pub proof fn a_sharers_message_is_a_step(
    session: &mut Session,
    message: sharer::UpstreamMessage,
    flow: SharerFlow,
)
    requires
        call_ensures(sharer_ws::handle_message, (session, message), flow),
    ensures
        final(session).wf(),
        steps_to(*old(session), Step::FromSharer(message), *final(session)),
{
}

/// Handling a message of a viewer is a step of its session.
pub proof fn a_viewers_message_is_a_step(
    session: &mut Session,
    viewer_id: &ParticipantId,
    message: viewer::UpstreamMessage,
    minted: Payload,
)
    requires
        call_ensures(viewer_ws::handle_message, (session, viewer_id, message, minted), ()),
    ensures
        final(session).wf(),
        steps_to(
            *old(session),
            Step::FromViewer(*viewer_id, message, minted),
            *final(session),
        ),
{
}

/// Joining is a step of the session.
pub proof fn joining_is_a_step(
    session: &mut Session,
    init: viewer::InitPayload,
    fresh_id: ParticipantId,
    connection: u64,
    tx: Tx,
    outcome: JoinOutcome,
)
    requires
        call_ensures(viewer_ws::join, (Some(session), init, fresh_id, connection, tx), outcome),
    ensures
        final(session).wf(),
        init.viewer_id is None ==> steps_to(
            *old(session),
            Step::Join(fresh_id, Seat { connection, tx }),
            *final(session),
        ),
        init.viewer_id matches Some(viewer_id) ==> steps_to(
            *old(session),
            Step::Rejoin(viewer_id, init.last_received_event_no, Seat { connection, tx }),
            *final(session),
        ),
{
}

/// The end of a viewer's connection is a step of the session.
pub proof fn leaving_is_a_step(
    session: &mut Session,
    viewer_id: &ParticipantId,
    connection: u64,
    gone: bool,
)
    requires
        call_ensures(viewer_ws::leave, (session, viewer_id, connection), gone),
    ensures
        final(session).wf(),
        steps_to(*old(session), Step::Leave(*viewer_id, connection), *final(session)),
{
}

/// Resuming is a step of the session.
pub proof fn resuming_is_a_step(
    session: &mut Session,
    reconnect: sharer::ReconnectPayload,
    connection: u64,
    tx: Tx,
    outcome: ResumeOutcome,
)
    requires
        call_ensures(sharer_ws::resume, (Some(session), reconnect, connection, tx), outcome),
        outcome is Resumed,
    ensures
        final(session).wf(),
        steps_to(
            *old(session),
            Step::Resume(reconnect.reconnect_token, connection, tx),
            *final(session),
        ),
{
}

/// The end of a sharer's connection, and the end of the wait for a sharer, are
/// steps of the session.
pub proof fn losing_the_sharer_is_a_step(
    session: &mut Session,
    connection: u64,
    waits: bool,
    later: &mut Session,
    reaped: bool,
)
    requires
        call_ensures(Session::sharer_disconnected, (session, connection), waits),
        call_ensures(Session::reap, (later, connection), reaped),
    ensures
        final(session).wf(),
        steps_to(*old(session), Step::Disconnect(connection), *final(session)),
        final(later).wf(),
        reaped ==> steps_to(*old(later), Step::Reap(connection), *final(later)),
{
}

/// `initial`, or the prompt of the last update among `steps`.
pub open spec fn prompt_after(initial: Payload, steps: Seq<Step>) -> Payload
    decreases steps.len(),
{
    if steps.len() == 0 {
        initial
    } else {
        match steps.last() {
            Step::FromSharer(sharer::UpstreamMessage::UpdateActivePrompt(update)) => {
                update.active_prompt
            },
            _ => prompt_after(initial, steps.drop_last()),
        }
    }
}

/// `initial`, or what the sharer selected last among `steps`.
pub open spec fn selection_after(initial: Selection, steps: Seq<Step>) -> Selection
    decreases steps.len(),
{
    if steps.len() == 0 {
        initial
    } else {
        match steps.last() {
            Step::FromSharer(sharer::UpstreamMessage::UpdateSelection(update)) => update.selection,
            _ => selection_after(initial, steps.drop_last()),
        }
    }
}

/// `n` is the highest number among `events`, and `None` where there are none.
pub open spec fn is_highest(n: Option<usize>, events: Seq<OrderedTerminalEvent>) -> bool {
    match n {
        None => events.len() == 0,
        Some(top) => {
            &&& exists|i: int| 0 <= i < events.len() && (#[trigger] events[i]).event_no == top
            &&& forall|i: int| 0 <= i < events.len() ==> (#[trigger] events[i]).event_no <= top
        },
    }
}

/// The viewer `who` is connected, but not on the connection `connection`.
pub open spec fn is_elsewhere(session: Session, who: ParticipantId, connection: u64) -> bool {
    &&& session.viewers@.contains_key(who.text@)
    &&& session.viewers@[who.text@].connection != connection
}

/// Who has joined and not left over a history that starts with nobody present,
/// in the order of joining. A viewer leaves when its connection ends while it
/// is on no other.
pub open spec fn present_after(sessions: Seq<Session>, steps: Seq<Step>) -> Seq<ParticipantId>
    decreases steps.len(),
{
    if steps.len() == 0 {
        Seq::empty()
    } else {
        let earlier = present_after(sessions.drop_last(), steps.drop_last());
        match steps.last() {
            Step::Join(who, _) => earlier.push(who),
            Step::Leave(who, connection) => if is_elsewhere(
                sessions[steps.len() - 1],
                who,
                connection,
            ) {
                earlier
            } else {
                all_ids_but(earlier, who.text@)
            },
            _ => earlier,
        }
    }
}

/// The identifiers of `ids` that are not `id`, in their order.
pub open spec fn all_ids_but(ids: Seq<ParticipantId>, id: Seq<char>) -> Seq<ParticipantId> {
    ids.filter(|p: ParticipantId| p.text@ != id)
}

/// The identifiers of the viewers in `list`.
pub open spec fn ids_of(list: Seq<PresentViewer>) -> Seq<ParticipantId> {
    list.map_values(|v: PresentViewer| v.info.id)
}

proof fn lemma_ids_without(list: Seq<PresentViewer>, id: Seq<char>)
    ensures
        ids_of(all_but(list, id)) == all_ids_but(ids_of(list), id),
    decreases list.len(),
{
    reveal(Seq::filter);
    if list.len() > 0 {
        lemma_ids_without(list.drop_last(), id);
        assert(ids_of(list).drop_last() =~= ids_of(list.drop_last()));
        let rest = all_but(list.drop_last(), id);
        assert(ids_of(rest.push(list.last())) =~= ids_of(rest).push(list.last().info.id));
    }
    assert(ids_of(all_but(list, id)) =~= all_ids_but(ids_of(list), id));
}

/// One step, as far as the session remembers it.
proof fn lemma_step_is_remembered(before: Session, step: Step, after: Session)
    requires
        steps_to(before, step, after),
    ensures
        after.active_prompt == prompt_after(before.active_prompt, seq![step]),
        after.participants.sharer.info.selection == selection_after(
            before.participants.sharer.info.selection,
            seq![step],
        ),
        after.participants.sharer.info.id == before.participants.sharer.info.id,
        after.participants.sharer.info.profile_data
            == before.participants.sharer.info.profile_data,
        after.latest_event_no == (match step {
            Step::FromSharer(sharer::UpstreamMessage::OrderedTerminalEvent(e)) => Some(
                if before.latest_event_no is Some && before.latest_event_no->0 > e.event_no {
                    before.latest_event_no->0
                } else {
                    e.event_no
                },
            ),
            _ => before.latest_event_no,
        }),
        after.window_size == before.window_size,
        after.init_block_id == before.init_block_id,
        after.input_replica_id == before.input_replica_id,
        after.source_type == before.source_type,
        after.source_task_id == before.source_task_id,
        ids_of(after.participants.present_viewers@) == (match step {
            Step::Join(who, _) => ids_of(before.participants.present_viewers@).push(who),
            Step::Leave(who, connection) => if is_elsewhere(before, who, connection) {
                ids_of(before.participants.present_viewers@)
            } else {
                all_ids_but(ids_of(before.participants.present_viewers@), who.text@)
            },
            _ => ids_of(before.participants.present_viewers@),
        }),
{
    reveal_with_fuel(prompt_after, 2);
    reveal_with_fuel(selection_after, 2);
    assert(seq![step].drop_last() =~= Seq::<Step>::empty());
    let list = before.participants.present_viewers@;
    match step {
        Step::Join(who, _) => {
            let longer = after.participants.present_viewers@;
            assert(ids_of(longer) =~= ids_of(list).push(who)) by {
                assert(longer =~= longer.drop_last().push(longer.last()));
            }
        },
        Step::Leave(who, connection) => {
            lemma_all_but(list, who.text@);
            lemma_ids_without(list, who.text@);
        },
        _ => {},
    }
}

/// What a session tells is what has happened in it: over any history, its
/// prompt is the last that its sharer sent, the sharer's selection is the last
/// that it made, the number it knows is the highest of all events recorded, and
/// the viewers it lists are those that have joined and not left. What else its
/// sharer described stays as it was.
pub proof fn a_session_remembers_what_happened(sessions: Seq<Session>, steps: Seq<Step>)
    requires
        history(sessions, steps),
        sessions[0].latest_event_no is None,
        sessions[0].participants.present_viewers@.len() == 0,
    ensures
        sessions.last().active_prompt == prompt_after(sessions[0].active_prompt, steps),
        sessions.last().participants.sharer.info.selection == selection_after(
            sessions[0].participants.sharer.info.selection,
            steps,
        ),
        sessions.last().participants.sharer.info.id == sessions[0].participants.sharer.info.id,
        sessions.last().participants.sharer.info.profile_data
            == sessions[0].participants.sharer.info.profile_data,
        is_highest(sessions.last().latest_event_no, events_of(steps)),
        ids_of(sessions.last().participants.present_viewers@) == present_after(sessions, steps),
        sessions.last().window_size == sessions[0].window_size,
        sessions.last().init_block_id == sessions[0].init_block_id,
        sessions.last().input_replica_id == sessions[0].input_replica_id,
        sessions.last().source_type == sessions[0].source_type,
        sessions.last().source_task_id == sessions[0].source_task_id,
    decreases steps.len(),
{
    if steps.len() == 0 {
        assert(ids_of(sessions[0].participants.present_viewers@) =~= Seq::<
            ParticipantId,
        >::empty());
    } else {
        let n = steps.len() - 1;
        let fewer = sessions.drop_last();
        let earlier = steps.drop_last();
        lemma_shorter_history(sessions, steps);
        a_session_remembers_what_happened(fewer, earlier);
        lemma_step_is_remembered(sessions[n], steps[n], sessions[n + 1]);
        reveal_with_fuel(prompt_after, 2);
        reveal_with_fuel(selection_after, 2);
        assert(seq![steps[n]].drop_last() =~= Seq::<Step>::empty());
        let old_events = events_of(earlier);
        let events = events_of(steps);
        match steps[n] {
            Step::FromSharer(sharer::UpstreamMessage::OrderedTerminalEvent(e)) => {
                assert(events =~= old_events.push(e));
                assert(events[old_events.len() as int].event_no == e.event_no);
                match sessions[n].latest_event_no {
                    None => {},
                    Some(top) => {
                        let i = choose|i: int|
                            0 <= i < old_events.len() && (#[trigger] old_events[i]).event_no == top;
                        assert(events[i].event_no == top);
                    },
                }
                let top = sessions[n + 1].latest_event_no->0;
                assert forall|i: int| 0 <= i < events.len() implies (
                #[trigger] events[i]).event_no <= top by {
                    if i < old_events.len() {
                        assert(events[i] == old_events[i]);
                    }
                }
            },
            _ => {},
        }
    }
}

/// The last of `events`, as many as a log holds.
pub open spec fn still_kept(events: Seq<OrderedTerminalEvent>) -> Seq<OrderedTerminalEvent> {
    if events.len() <= MAX_EVENT_LOG {
        events
    } else {
        events.subrange(events.len() - MAX_EVENT_LOG, events.len() as int)
    }
}

/// The log holds all events that were recorded, in order, or the last of them
/// once there are more than it holds.
pub proof fn the_log_holds_the_latest_events(sessions: Seq<Session>, steps: Seq<Step>)
    requires
        history(sessions, steps),
        sessions[0].events@.len() == 0,
    ensures
        sessions.last().events@ == still_kept(events_of(steps)),
    decreases steps.len(),
{
    if steps.len() == 0 {
        assert(sessions[0].events@ =~= still_kept(events_of(steps)));
    } else {
        let n = steps.len() - 1;
        lemma_shorter_history(sessions, steps);
        the_log_holds_the_latest_events(sessions.drop_last(), steps.drop_last());
        let earlier = events_of(steps.drop_last());
        match steps[n] {
            Step::FromSharer(sharer::UpstreamMessage::OrderedTerminalEvent(e)) => {
                assert(events_of(steps) =~= earlier.push(e));
                assert(sessions[n + 1].events@ =~= still_kept(earlier.push(e)));
            },
            _ => {
                assert(sessions[n + 1].events == sessions[n].events);
            },
        }
    }
}

/// What `session` was started with, as its sharer described it and under what
/// was minted for it.
pub open spec fn started(
    session_id: SessionId,
    sharer_id: ParticipantId,
    reconnect_token: ReconnectToken,
    session_secret: Payload,
    connection: u64,
    init: sharer::InitPayload,
    tx: Tx,
    session: Session,
) -> bool {
    call_ensures(
        sharer_ws::create,
        (session_id, sharer_id, reconnect_token, session_secret, connection, init, tx),
        session,
    )
}

/// A new viewer is shown the session as it is by then: the prompt that the
/// sharer sent last, or started with; the highest number of all events so far;
/// who has joined and not left; and all else as the sharer described it.
pub proof fn a_new_viewer_is_shown_the_current_state(
    session_id: SessionId,
    sharer_id: ParticipantId,
    token: ReconnectToken,
    secret: Payload,
    first_connection: u64,
    init: sharer::InitPayload,
    first_tx: Tx,
    sessions: Seq<Session>,
    steps: Seq<Step>,
    session: &mut Session,
    joining: viewer::InitPayload,
    fresh_id: ParticipantId,
    connection: u64,
    tx: Tx,
    outcome: JoinOutcome,
)
    requires
        started(
            session_id,
            sharer_id,
            token,
            secret,
            first_connection,
            init,
            first_tx,
            sessions[0],
        ),
        history(sessions, steps),
        *old(session) == sessions.last(),
        joining.viewer_id is None,
        call_ensures(viewer_ws::join, (Some(session), joining, fresh_id, connection, tx), outcome),
    ensures
        handed(
            Some(tx),
            queue_to(final(session).viewers@, fresh_id.text@),
            seq![
                Outgoing::ToViewer(
                    viewer::DownstreamMessage::JoinedSuccessfully {
                        scrollback: init.scrollback,
                        active_prompt: prompt_after(init.active_prompt, steps),
                        latest_event_no: old(session).latest_event_no,
                        window_size: init.window_size,
                        participant_list: final(session).participants,
                        viewer_id: fresh_id,
                        viewer_firebase_uid: final(session).participants.present_viewers@.last()
                            .info.profile_data.firebase_uid,
                        init_block_id: init.init_block_id,
                        input_replica_id: init.input_replica_id,
                        universal_developer_input_context: None,
                        source_type: init.source_type,
                        source_task_id: init.source_task_id,
                    },
                ),
                Outgoing::ToViewer(
                    viewer::DownstreamMessage::ParticipantListUpdated(final(session).participants),
                ),
            ],
        ),
        is_highest(old(session).latest_event_no, events_of(steps)),
        ids_of(final(session).participants.present_viewers@) == present_after(sessions, steps).push(
            fresh_id,
        ),
        final(session).participants.sharer.info.id == sharer_id,
        final(session).participants.sharer.info.profile_data.firebase_uid@
            == "self-hosted-sharer-"@ + sharer_id.text@,
        final(session).participants.sharer.info.profile_data.display_name@ == "Sharer"@,
        final(session).participants.sharer.info.selection == selection_after(init.selection, steps),
{
    a_session_starts_as_described(
        session_id,
        sharer_id,
        token,
        secret,
        first_connection,
        init,
        first_tx,
        sessions[0],
    );
    a_session_remembers_what_happened(sessions, steps);
    a_session_keeps_its_identity(sessions, steps);
    a_new_viewer_is_welcomed(session, joining, fresh_id, connection, tx, outcome);
    let list = old(session).participants.present_viewers@;
    let longer = final(session).participants.present_viewers@;
    assert(ids_of(longer) =~= ids_of(list).push(fresh_id));
}

/// A sharer that comes back resumes its session if and only if it presents the
/// token that it was handed when the session started, whatever has happened
/// since. It is told the highest number of all events that were recorded, or
/// that there were none, and who takes part.
pub proof fn a_resuming_sharer_is_told_how_far_it_got(
    session_id: SessionId,
    sharer_id: ParticipantId,
    token: ReconnectToken,
    secret: Payload,
    first_connection: u64,
    init: sharer::InitPayload,
    first_tx: Tx,
    sessions: Seq<Session>,
    steps: Seq<Step>,
    session: &mut Session,
    reconnect: sharer::ReconnectPayload,
    connection: u64,
    tx: Tx,
    outcome: ResumeOutcome,
)
    requires
        started(
            session_id,
            sharer_id,
            token,
            secret,
            first_connection,
            init,
            first_tx,
            sessions[0],
        ),
        history(sessions, steps),
        *old(session) == sessions.last(),
        call_ensures(sharer_ws::resume, (Some(session), reconnect, connection, tx), outcome),
    ensures
        outcome is Resumed <==> reconnect.reconnect_token.text@ == token.text@,
        outcome is Resumed ==> handed(
            Some(tx),
            final(session).sharer_tx,
            seq![
                Outgoing::ToSharer(
                    sharer::DownstreamMessage::SessionReconnected {
                        last_received_event_no: old(session).latest_event_no,
                        participant_list: old(session).participants,
                    },
                ),
            ],
        ),
        is_highest(old(session).latest_event_no, events_of(steps)),
        ids_of(old(session).participants.present_viewers@) == present_after(sessions, steps),
{
    a_session_starts_as_described(
        session_id,
        sharer_id,
        token,
        secret,
        first_connection,
        init,
        first_tx,
        sessions[0],
    );
    a_session_remembers_what_happened(sessions, steps);
    a_session_keeps_its_identity(sessions, steps);
    if reconnect.reconnect_token.text@ == token.text@ {
        the_right_token_resumes(session, reconnect, connection, tx, outcome);
    } else {
        a_wrong_token_is_turned_away(session, reconnect, connection, tx, outcome);
    }
}

/// A viewer that comes back after `n` is sent, of all events that the session
/// has recorded since it started and still keeps, exactly those with a higher
/// number, in the order in which they were recorded, and then that it is back.
pub proof fn a_returning_viewer_is_brought_up_to_date(
    session_id: SessionId,
    sharer_id: ParticipantId,
    token: ReconnectToken,
    secret: Payload,
    first_connection: u64,
    init: sharer::InitPayload,
    first_tx: Tx,
    sessions: Seq<Session>,
    steps: Seq<Step>,
    session: &mut Session,
    joining: viewer::InitPayload,
    unused_id: ParticipantId,
    connection: u64,
    tx: Tx,
    outcome: JoinOutcome,
)
    requires
        started(
            session_id,
            sharer_id,
            token,
            secret,
            first_connection,
            init,
            first_tx,
            sessions[0],
        ),
        history(sessions, steps),
        *old(session) == sessions.last(),
        joining.viewer_id is Some,
        call_ensures(viewer_ws::join, (Some(session), joining, unused_id, connection, tx), outcome),
    ensures
        handed(
            Some(tx),
            queue_to(final(session).viewers@, joining.viewer_id->0.text@),
            Seq::new(
                missed(still_kept(events_of(steps)), joining.last_received_event_no).len(),
                |i: int|
                    Outgoing::ToViewer(
                        viewer::DownstreamMessage::OrderedTerminalEvent(
                            missed(
                                still_kept(events_of(steps)),
                                joining.last_received_event_no,
                            )[i],
                        ),
                    ),
            ).push(
                Outgoing::ToViewer(
                    viewer::DownstreamMessage::RejoinedSuccessfully {
                        participant_list: old(session).participants,
                    },
                ),
            ),
        ),
{
    a_session_starts_as_described(
        session_id,
        sharer_id,
        token,
        secret,
        first_connection,
        init,
        first_tx,
        sessions[0],
    );
    the_log_holds_the_latest_events(sessions, steps);
    a_returning_viewer_is_sent_what_it_missed(
        session,
        joining,
        unused_id,
        connection,
        tx,
        outcome,
    );
    let brought = missed(still_kept(events_of(steps)), joining.last_received_event_no);
    assert(catch_up(*old(session), joining.last_received_event_no) =~= Seq::new(
        brought.len(),
        |i: int| Outgoing::ToViewer(viewer::DownstreamMessage::OrderedTerminalEvent(brought[i])),
    ).push(
        Outgoing::ToViewer(
            viewer::DownstreamMessage::RejoinedSuccessfully {
                participant_list: old(session).participants,
            },
        ),
    ));
}

/// The control requests that viewers make by `steps`, in order, as the sharer
/// gets them.
pub open spec fn requests_of(steps: Seq<Step>) -> Seq<Outgoing>
    decreases steps.len(),
{
    if steps.len() == 0 {
        Seq::empty()
    } else {
        let earlier = requests_of(steps.drop_last());
        match steps.last() {
            Step::FromViewer(who, message, minted) => match request(who, message, minted) {
                Some(made) => earlier.push(Outgoing::ToSharer(made)),
                None => earlier,
            },
            _ => earlier,
        }
    }
}

/// The inputs that viewers made by `steps`, in order, as the sharer gets them.
pub open spec fn inputs_of(steps: Seq<Step>) -> Seq<Outgoing>
    decreases steps.len(),
{
    if steps.len() == 0 {
        Seq::empty()
    } else {
        let earlier = inputs_of(steps.drop_last());
        match steps.last() {
            Step::FromViewer(_, viewer::UpstreamMessage::UpdateInput(update), _) => earlier.push(
                Outgoing::ToSharer(sharer::DownstreamMessage::InputUpdated(update)),
            ),
            _ => earlier,
        }
    }
}

/// `message` asks something of the sharer.
pub open spec fn is_request(message: Outgoing) -> bool {
    match message {
        Outgoing::ToSharer(m) => {
            ||| m is CommandExecutionRequested
            ||| m is WriteToPtyRequested
            ||| m is AgentPromptRequested
            ||| m is ControlActionRequested
            ||| m is ViewerTerminalSizeReported
        },
        _ => false,
    }
}

/// `message` tells the sharer of an input.
pub open spec fn is_input(message: Outgoing) -> bool {
    message matches Outgoing::ToSharer(sharer::DownstreamMessage::InputUpdated(_))
}

/// One step, as far as it asks something of the sharer.
proof fn lemma_step_asks(before: Session, step: Step, after: Session)
    requires
        steps_to(before, step, after),
    ensures
        sent_to_sharer_by(before, step, after).filter(|m: Outgoing| is_request(m)) == requests_of(
            seq![step],
        ),
        sent_to_sharer_by(before, step, after).filter(|m: Outgoing| is_input(m)) == inputs_of(
            seq![step],
        ),
{
    let sent = sent_to_sharer_by(before, step, after);
    assert(seq![step].drop_last() =~= Seq::<Step>::empty());
    reveal_with_fuel(requests_of, 2);
    reveal_with_fuel(inputs_of, 2);
    reveal_with_fuel(Seq::filter, 2);
    if sent.len() == 1 {
        assert(sent.drop_last() =~= Seq::<Outgoing>::empty());
    }
    assert(sent.filter(|m: Outgoing| is_request(m)) =~= requests_of(seq![step]));
    assert(sent.filter(|m: Outgoing| is_input(m)) =~= inputs_of(seq![step]));
}

/// Over any history in which a sharer stays on its connection, what is put into
/// its queue holds exactly the control requests and the inputs of all viewers,
/// each once, as it was made, and in the order in which they were made.
pub proof fn control_requests_reach_the_sharer_in_order(sessions: Seq<Session>, steps: Seq<Step>)
    requires
        history(sessions, steps),
        forall|i: int| 0 <= i < steps.len() ==> !moves_sharer(#[trigger] steps[i]),
    ensures
        handed(
            sessions[0].sharer_tx,
            sessions.last().sharer_tx,
            sent_to_sharer_over(sessions, steps),
        ),
        sent_to_sharer_over(sessions, steps).filter(|m: Outgoing| is_request(m)) == requests_of(
            steps,
        ),
        sent_to_sharer_over(sessions, steps).filter(|m: Outgoing| is_input(m)) == inputs_of(steps),
    decreases steps.len(),
{
    let asks = |m: Outgoing| is_request(m);
    let tells = |m: Outgoing| is_input(m);
    requests_and_acks_reach_the_sharer(sessions, steps);
    lemma_handed(
        sessions[0].sharer_tx,
        sessions.last().sharer_tx,
        sent_to_sharer_over(sessions, steps),
    );
    if steps.len() == 0 {
        reveal(Seq::filter);
    } else {
        let n = steps.len() - 1;
        let fewer = sessions.drop_last();
        let earlier = steps.drop_last();
        lemma_shorter_history(sessions, steps);
        control_requests_reach_the_sharer_in_order(fewer, earlier);
        lemma_step_asks(sessions[n], steps[n], sessions[n + 1]);
        let sent = sent_to_sharer_by(sessions[n], steps[n], sessions[n + 1]);
        Seq::filter_distributes_over_add(sent_to_sharer_over(fewer, earlier), sent, asks);
        Seq::filter_distributes_over_add(sent_to_sharer_over(fewer, earlier), sent, tells);
        assert(seq![steps[n]].drop_last() =~= Seq::<Step>::empty());
        reveal_with_fuel(requests_of, 2);
        reveal_with_fuel(inputs_of, 2);
        assert(requests_of(steps) =~= requests_of(earlier) + requests_of(seq![steps[n]]));
        assert(inputs_of(steps) =~= inputs_of(earlier) + inputs_of(seq![steps[n]]));
    }
}

/// Over any history in which a viewer neither comes nor goes, the terminal
/// output that is put into its queue is every event that was recorded, each
/// once and in order.
pub proof fn a_viewer_sees_every_event(
    sessions: Seq<Session>,
    steps: Seq<Step>,
    id: Seq<char>,
    connection: u64,
)
    requires
        history(sessions, steps),
        only_on(sessions[0].viewers@, id, connection),
        forall|i: int| 0 <= i < steps.len() ==> !moves(#[trigger] steps[i], id, connection),
        sessions[0].events@.len() <= MAX_EVENT_LOG,
    ensures
        viewer_handed(
            sessions[0].viewers@,
            sessions.last().viewers@,
            id,
            sent_over(sessions, steps, id),
        ),
        sent_over(sessions, steps, id).filter(|m: Outgoing| is_terminal_output(m)) == Seq::new(
            events_of(steps).len(),
            |i: int|
                Outgoing::ToViewer(
                    viewer::DownstreamMessage::OrderedTerminalEvent(events_of(steps)[i]),
                ),
        ),
{
    output_is_lossless_and_ordered(sessions, steps, id, connection);
    lemma_seat_handed(
        sessions[0].viewers@,
        sessions.last().viewers@,
        id,
        sent_over(sessions, steps, id),
    );
    assert(viewer_ws::replay(events_of(steps)) =~= Seq::new(
        events_of(steps).len(),
        |i: int|
            Outgoing::ToViewer(
                viewer::DownstreamMessage::OrderedTerminalEvent(events_of(steps)[i]),
            ),
    ));
}

} // verus!
