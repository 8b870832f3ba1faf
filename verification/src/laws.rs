//! What holds of a session over many steps.

use crate::channel::{
    cut_log, cut_off, link_after, same_queue, send_log, sending_composes, sent_all, taken, Outgoing,
    Tx, WRITER_CHANNEL_CAP,
};
use crate::common::{
    OrderedTerminalEvent, ParticipantId, Payload, PresentViewer, ReconnectToken, SessionId,
};
use crate::session::{
    abandoned, attached, detached, most_recent, newer_than, without_viewer, Session, MAX_EVENT_LOG,
};
use crate::sharer;
use crate::sharer_ws::{self, flow_after, resumed};
use crate::state::{concluded, session_at, waited, SessionHandle};
use crate::viewer;
use crate::viewer_ws::{
    self, joined, left, list_to_sharer, list_to_viewer, rejoin_messages, rejoined, replay,
    superseded,
};
use crate::viewers::{link_of, link_to, only_on, seat_after, seat_at, table_after, to_all, Seat};
use vstd::prelude::*;

verus! {

/// The messages that a connection's queue has taken, oldest first: what becomes
/// available on the receiving half that it feeds, and its peer gets to see.
pub open spec fn seen(tx: Tx) -> Seq<Outgoing> {
    send_log(tx).filter(|entry: (Outgoing, bool)| entry.1).map_values(
        |entry: (Outgoing, bool)| entry.0,
    )
}

proof fn lemma_taken_is_kept(messages: Seq<Outgoing>)
    ensures
        taken(messages).filter(|entry: (Outgoing, bool)| entry.1) == taken(messages),
    decreases messages.len(),
{
    reveal(Seq::filter);
    if messages.len() > 0 {
        lemma_taken_is_kept(messages.drop_last());
        assert(taken(messages).drop_last() =~= taken(messages.drop_last()));
        assert(taken(messages) =~= taken(messages.drop_last()).push((messages.last(), true)));
    }
}

/// A peer sees no gap: one that stays connected sees all that it was sent, in
/// order, and one that was dropped saw all of it up to the message at which it
/// was dropped. It is the same peer all along.
pub proof fn nothing_is_skipped(before: Tx, after: Tx, messages: Seq<Outgoing>)
    ensures
        sent_all(before, after, messages) || cut_off(before, after, messages) ==> same_queue(
            before,
            after,
        ),
        sent_all(before, after, messages) ==> seen(after) == seen(before) + messages,
        cut_off(before, after, messages) ==> exists|k: int|
            0 <= k < messages.len() && seen(after) == seen(before) + #[trigger] messages.take(k),
{
    let is_taken = |entry: (Outgoing, bool)| entry.1;
    let message_of = |entry: (Outgoing, bool)| entry.0;
    if sent_all(before, after, messages) {
        Seq::filter_distributes_over_add(send_log(before), taken(messages), is_taken);
        lemma_taken_is_kept(messages);
        assert(seen(after) =~= seen(before) + messages);
    }
    if cut_off(before, after, messages) {
        let k = choose|k: int|
            0 <= k < messages.len() && send_log(after) == #[trigger] cut_log(
                send_log(before),
                messages,
                k,
            );
        let sent = taken(messages.take(k));
        let tail = sent.push((messages[k], false));
        Seq::filter_distributes_over_add(send_log(before), tail, is_taken);
        lemma_taken_is_kept(messages.take(k));
        reveal(Seq::filter);
        assert(tail.drop_last() =~= sent);
        assert(tail.filter(is_taken) == sent);
        assert(seen(after) =~= seen(before) + messages.take(k));
    }
}

/// Something that happens to a session.
pub enum Step {
    /// A message of the sharer is handled.
    FromSharer(sharer::UpstreamMessage),
    /// A message of a viewer is handled, under a minted identifier.
    FromViewer(ParticipantId, viewer::UpstreamMessage, Payload),
    /// A new viewer joins.
    Join(ParticipantId, Seat),
    /// A viewer comes back that has received events up to a number.
    Rejoin(ParticipantId, Option<usize>, Seat),
    /// A viewer's connection of some number is over.
    Leave(ParticipantId, u64),
    /// A sharer that presents a token resumes on a connection of some number.
    Resume(ReconnectToken, u64, Tx),
    /// A sharer's connection is over.
    Disconnect(u64),
    /// The wait for a sharer is over.
    Reap(u64),
}

/// `step` takes the session from `before` to `after`.
pub open spec fn steps_to(before: Session, step: Step, after: Session) -> bool {
    match step {
        Step::FromSharer(message) => sharer_ws::handled(before, message, after),
        Step::FromViewer(id, message, request_id) => {
            viewer_ws::handled(before, id, message, request_id, after)
        },
        Step::Join(id, new) => joined(before, id, new, after),
        Step::Rejoin(id, last, new) => rejoined(before, id, last, new, after),
        Step::Leave(id, connection) => if superseded(before, id@, connection) {
            after == before
        } else {
            left(before, id@, after)
        },
        Step::Resume(token, connection, tx) => {
            &&& token@ == before.reconnect_token@
            &&& resumed(before, connection, tx, after)
        },
        Step::Disconnect(connection) => after == detached(before, connection),
        Step::Reap(connection) => {
            &&& abandoned(before, connection)
            &&& after == Session { viewers: after.viewers, ..before }
            &&& table_after(before.viewers@, after.viewers@, to_all(session_ended()))
        },
    }
}

pub open spec fn session_ended() -> viewer::DownstreamMessage {
    viewer::DownstreamMessage::SessionEnded { reason: viewer::SessionEndedReason::EndedBySharer }
}

/// The viewer `id`, on the connection `connection`, itself comes or goes by
/// `step`. The end of a connection that it was on earlier does not count.
pub open spec fn moves(step: Step, id: Seq<char>, connection: u64) -> bool {
    match step {
        Step::Join(who, _) => who@ == id,
        Step::Rejoin(who, _, _) => who@ == id,
        Step::Leave(who, over) => who@ == id && over == connection,
        _ => false,
    }
}

/// What the viewer `id`, which neither comes nor goes by it, is sent by `step`.
pub open spec fn sent_by(before: Session, step: Step, after: Session, id: Seq<char>) -> Seq<
    Outgoing,
> {
    match step {
        Step::FromSharer(message) => sharer_ws::to_viewers(before.sharer_id, message),
        Step::FromViewer(who, message, _) => viewer_ws::to_viewer(id, who, message),
        Step::Join(_, _) => seq![list_to_viewer(after.participants)],
        Step::Leave(who, over) if !superseded(before, who@, over) => seq![
            list_to_viewer(after.participants),
        ],
        Step::Reap(_) => seq![Outgoing::ToViewer(session_ended())],
        _ => Seq::empty(),
    }
}

/// The terminal events that `steps` record.
pub open spec fn events_of(steps: Seq<Step>) -> Seq<OrderedTerminalEvent>
    decreases steps.len(),
{
    if steps.len() == 0 {
        Seq::empty()
    } else {
        let earlier = events_of(steps.drop_last());
        match steps.last() {
            Step::FromSharer(sharer::UpstreamMessage::OrderedTerminalEvent(event)) => {
                earlier.push(event)
            },
            _ => earlier,
        }
    }
}

/// `steps` take the first of `sessions` through the others to the last.
pub open spec fn history(sessions: Seq<Session>, steps: Seq<Step>) -> bool {
    &&& sessions.len() == steps.len() + 1
    &&& forall|i: int|
        0 <= i < steps.len() ==> #[trigger] steps_to(sessions[i], steps[i], sessions[i + 1])
}

/// What the viewer `id`, which neither comes nor goes meanwhile, is sent over
/// a history.
pub open spec fn sent_over(sessions: Seq<Session>, steps: Seq<Step>, id: Seq<char>) -> Seq<Outgoing>
    decreases steps.len(),
{
    if steps.len() == 0 {
        Seq::empty()
    } else {
        let n = steps.len() - 1;
        sent_over(sessions.drop_last(), steps.drop_last(), id) + sent_by(
            sessions[n],
            steps[n],
            sessions[n + 1],
            id,
        )
    }
}

pub open spec fn is_terminal_output(message: Outgoing) -> bool {
    message matches Outgoing::ToViewer(viewer::DownstreamMessage::OrderedTerminalEvent(_))
}

/// A history without its last step is one, and the last step is as it says.
pub(crate) proof fn lemma_shorter_history(sessions: Seq<Session>, steps: Seq<Step>)
    requires
        history(sessions, steps),
        steps.len() > 0,
    ensures
        history(sessions.drop_last(), steps.drop_last()),
        sessions.drop_last().last() == sessions[steps.len() - 1],
        sessions.drop_last()[0] == sessions[0],
        steps_to(
            sessions[steps.len() - 1],
            steps[steps.len() - 1],
            sessions[steps.len() as int],
        ),
{
    let n = steps.len() - 1;
    let fewer = sessions.drop_last();
    let earlier = steps.drop_last();
    assert forall|i: int| 0 <= i < n implies #[trigger] steps_to(
        fewer[i],
        earlier[i],
        fewer[i + 1],
    ) by {
        assert(steps_to(sessions[i], steps[i], sessions[i + 1]));
    }
    assert(steps_to(sessions[n], steps[n], sessions[n + 1]));
}

proof fn lemma_most_recent_of_longer<A>(items: Seq<A>, item: A, n: nat)
    ensures
        most_recent(most_recent(items, n).push(item), n) == most_recent(items.push(item), n),
{
    assert(most_recent(most_recent(items, n).push(item), n) =~= most_recent(items.push(item), n));
}

/// Sending some messages to a seat and then others is sending them all.
proof fn lemma_seats_compose(
    before: Option<Seat>,
    between: Option<Seat>,
    after: Option<Seat>,
    first: Seq<Outgoing>,
    second: Seq<Outgoing>,
)
    requires
        seat_after(before, between, first),
        seat_after(between, after, second),
    ensures
        seat_after(before, after, first + second),
{
    sending_composes(link_of(before), link_of(between), link_of(after), first, second);
}

/// One step, as a viewer sees it that neither comes nor goes by it.
proof fn lemma_step(before: Session, step: Step, after: Session, id: Seq<char>, connection: u64)
    requires
        steps_to(before, step, after),
        only_on(before.viewers@, id, connection),
        !moves(step, id, connection),
    ensures
        seat_after(
            seat_at(before.viewers@, id),
            seat_at(after.viewers@, id),
            sent_by(before, step, after, id),
        ),
        sent_by(before, step, after, id).filter(|m: Outgoing| is_terminal_output(m)) == replay(
            events_of(seq![step]),
        ),
        match step {
            Step::FromSharer(sharer::UpstreamMessage::OrderedTerminalEvent(event)) => after.events@
                == most_recent(before.events@.push(event), MAX_EVENT_LOG as nat),
            _ => after.events == before.events,
        },
{
    let sent = sent_by(before, step, after, id);
    let is_output = |m: Outgoing| is_terminal_output(m);
    assert(seq![step].drop_last() =~= Seq::<Step>::empty());
    reveal_with_fuel(events_of, 2);
    match step {
        Step::Rejoin(who, _, _) => {
            assert(seat_at(after.viewers@, id) == seat_at(before.viewers@, id));
        },
        Step::Leave(who, over) => {
            if !superseded(before, who@, over) {
                assert(seat_at(before.viewers@.remove(who@), id) == seat_at(before.viewers@, id));
            }
        },
        _ => {},
    }
    reveal_with_fuel(Seq::filter, 3);
    if sent.len() == 1 {
        assert(sent.drop_last() =~= Seq::<Outgoing>::empty());
    } else if sent.len() == 2 {
        assert(sent.drop_last().drop_last() =~= Seq::<Outgoing>::empty());
    }
    assert(sent.filter(is_output) =~= replay(events_of(seq![step])));
}

/// Terminal output reaches the viewers without loss and in order, and the log
/// holds the most recent of it, whatever else happens: over any history, a
/// viewer that neither comes nor goes stays on its connection, and is sent all
/// that the steps are to send it, step by step; the terminal events among that
/// are exactly the events recorded, in their order; and the log is the tail of
/// all events so far. Connections that the viewer was on earlier may end
/// meanwhile.
pub proof fn output_is_lossless_and_ordered(
    sessions: Seq<Session>,
    steps: Seq<Step>,
    id: Seq<char>,
    connection: u64,
)
    requires
        history(sessions, steps),
        only_on(sessions[0].viewers@, id, connection),
        forall|i: int| 0 <= i < steps.len() ==> !moves(#[trigger] steps[i], id, connection),
        sessions[0].events@.len() <= MAX_EVENT_LOG,
    ensures
        seat_after(
            seat_at(sessions[0].viewers@, id),
            seat_at(sessions.last().viewers@, id),
            sent_over(sessions, steps, id),
        ),
        sent_over(sessions, steps, id).filter(|m: Outgoing| is_terminal_output(m)) == replay(
            events_of(steps),
        ),
        sessions.last().events@ == most_recent(
            sessions[0].events@ + events_of(steps),
            MAX_EVENT_LOG as nat,
        ),
    decreases steps.len(),
{
    let max = MAX_EVENT_LOG as nat;
    let is_output = |m: Outgoing| is_terminal_output(m);
    if steps.len() == 0 {
        reveal(Seq::filter);
        assert(replay(events_of(steps)) =~= Seq::<Outgoing>::empty());
        assert(sessions[0].events@ + events_of(steps) =~= sessions[0].events@);
    } else {
        let n = steps.len() - 1;
        let fewer = sessions.drop_last();
        let earlier = steps.drop_last();
        lemma_shorter_history(sessions, steps);
        output_is_lossless_and_ordered(fewer, earlier, id, connection);
        let before = sessions[n];
        let after = sessions[n + 1];
        lemma_step(before, steps[n], after, id, connection);
        let sent = sent_by(before, steps[n], after, id);
        lemma_seats_compose(
            seat_at(sessions[0].viewers@, id),
            seat_at(before.viewers@, id),
            seat_at(after.viewers@, id),
            sent_over(fewer, earlier, id),
            sent,
        );
        Seq::filter_distributes_over_add(sent_over(fewer, earlier, id), sent, is_output);
        assert(seq![steps[n]].drop_last() =~= Seq::<Step>::empty());
        reveal_with_fuel(events_of, 2);
        assert(events_of(steps) =~= events_of(earlier) + events_of(seq![steps[n]]));
        assert(replay(events_of(steps)) =~= replay(events_of(earlier)) + replay(
            events_of(seq![steps[n]]),
        ));
        let all = sessions[0].events@ + events_of(earlier);
        match steps[n] {
            Step::FromSharer(sharer::UpstreamMessage::OrderedTerminalEvent(event)) => {
                lemma_most_recent_of_longer(all, event, max);
                assert(all.push(event) =~= sessions[0].events@ + events_of(steps));
            },
            _ => {},
        }
    }
}

/// The acknowledgements of `events`.
pub open spec fn acks(events: Seq<OrderedTerminalEvent>) -> Seq<Outgoing> {
    events.map_values(
        |e: OrderedTerminalEvent|
            Outgoing::ToSharer(
                sharer::DownstreamMessage::EventsProcessedAck {
                    latest_processed_event_no: e.event_no,
                },
            ),
    )
}

/// A sharer's connection takes over or ends by `step`.
pub open spec fn moves_sharer(step: Step) -> bool {
    step is Resume || step is Disconnect
}

/// What the sharer, whose connection neither takes over nor ends by it, is sent
/// by `step`.
pub open spec fn sent_to_sharer_by(before: Session, step: Step, after: Session) -> Seq<Outgoing> {
    match step {
        Step::FromSharer(message) => sharer_ws::to_sharer(message),
        Step::FromViewer(who, message, request_id) => {
            viewer_ws::to_sharer(who, message, request_id)
        },
        Step::Join(_, _) => seq![list_to_sharer(after.participants)],
        Step::Leave(who, over) if !superseded(before, who@, over) => seq![
            list_to_sharer(after.participants),
        ],
        _ => Seq::empty(),
    }
}

/// What the sharer is sent over a history on one connection.
pub open spec fn sent_to_sharer_over(sessions: Seq<Session>, steps: Seq<Step>) -> Seq<Outgoing>
    decreases steps.len(),
{
    if steps.len() == 0 {
        Seq::empty()
    } else {
        let n = steps.len() - 1;
        sent_to_sharer_over(sessions.drop_last(), steps.drop_last()) + sent_to_sharer_by(
            sessions[n],
            steps[n],
            sessions[n + 1],
        )
    }
}

pub open spec fn is_ack(message: Outgoing) -> bool {
    message matches Outgoing::ToSharer(sharer::DownstreamMessage::EventsProcessedAck { .. })
}

/// One step, as a sharer sees it that stays on its connection.
proof fn lemma_step_for_sharer(before: Session, step: Step, after: Session)
    requires
        steps_to(before, step, after),
        !moves_sharer(step),
    ensures
        link_after(before.sharer_tx, after.sharer_tx, sent_to_sharer_by(before, step, after)),
        sent_to_sharer_by(before, step, after).filter(|m: Outgoing| is_ack(m)) == acks(
            events_of(seq![step]),
        ),
{
    let sent = sent_to_sharer_by(before, step, after);
    let ack = |m: Outgoing| is_ack(m);
    assert(seq![step].drop_last() =~= Seq::<Step>::empty());
    reveal_with_fuel(events_of, 2);
    reveal_with_fuel(Seq::filter, 2);
    if sent.len() == 1 {
        assert(sent.drop_last() =~= Seq::<Outgoing>::empty());
    }
    assert(sent.filter(ack) =~= acks(events_of(seq![step])));
}

/// Over any history in which it stays on its connection, a sharer is sent all
/// that the steps are to send it, in order: the requests of the viewers, the
/// changes of the list of participants, and an acknowledgement of every event
/// it sent.
pub proof fn requests_and_acks_reach_the_sharer(sessions: Seq<Session>, steps: Seq<Step>)
    requires
        history(sessions, steps),
        forall|i: int| 0 <= i < steps.len() ==> !moves_sharer(#[trigger] steps[i]),
    ensures
        link_after(
            sessions[0].sharer_tx,
            sessions.last().sharer_tx,
            sent_to_sharer_over(sessions, steps),
        ),
        sent_to_sharer_over(sessions, steps).filter(|m: Outgoing| is_ack(m)) == acks(
            events_of(steps),
        ),
    decreases steps.len(),
{
    let ack = |m: Outgoing| is_ack(m);
    if steps.len() == 0 {
        reveal(Seq::filter);
        assert(acks(events_of(steps)) =~= Seq::<Outgoing>::empty());
    } else {
        let n = steps.len() - 1;
        let fewer = sessions.drop_last();
        let earlier = steps.drop_last();
        lemma_shorter_history(sessions, steps);
        requests_and_acks_reach_the_sharer(fewer, earlier);
        lemma_step_for_sharer(sessions[n], steps[n], sessions[n + 1]);
        let sent = sent_to_sharer_by(sessions[n], steps[n], sessions[n + 1]);
        sending_composes(
            sessions[0].sharer_tx,
            sessions[n].sharer_tx,
            sessions[n + 1].sharer_tx,
            sent_to_sharer_over(fewer, earlier),
            sent,
        );
        Seq::filter_distributes_over_add(sent_to_sharer_over(fewer, earlier), sent, ack);
        assert(seq![steps[n]].drop_last() =~= Seq::<Step>::empty());
        reveal_with_fuel(events_of, 2);
        assert(events_of(steps) =~= events_of(earlier) + events_of(seq![steps[n]]));
        assert(acks(events_of(steps)) =~= acks(events_of(earlier)) + acks(
            events_of(seq![steps[n]]),
        ));
    }
}

/// Whatever happens, a session keeps its identifier, its sharer, and the token
/// that its sharer resumes with.
pub proof fn a_session_keeps_its_identity(sessions: Seq<Session>, steps: Seq<Step>)
    requires
        history(sessions, steps),
    ensures
        sessions.last().session_id == sessions[0].session_id,
        sessions.last().reconnect_token == sessions[0].reconnect_token,
        sessions.last().sharer_id == sessions[0].sharer_id,
        sessions.last().sharer_firebase_uid == sessions[0].sharer_firebase_uid,
        sessions.last().scrollback == sessions[0].scrollback,
    decreases steps.len(),
{
    if steps.len() > 0 {
        lemma_shorter_history(sessions, steps);
        a_session_keeps_its_identity(sessions.drop_last(), steps.drop_last());
    }
}

/// Only the token that was handed out when the session was created gives the
/// sharer's role to another connection: over any history, if the connection
/// that has it is another one in the end, then that token was presented.
pub proof fn only_the_issued_token_takes_over(sessions: Seq<Session>, steps: Seq<Step>)
    requires
        history(sessions, steps),
        sessions.last().sharer_connection != sessions[0].sharer_connection,
    ensures
        exists|i: int|
            0 <= i < steps.len() && presents(#[trigger] steps[i], sessions[0].reconnect_token@),
    decreases steps.len(),
{
    lemma_shorter_history(sessions, steps);
    let n = steps.len() - 1;
    let fewer = sessions.drop_last();
    let earlier = steps.drop_last();
    if sessions[n].sharer_connection != sessions[0].sharer_connection {
        only_the_issued_token_takes_over(fewer, earlier);
        let i = choose|i: int|
            0 <= i < earlier.len() && presents(#[trigger] earlier[i], sessions[0].reconnect_token@);
        assert(presents(steps[i], sessions[0].reconnect_token@));
    } else {
        a_session_keeps_its_identity(fewer, earlier);
        assert(presents(steps[n], sessions[0].reconnect_token@));
    }
}

/// A sharer resumes with the token `token` by `step`.
pub open spec fn presents(step: Step, token: Seq<char>) -> bool {
    step matches Step::Resume(presented, _, _) && presented@ == token
}

proof fn lemma_all_newer(events: Seq<OrderedTerminalEvent>, n: usize)
    requires
        forall|i: int| 0 <= i < events.len() ==> (#[trigger] events[i]).event_no > n,
    ensures
        newer_than(events, Some(n)) == events,
    decreases events.len(),
{
    reveal(Seq::filter);
    if events.len() > 0 {
        lemma_all_newer(events.drop_last(), n);
        assert(events.drop_last().push(events.last()) =~= events);
    }
}

proof fn lemma_none_newer(events: Seq<OrderedTerminalEvent>, n: usize)
    requires
        forall|i: int| 0 <= i < events.len() ==> (#[trigger] events[i]).event_no <= n,
    ensures
        newer_than(events, Some(n)) == Seq::<OrderedTerminalEvent>::empty(),
    decreases events.len(),
{
    reveal(Seq::filter);
    if events.len() > 0 {
        lemma_none_newer(events.drop_last(), n);
    }
}

/// A viewer that was away catches up: if it has received all that the session
/// held, up to number `n`, and the events since have higher numbers, then what
/// it is sent on coming back is exactly the events since, of those that the
/// log still holds.
pub proof fn a_returning_viewer_catches_up(
    received: Seq<OrderedTerminalEvent>,
    missed: Seq<OrderedTerminalEvent>,
    n: usize,
)
    requires
        forall|i: int| 0 <= i < received.len() ==> (#[trigger] received[i]).event_no <= n,
        forall|i: int| 0 <= i < missed.len() ==> (#[trigger] missed[i]).event_no > n,
    ensures
        newer_than(most_recent(received + missed, MAX_EVENT_LOG as nat), Some(n)) == most_recent(
            missed,
            MAX_EVENT_LOG as nat,
        ),
{
    let all = received + missed;
    let max = MAX_EVENT_LOG as nat;
    let kept = most_recent(missed, max);
    let older = if missed.len() >= max {
        Seq::<OrderedTerminalEvent>::empty()
    } else {
        most_recent(received, (max - missed.len()) as nat)
    };
    assert(most_recent(all, max) =~= older + kept);
    Seq::filter_distributes_over_add(older, kept, |e: OrderedTerminalEvent| e.event_no > n);
    lemma_none_newer(older, n);
    lemma_all_newer(kept, n);
    assert(newer_than(older + kept, Some(n)) =~= kept);
}

/// A viewer that comes back and stays is sent what it missed and the list of
/// participants, and then all that the steps since are to send it, which holds
/// every event that follows, in order. That its earlier connections end only
/// after it came back makes no difference.
pub proof fn a_returning_viewer_follows_on(
    before: Session,
    viewer_id: ParticipantId,
    last_received_event_no: Option<usize>,
    new: Seat,
    sessions: Seq<Session>,
    steps: Seq<Step>,
)
    requires
        before.wf(),
        rejoined(before, viewer_id, last_received_event_no, new, sessions[0]),
        history(sessions, steps),
        forall|i: int|
            0 <= i < steps.len() ==> !moves(#[trigger] steps[i], viewer_id@, new.connection),
    ensures
        seat_after(
            Some(new),
            seat_at(sessions.last().viewers@, viewer_id@),
            rejoin_messages(before, last_received_event_no) + sent_over(
                sessions,
                steps,
                viewer_id@,
            ),
        ),
        sent_over(sessions, steps, viewer_id@).filter(|m: Outgoing| is_terminal_output(m))
            == replay(events_of(steps)),
{
    output_is_lossless_and_ordered(sessions, steps, viewer_id@, new.connection);
    lemma_seats_compose(
        Some(new),
        seat_at(sessions[0].viewers@, viewer_id@),
        seat_at(sessions.last().viewers@, viewer_id@),
        rejoin_messages(before, last_received_event_no),
        sent_over(sessions, steps, viewer_id@),
    );
}

/// Once a viewer has come back, the end of its earlier connection is noted
/// without effect, however late it comes: as long as the viewer stays
/// connected, the session stays as it is.
pub proof fn a_late_leave_is_ignored(
    before: Session,
    viewer_id: ParticipantId,
    last_received_event_no: Option<usize>,
    new: Seat,
    sessions: Seq<Session>,
    steps: Seq<Step>,
    lost: u64,
    after: Session,
)
    requires
        before.wf(),
        rejoined(before, viewer_id, last_received_event_no, new, sessions[0]),
        history(sessions, steps),
        forall|i: int|
            0 <= i < steps.len() ==> !moves(#[trigger] steps[i], viewer_id@, new.connection),
        link_to(sessions.last().viewers@, viewer_id@) is Some,
        lost != new.connection,
        steps_to(sessions.last(), Step::Leave(viewer_id, lost), after),
    ensures
        superseded(sessions.last(), viewer_id@, lost),
        after == sessions.last(),
{
    output_is_lossless_and_ordered(sessions, steps, viewer_id@, new.connection);
}

/// A viewer that has received the latest event is sent no event on coming
/// back.
pub proof fn a_viewer_up_to_date_misses_nothing(session: Session)
    requires
        session.wf(),
        session.latest_event_no is Some,
    ensures
        newer_than(session.events@, session.latest_event_no) == Seq::<
            OrderedTerminalEvent,
        >::empty(),
{
    lemma_none_newer(session.events@, session.latest_event_no->0);
}

/// Catching up never overruns a new connection's queue, however much there is
/// to catch up on.
pub proof fn catching_up_fits_the_queue(session: Session, after: Option<usize>)
    requires
        session.wf(),
    ensures
        rejoin_messages(session, after).len() <= WRITER_CHANNEL_CAP,
{
    broadcast use Seq::lemma_filter_len;

}

/// A sharer that resumes finds its session as it left it: only the connection
/// is another.
pub proof fn resuming_restores_the_session(
    session: Session,
    lost: u64,
    taken_over: u64,
    link: Option<Tx>,
)
    ensures
        attached(detached(session, lost), taken_over, link) == attached(session, taken_over, link),
{
}

/// Once a sharer has resumed, the end of its earlier connection is noted
/// without effect.
pub proof fn a_late_disconnect_is_ignored(
    session: Session,
    lost: u64,
    taken_over: u64,
    link: Option<Tx>,
)
    requires
        lost != taken_over,
    ensures
        detached(attached(session, taken_over, link), lost) == attached(session, taken_over, link),
{
}

/// A sharer resumes on the connection `connection` by `step`.
pub open spec fn resumes_on(step: Step, connection: u64) -> bool {
    step matches Step::Resume(_, taken_over, _) && taken_over == connection
}

/// Once a sharer has resumed, the session is not reaped for the connection
/// that was lost, whatever happens since.
pub proof fn a_resumed_session_survives(sessions: Seq<Session>, steps: Seq<Step>, lost: u64)
    requires
        history(sessions, steps),
        steps.len() > 0,
        steps[0] is Resume,
        forall|i: int| 0 <= i < steps.len() ==> !resumes_on(#[trigger] steps[i], lost),
    ensures
        !abandoned(sessions.last(), lost),
        sessions.last().sharer_connection != lost,
    decreases steps.len(),
{
    lemma_shorter_history(sessions, steps);
    if steps.len() > 1 {
        a_resumed_session_survives(sessions.drop_last(), steps.drop_last(), lost);
    }
}

/// A session whose sharer is gone waits for it, whatever the viewers do
/// meanwhile: unless a sharer resumes, the session stays to be reaped.
pub proof fn an_abandoned_session_waits_to_be_reaped(
    sessions: Seq<Session>,
    steps: Seq<Step>,
    connection: u64,
)
    requires
        history(sessions, steps),
        sessions[0].sharer_connection == connection,
        forall|i: int|
            0 <= i < steps.len() ==> !((#[trigger] steps[i]) is Resume) && !(steps[i] is Reap),
        steps.len() > 0,
        steps[0] == Step::Disconnect(connection),
    ensures
        abandoned(sessions.last(), connection),
    decreases steps.len(),
{
    lemma_shorter_history(sessions, steps);
    if steps.len() > 1 {
        an_abandoned_session_waits_to_be_reaped(
            sessions.drop_last(),
            steps.drop_last(),
            connection,
        );
    }
}

/// A session that its sharer ends is over: every viewer is told, and nobody
/// finds the session any more. Other sessions stay, and so does this one on any
/// other message of its sharer.
pub proof fn an_ended_session_leaves_the_registry(
    before: Session,
    message: sharer::UpstreamMessage,
    after: Session,
    live: Map<SessionId, SessionHandle>,
    id: SessionId,
    other: SessionId,
)
    requires
        sharer_ws::handled(before, message, after),
    ensures
        message is EndSession ==> table_after(
            before.viewers@,
            after.viewers@,
            to_all(session_ended()),
        ),
        message is EndSession ==> session_at(concluded(live, id, flow_after(message)), id) is None,
        other != id || !(message is EndSession) ==> session_at(
            concluded(live, id, flow_after(message)),
            other,
        ) == session_at(live, other),
{
}

/// No session is left behind: one whose sharer dropped off and did not resume
/// is not found any more once the wait is over, whatever else happened
/// meanwhile, and the other sessions stay.
pub proof fn an_abandoned_session_leaves_the_registry(
    sessions: Seq<Session>,
    steps: Seq<Step>,
    connection: u64,
    live: Map<SessionId, SessionHandle>,
    id: SessionId,
    other: SessionId,
)
    requires
        history(sessions, steps),
        sessions[0].sharer_connection == connection,
        forall|i: int|
            0 <= i < steps.len() ==> !((#[trigger] steps[i]) is Resume) && !(steps[i] is Reap),
        steps.len() > 0,
        steps[0] == Step::Disconnect(connection),
    ensures
        session_at(waited(live, id, sessions.last(), connection), id) is None,
        other != id ==> session_at(waited(live, id, sessions.last(), connection), other)
            == session_at(live, other),
{
    an_abandoned_session_waits_to_be_reaped(sessions, steps, connection);
}

/// A session whose sharer has resumed stays live when the wait for the
/// connection that was lost is over.
pub proof fn a_resumed_session_stays_in_the_registry(
    sessions: Seq<Session>,
    steps: Seq<Step>,
    lost: u64,
    live: Map<SessionId, SessionHandle>,
    id: SessionId,
)
    requires
        history(sessions, steps),
        steps.len() > 0,
        steps[0] is Resume,
        forall|i: int| 0 <= i < steps.len() ==> !resumes_on(#[trigger] steps[i], lost),
    ensures
        waited(live, id, sessions.last(), lost) == live,
{
    a_resumed_session_survives(sessions, steps, lost);
}

proof fn lemma_nobody_removed(list: Seq<PresentViewer>, id: Seq<char>)
    requires
        forall|i: int| 0 <= i < list.len() ==> (#[trigger] list[i]).info.id@ != id,
    ensures
        without_viewer(list, id) == list,
    decreases list.len(),
{
    reveal(Seq::filter);
    if list.len() > 0 {
        lemma_nobody_removed(list.drop_last(), id);
        assert(list.drop_last().push(list.last()) =~= list);
    }
}

/// Leaving undoes joining: a viewer that joins under a new identifier and
/// whose connection then ends leaves the list of participants as it was.
pub proof fn leaving_undoes_joining(
    before: Session,
    viewer_id: ParticipantId,
    new: Seat,
    during: Session,
    after: Session,
)
    requires
        forall|i: int|
            0 <= i < before.participants.present_viewers@.len() ==> (
            #[trigger] before.participants.present_viewers@[i]).info.id@ != viewer_id@,
        joined(before, viewer_id, new, during),
        steps_to(during, Step::Leave(viewer_id, new.connection), after),
    ensures
        after.participants.present_viewers@ == before.participants.present_viewers@,
        after.participants.sharer == before.participants.sharer,
        link_to(after.viewers@, viewer_id@) is None,
{
    let listed = during.participants.present_viewers@;
    reveal(Seq::filter);
    lemma_nobody_removed(before.participants.present_viewers@, viewer_id@);
    assert(without_viewer(listed, viewer_id@) == without_viewer(listed.drop_last(), viewer_id@));
    assert(seat_at(during.viewers@.remove(viewer_id@), viewer_id@) is None);
}

/// The messages of a sharer on access: roles of users, access levels, guests,
/// retention, and requests it turned down.
pub open spec fn is_about_access(message: sharer::UpstreamMessage) -> bool {
    ||| message is RespondToRoleRequest
    ||| message is UpdateUserRole
    ||| message is UpdatePendingUserRole
    ||| message is UpdateAllRolesToReader
    ||| message is RejectInputUpdate
    ||| message is RejectCommandExecutionRequest
    ||| message is RejectWriteToPtyRequest
    ||| message is RejectAgentPromptRequest
    ||| message is RejectControlActionRequest
    ||| message is UpdateLinkAccessLevel
    ||| message is UpdateTeamAccessLevel
    ||| message is AddGuests
    ||| message is RemoveGuest
    ||| message is RemovePendingGuest
    ||| message is ExtendSessionRetention
}

/// The messages of a viewer on access.
pub open spec fn viewer_asks_about_access(message: viewer::UpstreamMessage) -> bool {
    ||| message is CancelRoleRequest
    ||| message is Reauthenticated
    ||| message is UpdateLinkAccessLevel
    ||| message is UpdateTeamAccessLevel
    ||| message is AddGuests
    ||| message is RemoveGuest
    ||| message is RemovePendingGuest
    ||| message is UpdateUserRole
    ||| message is UpdatePendingUserRole
}

/// Messages on access, guests and teams have no effect: nobody is sent
/// anything and the session stays as it is.
pub proof fn access_is_not_managed(
    before: Session,
    from_sharer: sharer::UpstreamMessage,
    viewer_id: ParticipantId,
    from_viewer: viewer::UpstreamMessage,
    request_id: Payload,
    after: Session,
)
    ensures
        is_about_access(from_sharer) && sharer_ws::handled(before, from_sharer, after) ==> {
            &&& after == Session { viewers: after.viewers, ..before }
            &&& after.viewers@ == before.viewers@
        },
        viewer_asks_about_access(from_viewer) && viewer_ws::handled(
            before,
            viewer_id,
            from_viewer,
            request_id,
            after,
        ) ==> {
            &&& after == Session { viewers: after.viewers, ..before }
            &&& after.viewers@ == before.viewers@
        },
{
    if (is_about_access(from_sharer) && sharer_ws::handled(before, from_sharer, after)) || (
    viewer_asks_about_access(from_viewer) && viewer_ws::handled(
        before,
        viewer_id,
        from_viewer,
        request_id,
        after,
    )) {
        assert forall|id: Seq<char>| #[trigger]
            before.viewers@.dom().contains(id) == after.viewers@.dom().contains(id) by {
            assert(seat_at(before.viewers@, id) == seat_at(after.viewers@, id));
        }
        assert forall|id: Seq<char>| #[trigger]
            before.viewers@.dom().contains(id) implies before.viewers@[id]
            == after.viewers@[id] by {
            assert(seat_at(before.viewers@, id) == seat_at(after.viewers@, id));
        }
        assert(before.viewers@ =~= after.viewers@);
    }
}

} // verus!
