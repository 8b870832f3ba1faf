//! The queue to one connection's writer.
//!
//! A connection that takes every message it is sent keeps its queue. One whose
//! queue refuses a message (it is full because the peer has stalled, or closed
//! because the writer is gone) is dropped with that message: it never sees a
//! later one, so what it has seen has no gap.

use crate::{sharer, viewer};
use tokio::sync::mpsc::{Receiver, Sender};
use vstd::prelude::*;

verus! {

/// How many messages may wait for one connection's writer. A whole event log
/// fits, so a viewer that has to catch up on all of it is not cut off.
pub const WRITER_CHANNEL_CAP: usize = 16384;

/// A message on its way to a connection.
#[derive(Debug)]
pub enum Outgoing {
    ToSharer(sharer::DownstreamMessage),
    ToViewer(viewer::DownstreamMessage),
}

/// The sending half of a connection's queue.
pub type Tx = Sender<Outgoing>;

/// The sending half of tokio's bounded channel.
#[verifier::external_type_specification]
#[verifier::external_body]
#[verifier::reject_recursive_types(T)]
pub struct ExSender<T>(Sender<T>);

/// The receiving half of tokio's bounded channel.
#[verifier::external_type_specification]
#[verifier::external_body]
#[verifier::reject_recursive_types(T)]
pub struct ExReceiver<T>(Receiver<T>);

/// What has been offered to the queue through this handle, oldest first, each
/// message with whether the queue took it.
pub uninterp spec fn send_log(tx: Sender<Outgoing>) -> Seq<(Outgoing, bool)>;

/// How many messages the queue was made to hold.
pub uninterp spec fn queue_bound(tx: Sender<Outgoing>) -> nat;

/// `rx` is the receiving half of the queue that `tx` sends into: what the queue
/// takes from `tx` becomes available on `rx`, in order.
pub uninterp spec fn feeds(tx: Sender<Outgoing>, rx: Receiver<Outgoing>) -> bool;

/// `tokio::sync::mpsc::channel`: makes a queue that holds up to `capacity`
/// messages, to which nothing has been offered yet, and gives its two halves.
/// It panics on a capacity of zero and on one above `usize::MAX >> 3`, which is
/// at least the bound required here.
#[verifier::external_body]
fn channel(capacity: usize) -> (ends: (Sender<Outgoing>, Receiver<Outgoing>))
    requires
        0 < capacity <= 0x1fff_ffff,
    ensures
        send_log(ends.0) == Seq::<(Outgoing, bool)>::empty(),
        queue_bound(ends.0) == capacity,
        feeds(ends.0, ends.1),
{
    tokio::sync::mpsc::channel(capacity)
}

/// `tokio::sync::mpsc::Sender::try_send`: offers `message` to the queue without
/// waiting and tells whether the queue took it, behind all that it took before.
/// The queue stays the same one, with the same receiving half. Whether it takes
/// the message depends on what the receiving half has taken out so far and
/// on whether it still exists, of which nothing is claimed.
#[verifier::external_body]
fn try_send(tx: &mut Sender<Outgoing>, message: Outgoing) -> (accepted: bool)
    ensures
        send_log(*final(tx)) == send_log(*old(tx)).push((message, accepted)),
        queue_bound(*final(tx)) == queue_bound(*old(tx)),
        forall|rx: Receiver<Outgoing>| #[trigger] feeds(*final(tx), rx) == feeds(*old(tx), rx),
{
    tx.try_send(message).is_ok()
}

/// Makes the queue of a new connection: what is sent into the first half comes
/// out of the second.
pub fn writer_channel() -> (ends: (Tx, Receiver<Outgoing>))
    ensures
        send_log(ends.0) == Seq::<(Outgoing, bool)>::empty(),
        queue_bound(ends.0) == WRITER_CHANNEL_CAP,
        feeds(ends.0, ends.1),
{
    channel(WRITER_CHANNEL_CAP)
}

/// Log entries of `messages`, all of them taken.
pub open spec fn taken(messages: Seq<Outgoing>) -> Seq<(Outgoing, bool)> {
    messages.map_values(|m: Outgoing| (m, true))
}

/// `log` after the first `k` of `messages` were taken and the next was refused.
pub open spec fn cut_log(
    log: Seq<(Outgoing, bool)>,
    messages: Seq<Outgoing>,
    k: int,
) -> Seq<(Outgoing, bool)> {
    log + taken(messages.take(k)).push((messages[k], false))
}

/// `after` sends into the queue that `before` sent into.
pub open spec fn same_queue(before: Tx, after: Tx) -> bool {
    &&& queue_bound(after) == queue_bound(before)
    &&& forall|rx: Receiver<Outgoing>| #[trigger] feeds(after, rx) == feeds(before, rx)
}

/// The queue took every one of `messages`, in order.
pub open spec fn sent_all(before: Tx, after: Tx, messages: Seq<Outgoing>) -> bool {
    &&& same_queue(before, after)
    &&& send_log(after) == send_log(before) + taken(messages)
}

/// The queue refused one of `messages`, after taking those before it. Nothing
/// was offered to it since.
pub open spec fn cut_off(before: Tx, after: Tx, messages: Seq<Outgoing>) -> bool {
    &&& same_queue(before, after)
    &&& exists|k: int|
        0 <= k < messages.len() && send_log(after) == #[trigger] cut_log(
            send_log(before),
            messages,
            k,
        )
}

/// How sending `messages` to a connection, in order, changes it: one that is
/// gone stays gone; one that takes them all stays; one that refuses a message
/// is gone. With no message to send, nothing is touched.
pub open spec fn link_after(
    before: Option<Tx>,
    after: Option<Tx>,
    messages: Seq<Outgoing>,
) -> bool {
    if messages.len() == 0 {
        after == before
    } else {
        match (before, after) {
            (None, None) => true,
            (None, Some(_)) => false,
            (Some(b), Some(a)) => sent_all(b, a, messages),
            (Some(b), None) => exists|a: Tx| #[trigger] cut_off(b, a, messages),
        }
    }
}

/// Sending some messages and then others is sending them all, in that order.
pub proof fn sending_composes(
    before: Option<Tx>,
    between: Option<Tx>,
    after: Option<Tx>,
    first: Seq<Outgoing>,
    second: Seq<Outgoing>,
)
    requires
        link_after(before, between, first),
        link_after(between, after, second),
    ensures
        link_after(before, after, first + second),
{
    if first.len() == 0 {
        assert(first + second =~= second);
    } else if second.len() == 0 {
        assert(first + second =~= first);
    } else if before is Some {
        let b = before->0;
        if between is None {
            let a = choose|a: Tx| #[trigger] cut_off(b, a, first);
            let k = choose|k: int|
                0 <= k < first.len() && send_log(a) == #[trigger] cut_log(send_log(b), first, k);
            assert((first + second).take(k) =~= first.take(k));
            assert(send_log(a) == cut_log(send_log(b), first + second, k));
            assert(cut_off(b, a, first + second));
        } else {
            let m = between->0;
            assert(taken(first + second) =~= taken(first) + taken(second));
            match after {
                Some(a) => {
                    assert(send_log(a) =~= send_log(b) + taken(first + second));
                },
                None => {
                    let a = choose|a: Tx| #[trigger] cut_off(m, a, second);
                    let k = choose|k: int|
                        0 <= k < second.len() && send_log(a) == #[trigger] cut_log(
                            send_log(m),
                            second,
                            k,
                        );
                    let j = first.len() + k;
                    assert((first + second).take(j) =~= first + second.take(k));
                    assert(taken(first + second.take(k)) =~= taken(first) + taken(second.take(k)));
                    assert(send_log(a) =~= cut_log(send_log(b), first + second, j));
                    assert(cut_off(b, a, first + second));
                },
            }
        }
    }
}

/// Sends `message` to a connection, and drops the connection if it refuses.
pub fn send(link: &mut Option<Tx>, message: Outgoing)
    ensures
        link_after(*old(link), *final(link), seq![message]),
{
    match link.take() {
        None => {},
        Some(mut tx) => {
            let ghost before = tx;
            let accepted = try_send(&mut tx, message);
            assert(taken(seq![message]) =~= seq![(message, true)]);
            assert(seq![message].take(0) =~= Seq::<Outgoing>::empty());
            assert(taken(Seq::<Outgoing>::empty()) =~= Seq::<(Outgoing, bool)>::empty());
            if accepted {
                assert(send_log(tx) =~= send_log(before) + taken(seq![message]));
                *link = Some(tx);
            } else {
                assert(send_log(tx) =~= cut_log(send_log(before), seq![message], 0));
                assert(cut_off(before, tx, seq![message]));
            }
        },
    }
}

} // verus!
