//! What arrives on a connection, and what it means for the connection.

use vstd::prelude::*;

verus! {

/// One arrival on a connection; `M` is the kind of message it carries.
#[derive(Debug)]
pub enum Frame<M> {
    /// A text frame that holds a message.
    Message(M),
    /// A text frame that holds none.
    Malformed,
    /// A frame without text (binary, ping or pong).
    Ignored,
    /// The peer closed the connection, or it ended.
    Closed,
    /// The connection failed.
    Failed,
}

/// How far a connection's opening has got; `P` is what it opens with.
#[derive(Debug)]
pub enum Handshake<P> {
    /// The opening message is here.
    Ready(P),
    /// It is still to come.
    Waiting,
    /// It will not come: the connection is given up.
    Abandoned,
}

/// What an open connection does next.
#[derive(Debug)]
pub enum NextStep<M> {
    /// Handle this message.
    Handle(M),
    /// Wait for the next frame.
    Skip,
    /// The connection is over.
    Stop,
}

/// What an open connection does with a frame. A malformed message is skipped.
pub fn next_step<M>(frame: Frame<M>) -> (step: NextStep<M>)
    ensures
        step == match frame {
            Frame::Message(message) => NextStep::Handle(message),
            Frame::Malformed => NextStep::Skip,
            Frame::Ignored => NextStep::Skip,
            Frame::Closed => NextStep::Stop,
            Frame::Failed => NextStep::Stop,
        },
{
    match frame {
        Frame::Message(message) => NextStep::Handle(message),
        Frame::Malformed | Frame::Ignored => NextStep::Skip,
        Frame::Closed | Frame::Failed => NextStep::Stop,
    }
}

} // verus!
