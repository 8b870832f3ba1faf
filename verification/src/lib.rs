//! A limit-free relay for shared terminal sessions.
//!
//! A session has one sharer and any number of viewers. Terminal output flows
//! from the sharer to the viewers; control requests flow from the viewers to
//! the sharer. The relay imposes no quota on either.
//!
//! * [`common`], [`sharer`] and [`viewer`] hold the messages of the protocol,
//!   as far as the relay looks into them;
//! * [`channel`] holds the queue to one connection's writer, and what it means
//!   for a connection to be sent a series of messages;
//! * [`viewers`] is the table of the viewers that are connected;
//! * [`session`] is the state of one session and its fan-out;
//! * [`frame`] is what arrives on a connection;
//! * [`sharer_ws`] and [`viewer_ws`] decide what a sharer's or a viewer's
//!   connection does with each message;
//! * [`state`] is the registry of live sessions;
//! * [`promises`] and [`lifecycle`] state what each operation does for those who
//!   use the relay, operation by operation;
//! * [`laws`] and [`histories`] state what holds of a session over many steps.

pub mod channel;
pub mod common;
pub mod frame;
pub mod histories;
pub mod laws;
pub mod lifecycle;
pub mod promises;
pub mod session;
pub mod sharer;
pub mod sharer_ws;
pub mod state;
pub mod viewer;
pub mod viewer_ws;
pub mod viewers;
