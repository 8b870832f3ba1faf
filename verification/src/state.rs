//! The registry of live sessions.

use crate::common::SessionId;
use crate::session::{abandoned, Session};
use crate::sharer_ws::SharerFlow;
use crate::viewer;
use crate::viewers::{table_after, to_all};
use dashmap::DashMap;
use std::sync::Arc;
use std::time::Duration;
use tokio::sync::Mutex;
use vstd::prelude::*;

verus! {

/// tokio's lock. A value of it stands for the lock, not for what it guards.
#[verifier::external_type_specification]
#[verifier::external_body]
#[verifier::reject_recursive_types(T)]
pub struct ExMutex<T: ?Sized>(Mutex<T>);

/// dashmap's map.
#[verifier::external_type_specification]
#[verifier::external_body]
#[verifier::reject_recursive_types(K)]
#[verifier::reject_recursive_types(V)]
#[verifier::reject_recursive_types(S)]
pub struct ExDashMap<K, V, S>(DashMap<K, V, S>);

/// A live session, shared by the tasks of its connections.
pub type SessionHandle = Arc<Mutex<Session>>;

/// What the map holds.
pub uninterp spec fn entries(held: DashMap<u128, Arc<Mutex<Session>>>) -> Map<
    u128,
    Arc<Mutex<Session>>,
>;

/// `dashmap::DashMap::new`: makes an empty map.
#[verifier::external_body]
fn map_new() -> (held: DashMap<u128, Arc<Mutex<Session>>>)
    ensures
        (entries(held) == Map::<u128, Arc<Mutex<Session>>>::empty()),
{
    DashMap::new()
}

/// `dashmap::DashMap::get`, with the value cloned out of the guard it returns:
/// gives another handle to the session under `key`, or `None` if there is none.
#[verifier::external_body]
fn map_get(held: &DashMap<u128, Arc<Mutex<Session>>>, key: &u128) -> (value: Option<
    Arc<Mutex<Session>>,
>)
    ensures
        value == (if entries(*held).contains_key(*key) {
            Some(entries(*held)[*key])
        } else {
            None
        }),
{
    match held.get(key) {
        Some(found) => Some(found.value().clone()),
        None => None,
    }
}

/// `dashmap::DashMap::insert`: puts `value` under `key`, in place of what was
/// there, and leaves the other keys alone. The map is borrowed mutably, so
/// nobody else changes it meanwhile.
#[verifier::external_body]
fn map_insert(
    held: &mut DashMap<u128, Arc<Mutex<Session>>>,
    key: u128,
    value: Arc<Mutex<Session>>,
)
    ensures
        entries(*final(held)) == entries(*old(held)).insert(key, value),
{
    held.insert(key, value);
}

/// `dashmap::DashMap::remove`: takes `key` out, and leaves the other keys
/// alone. The map is borrowed mutably, so nobody else changes it meanwhile.
#[verifier::external_body]
fn map_remove(held: &mut DashMap<u128, Arc<Mutex<Session>>>, key: &u128)
    ensures
        entries(*final(held)) == entries(*old(held)).remove(*key),
{
    held.remove(key);
}

/// What the operator sets.
pub struct Config {
    /// How long a session waits for its sharer to come back.
    pub sharer_grace: Duration,
    /// The largest message that a connection may send, in bytes.
    pub max_message_bytes: usize,
}

/// All live sessions, by identifier. There is no bound on how many there are.
pub struct ServerState {
    sessions: DashMap<u128, Arc<Mutex<Session>>>,
    config: Config,
}

impl View for ServerState {
    type V = Map<SessionId, SessionHandle>;

    closed spec fn view(&self) -> Map<SessionId, SessionHandle> {
        entries(self.sessions)
    }
}

/// The session that `sessions` holds under `id`, if any.
pub open spec fn session_at(
    sessions: Map<SessionId, SessionHandle>,
    id: SessionId,
) -> Option<SessionHandle> {
    if sessions.contains_key(id) {
        Some(sessions[id])
    } else {
        None
    }
}

/// The live sessions once the session `id` has gone on as `flow` says.
pub open spec fn concluded(
    sessions: Map<SessionId, SessionHandle>,
    id: SessionId,
    flow: SharerFlow,
) -> Map<SessionId, SessionHandle> {
    match flow {
        SharerFlow::Ended => sessions.remove(id),
        SharerFlow::Continues => sessions,
    }
}

/// The live sessions once the wait of `session`, under `id`, for a sharer that
/// left with the connection `connection` is over.
pub open spec fn waited(
    sessions: Map<SessionId, SessionHandle>,
    id: SessionId,
    session: Session,
    connection: u64,
) -> Map<SessionId, SessionHandle> {
    if abandoned(session, connection) {
        sessions.remove(id)
    } else {
        sessions
    }
}

impl ServerState {
    /// What the registry was configured with.
    pub closed spec fn settings(&self) -> Config {
        self.config
    }

    /// A registry without sessions.
    pub fn with_config(config: Config) -> (state: ServerState)
        ensures
            state@ == Map::<SessionId, SessionHandle>::empty(),
            state.settings() == config,
    {
        ServerState { sessions: map_new(), config }
    }

    pub fn config(&self) -> (config: &Config)
        ensures
            *config == self.settings(),
    {
        &self.config
    }

    /// Another handle to the session under `id`, if it is live.
    pub fn get(&self, id: &SessionId) -> (session: Option<SessionHandle>)
        ensures
            session == session_at(self@, *id),
    {
        map_get(&self.sessions, id)
    }

    /// Makes a session live under `id`.
    pub fn insert(&mut self, id: SessionId, session: SessionHandle)
        ensures
            final(self)@ == old(self)@.insert(id, session),
            final(self).settings() == old(self).settings(),
    {
        map_insert(&mut self.sessions, id, session);
    }

    /// Ends the life of the session under `id`, if there is one.
    pub fn remove(&mut self, id: &SessionId)
        ensures
            final(self)@ == old(self)@.remove(*id),
            final(self).settings() == old(self).settings(),
    {
        map_remove(&mut self.sessions, id);
    }

    /// Takes the session `id` out of the registry if its sharer's message has
    /// ended it.
    pub fn conclude(&mut self, id: &SessionId, flow: SharerFlow)
        ensures
            final(self)@ == concluded(old(self)@, *id, flow),
            final(self).settings() == old(self).settings(),
    {
        match flow {
            SharerFlow::Ended => {
                self.remove(id);
            },
            SharerFlow::Continues => {},
        }
    }

    /// Ends `session`, which is live under `id`, if its sharer left with the
    /// connection `connection` and has not come back: the viewers are told, and
    /// the session leaves the registry. Tells whether it did.
    pub fn reap(&mut self, id: &SessionId, session: &mut Session, connection: u64) -> (reaped: bool)
        requires
            old(session).wf(),
        ensures
            final(session).wf(),
            reaped == abandoned(*old(session), connection),
            reaped ==> table_after(
                old(session).viewers@,
                final(session).viewers@,
                to_all(
                    viewer::DownstreamMessage::SessionEnded {
                        reason: viewer::SessionEndedReason::EndedBySharer,
                    },
                ),
            ),
            reaped ==> *final(session) == (Session {
                viewers: final(session).viewers,
                ..*old(session)
            }),
            !reaped ==> *final(session) == *old(session),
            final(self)@ == waited(old(self)@, *id, *old(session), connection),
            final(self).settings() == old(self).settings(),
    {
        let reaped = session.reap(connection);
        if reaped {
            self.remove(id);
        }
        reaped
    }
}

/// A session is found from when it is inserted until it is removed, whatever
/// happens to others: inserting or removing one session changes what is found
/// under its own identifier only.
pub proof fn sessions_are_independent(
    sessions: Map<SessionId, SessionHandle>,
    id: SessionId,
    session: SessionHandle,
    other: SessionId,
)
    ensures
        session_at(sessions.insert(id, session), id) == Some(session),
        session_at(sessions.remove(id), id) is None,
        other != id ==> session_at(sessions.insert(id, session), other) == session_at(
            sessions,
            other,
        ),
        other != id ==> session_at(sessions.remove(id), other) == session_at(sessions, other),
{
}

/// Starting a session under an identifier that no live session has adds it to
/// the live sessions, however many there are, and leaves all of them as they
/// were. So sessions that are started one after the other have different
/// identifiers, and both are live.
pub proof fn a_started_session_joins_the_others(
    sessions: Map<SessionId, SessionHandle>,
    first_id: SessionId,
    first: SessionHandle,
    second_id: SessionId,
    second: SessionHandle,
)
    requires
        !sessions.contains_key(first_id),
        !sessions.insert(first_id, first).contains_key(second_id),
    ensures
        sessions.insert(first_id, first).dom() == sessions.dom().insert(first_id),
        sessions.dom().finite() ==> sessions.insert(first_id, first).len() == sessions.len() + 1,
        sessions.submap_of(sessions.insert(first_id, first)),
        first_id != second_id,
        session_at(sessions.insert(first_id, first).insert(second_id, second), first_id) == Some(
            first,
        ),
        session_at(sessions.insert(first_id, first).insert(second_id, second), second_id) == Some(
            second,
        ),
{
    assert(sessions.insert(first_id, first).dom() =~= sessions.dom().insert(first_id));
}

} // verus!
