//! The viewers that are connected to a session, each with the connection that
//! it is on and the queue to that connection's writer.

use crate::channel::{self, link_after, Outgoing, Tx};
use crate::common::ParticipantId;
use crate::viewer;
use vstd::prelude::*;

verus! {

/// A connected viewer's place: the number of the connection that it is on, and
/// the queue to that connection's writer.
pub struct Seat {
    pub connection: u64,
    pub tx: Tx,
}

/// The seat of the viewer `id`, if it is connected.
pub open spec fn seat_at(table: Map<Seq<char>, Seat>, id: Seq<char>) -> Option<Seat> {
    if table.contains_key(id) {
        Some(table[id])
    } else {
        None
    }
}

/// The seat on the connection `connection`, if its queue is still there.
pub open spec fn seated(connection: u64, link: Option<Tx>) -> Option<Seat> {
    match link {
        Some(tx) => Some(Seat { connection, tx }),
        None => None,
    }
}

/// The queue that belongs to a seat.
pub open spec fn link_of(seat: Option<Seat>) -> Option<Tx> {
    match seat {
        Some(s) => Some(s.tx),
        None => None,
    }
}

/// The queue to the viewer `id`, if it is connected.
pub open spec fn link_to(table: Map<Seq<char>, Seat>, id: Seq<char>) -> Option<Tx> {
    link_of(seat_at(table, id))
}

/// The number of the connection that the viewer `id` is on, if it is connected.
pub open spec fn connection_at(table: Map<Seq<char>, Seat>, id: Seq<char>) -> Option<u64> {
    match seat_at(table, id) {
        Some(s) => Some(s.connection),
        None => None,
    }
}

/// The viewer `id` is on the connection `connection`, or not connected.
pub open spec fn only_on(table: Map<Seq<char>, Seat>, id: Seq<char>, connection: u64) -> bool {
    connection_at(table, id) matches Some(current) ==> current == connection
}

/// How sending `messages` to a viewer, in order, changes its seat: its queue
/// takes them, on the same connection, or the seat is given up.
pub open spec fn seat_after(
    before: Option<Seat>,
    after: Option<Seat>,
    messages: Seq<Outgoing>,
) -> bool {
    &&& link_after(link_of(before), link_of(after), messages)
    &&& after matches Some(a) ==> before is Some && a.connection == before->0.connection
}

/// Every viewer was sent what `messages` gives for it, and those that refused a
/// message are gone.
pub open spec fn table_after(
    before: Map<Seq<char>, Seat>,
    after: Map<Seq<char>, Seat>,
    messages: spec_fn(Seq<char>) -> Seq<Outgoing>,
) -> bool {
    forall|id: Seq<char>|
        #![trigger seat_at(before, id)]
        #![trigger seat_at(after, id)]
        seat_after(seat_at(before, id), seat_at(after, id), messages(id))
}

/// `table` with the viewer `id` on `seat`.
pub open spec fn table_with(
    table: Map<Seq<char>, Seat>,
    id: Seq<char>,
    seat: Option<Seat>,
) -> Map<Seq<char>, Seat> {
    match seat {
        Some(s) => table.insert(id, s),
        None => table.remove(id),
    }
}

/// The seat on the connection `connection`, if its queue is still there.
pub(crate) fn seat(connection: u64, link: Option<Tx>) -> (seat: Option<Seat>)
    ensures
        seat == seated(connection, link),
{
    match link {
        Some(tx) => Some(Seat { connection, tx }),
        None => None,
    }
}

/// The same message to every viewer.
pub open spec fn to_all(message: viewer::DownstreamMessage) -> spec_fn(Seq<char>) -> Seq<Outgoing> {
    |id: Seq<char>| seq![Outgoing::ToViewer(message)]
}

/// The same message to every viewer but one.
pub open spec fn to_others(me: Seq<char>, message: viewer::DownstreamMessage) -> spec_fn(
    Seq<char>,
) -> Seq<Outgoing> {
    |id: Seq<char>|
        if id == me {
            Seq::<Outgoing>::empty()
        } else {
            seq![Outgoing::ToViewer(message)]
        }
}

/// A message to one viewer.
pub open spec fn to_one(me: Seq<char>, message: viewer::DownstreamMessage) -> spec_fn(
    Seq<char>,
) -> Seq<Outgoing> {
    |id: Seq<char>|
        if id == me {
            seq![Outgoing::ToViewer(message)]
        } else {
            Seq::<Outgoing>::empty()
        }
}

spec fn holds(entries: Seq<(ParticipantId, Seat)>, id: Seq<char>) -> bool {
    exists|i: int| 0 <= i < entries.len() && (#[trigger] entries[i]).0@ == id
}

spec fn place(entries: Seq<(ParticipantId, Seat)>, id: Seq<char>) -> int {
    choose|i: int| 0 <= i < entries.len() && (#[trigger] entries[i]).0@ == id
}

spec fn table_of(entries: Seq<(ParticipantId, Seat)>) -> Map<Seq<char>, Seat> {
    Map::new(|id: Seq<char>| holds(entries, id), |id: Seq<char>| entries[place(entries, id)].1)
}

spec fn distinct(entries: Seq<(ParticipantId, Seat)>) -> bool {
    forall|i: int, j: int|
        0 <= i < j < entries.len() ==> (#[trigger] entries[i]).0@ != (#[trigger] entries[j]).0@
}

/// Connected viewers by identifier. No identifier occurs twice.
pub struct Viewers {
    entries: Vec<(ParticipantId, Seat)>,
}

impl View for Viewers {
    type V = Map<Seq<char>, Seat>;

    closed spec fn view(&self) -> Map<Seq<char>, Seat> {
        table_of(self.entries@)
    }
}

proof fn lemma_entry(entries: Seq<(ParticipantId, Seat)>, i: int)
    requires
        distinct(entries),
        0 <= i < entries.len(),
    ensures
        table_of(entries).contains_key(entries[i].0@),
        table_of(entries)[entries[i].0@] == entries[i].1,
{
    assert(holds(entries, entries[i].0@));
    let p = place(entries, entries[i].0@);
    assert(p == i);
}

proof fn lemma_push(entries: Seq<(ParticipantId, Seat)>, entry: (ParticipantId, Seat))
    requires
        distinct(entries),
        !table_of(entries).contains_key(entry.0@),
    ensures
        distinct(entries.push(entry)),
        table_of(entries.push(entry)) == table_of(entries).insert(entry.0@, entry.1),
{
    let longer = entries.push(entry);
    assert forall|i: int| 0 <= i < entries.len() implies (#[trigger] entries[i]).0@ != entry.0@ by {
        lemma_entry(entries, i);
    }
    assert forall|i: int, j: int| 0 <= i < j < longer.len() implies (#[trigger] longer[i]).0@ != (
    #[trigger] longer[j]).0@ by {
        assert(longer[i] == entries[i]);
        if j < entries.len() {
            assert(longer[j] == entries[j]);
        }
    }
    let left = table_of(longer);
    let right = table_of(entries).insert(entry.0@, entry.1);
    lemma_entry(longer, entries.len() as int);
    assert forall|id: Seq<char>| #[trigger] left.dom().contains(id) implies right.dom().contains(id)
        && left[id] == right[id] by {
        let i = place(longer, id);
        lemma_entry(longer, i);
        if i < entries.len() {
            assert(longer[i] == entries[i]);
            lemma_entry(entries, i);
        }
    }
    assert forall|id: Seq<char>| #[trigger] right.dom().contains(id) implies left.dom().contains(
        id,
    ) by {
        if id != entry.0@ {
            let i = place(entries, id);
            assert(longer[i] == entries[i]);
            lemma_entry(longer, i);
        }
    }
    assert(left =~= right);
}

proof fn lemma_pop(entries: Seq<(ParticipantId, Seat)>)
    requires
        distinct(entries),
        entries.len() > 0,
    ensures
        distinct(entries.drop_last()),
        table_of(entries).contains_key(entries.last().0@),
        table_of(entries)[entries.last().0@] == entries.last().1,
        table_of(entries.drop_last()) == table_of(entries).remove(entries.last().0@),
{
    let shorter = entries.drop_last();
    let last = entries.last();
    lemma_entry(entries, entries.len() - 1);
    assert(!table_of(shorter).contains_key(last.0@)) by {
        if table_of(shorter).contains_key(last.0@) {
            let i = place(shorter, last.0@);
            assert(shorter[i] == entries[i]);
            assert(entries[i].0@ != entries[entries.len() - 1].0@);
        }
    }
    assert forall|i: int, j: int| 0 <= i < j < shorter.len() implies (#[trigger] shorter[i]).0@ != (
    #[trigger] shorter[j]).0@ by {
        assert(shorter[i] == entries[i] && shorter[j] == entries[j]);
    }
    lemma_push(shorter, last);
    assert(shorter.push(last) =~= entries);
    assert(table_of(shorter) =~= table_of(entries).remove(last.0@));
}

impl Viewers {
    pub closed spec fn wf(&self) -> bool {
        distinct(self.entries@)
    }

    pub fn new() -> (table: Viewers)
        ensures
            table.wf(),
            table@ == Map::<Seq<char>, Seat>::empty(),
    {
        let table = Viewers { entries: Vec::new() };
        assert(table@ =~= Map::<Seq<char>, Seat>::empty());
        table
    }

    /// The number of the connection that the viewer `id` is on, if it is
    /// connected.
    pub fn connection_of(&self, id: &ParticipantId) -> (connection: Option<u64>)
        requires
            self.wf(),
        ensures
            connection == connection_at(self@, id@),
    {
        let mut i: usize = 0;
        while i < self.entries.len()
            invariant
                self.wf(),
                i <= self.entries@.len(),
                forall|j: int| 0 <= j < i ==> (#[trigger] self.entries@[j]).0@ != id@,
            decreases self.entries@.len() - i,
        {
            if self.entries[i].0.same_as(id) {
                proof {
                    lemma_entry(self.entries@, i as int);
                }
                return Some(self.entries[i].1.connection);
            }
            i = i + 1;
        }
        None
    }

    /// Takes the viewer `id` off the table, and gives back its seat if it had
    /// one.
    pub fn take(&mut self, id: &ParticipantId) -> (seat: Option<Seat>)
        requires
            old(self).wf(),
        ensures
            final(self).wf(),
            seat == seat_at(old(self)@, id@),
            final(self)@ == old(self)@.remove(id@),
    {
        let ghost before = self@;
        let mut kept: Vec<(ParticipantId, Seat)> = Vec::new();
        let mut seat: Option<Seat> = None;
        assert(table_of(kept@) =~= Map::<Seq<char>, Seat>::empty());
        while self.entries.len() > 0
            invariant
                distinct(self.entries@),
                distinct(kept@),
                before =~= table_of(self.entries@).union_prefer_right(
                    table_with(table_of(kept@), id@, seat),
                ),
                table_of(self.entries@).dom().disjoint(table_of(kept@).dom()),
                seat is Some ==> !table_of(self.entries@).contains_key(id@),
                !table_of(kept@).contains_key(id@),
            decreases self.entries.len(),
        {
            proof {
                lemma_pop(self.entries@);
            }
            let ghost rest = self.entries@;
            match self.entries.pop() {
                Some((other, taken)) => {
                    assert(self.entries@ =~= rest.drop_last());
                    if other.same_as(id) {
                        seat = Some(taken);
                    } else {
                        proof {
                            lemma_push(kept@, (other, taken));
                        }
                        kept.push((other, taken));
                    }
                },
                None => {},
            }
        }
        self.entries = kept;
        seat
    }

    /// Puts the viewer `id` on `seat`, in place of one that it had before.
    pub fn put(&mut self, id: ParticipantId, seat: Option<Seat>)
        requires
            old(self).wf(),
        ensures
            final(self).wf(),
            final(self)@ == table_with(old(self)@, id@, seat),
    {
        let _ = self.take(&id);
        match seat {
            Some(new) => {
                proof {
                    lemma_push(self.entries@, (id, new));
                }
                self.entries.push((id, new));
            },
            None => {},
        }
        assert(self@ =~= table_with(old(self)@, id@, seat));
    }

    /// Sends a message to one viewer, if it is connected.
    pub fn send_to(&mut self, id: &ParticipantId, message: viewer::DownstreamMessage)
        requires
            old(self).wf(),
        ensures
            final(self).wf(),
            table_after(old(self)@, final(self)@, to_one(id@, message)),
    {
        match self.take(id) {
            None => {},
            Some(Seat { connection, tx }) => {
                let mut link = Some(tx);
                channel::send(&mut link, Outgoing::ToViewer(message));
                self.put(id.clone(), seat(connection, link));
            },
        }
    }

    /// Sends a message to every viewer, or to every viewer but `except`.
    pub fn fan_out(&mut self, except: Option<&ParticipantId>, message: viewer::DownstreamMessage)
        requires
            old(self).wf(),
        ensures
            final(self).wf(),
            table_after(
                old(self)@,
                final(self)@,
                match except {
                    Some(me) => to_others(me@, message),
                    None => to_all(message),
                },
            ),
    {
        let ghost before = self@;
        let ghost messages = match except {
            Some(me) => to_others(me@, message),
            None => to_all(message),
        };
        let mut kept: Vec<(ParticipantId, Seat)> = Vec::new();
        assert(table_of(kept@) =~= Map::<Seq<char>, Seat>::empty());
        while self.entries.len() > 0
            invariant
                messages == match except {
                    Some(me) => to_others(me@, message),
                    None => to_all(message),
                },
                distinct(self.entries@),
                distinct(kept@),
                forall|id: Seq<char>| #[trigger]
                    table_of(self.entries@).contains_key(id) ==> before.contains_key(id)
                        && before[id] == table_of(self.entries@)[id] && !table_of(
                        kept@,
                    ).contains_key(id),
                forall|id: Seq<char>|
                    !(#[trigger] table_of(self.entries@).contains_key(id)) ==> seat_after(
                        seat_at(before, id),
                        seat_at(table_of(kept@), id),
                        messages(id),
                    ),
            decreases self.entries.len(),
        {
            proof {
                lemma_pop(self.entries@);
            }
            let ghost rest = self.entries@;
            let ghost kept_before = kept@;
            match self.entries.pop() {
                Some((id, Seat { connection, tx })) => {
                    assert(self.entries@ =~= rest.drop_last());
                    let skipped = match except {
                        Some(me) => id.same_as(me),
                        None => false,
                    };
                    let mut link = Some(tx);
                    if !skipped {
                        channel::send(&mut link, Outgoing::ToViewer(message.clone()));
                    }
                    let left_on = seat(connection, link);
                    assert(seat_after(seat_at(before, id@), left_on, messages(id@)));
                    match left_on {
                        Some(new) => {
                            proof {
                                lemma_push(kept@, (id, new));
                            }
                            kept.push((id, new));
                        },
                        None => {},
                    }
                    assert(seat_at(table_of(kept@), id@) == left_on);
                    assert forall|other: Seq<char>| other != id@ implies seat_at(
                        table_of(kept@),
                        other,
                    ) == #[trigger] seat_at(table_of(kept_before), other) by {}
                    let ghost left = table_of(self.entries@);
                    assert forall|other: Seq<char>|
                        !(#[trigger] left.contains_key(other)) implies seat_after(
                        seat_at(before, other),
                        seat_at(table_of(kept@), other),
                        messages(other),
                    ) by {
                        if other != id@ {
                            assert(!table_of(rest).contains_key(other));
                            assert(seat_at(table_of(kept_before), other) == seat_at(
                                table_of(kept@),
                                other,
                            ));
                        }
                    }
                },
                None => {},
            }
        }
        let ghost done = table_of(self.entries@);
        self.entries = kept;
        assert forall|id: Seq<char>|
            #![trigger seat_at(before, id)]
            #![trigger seat_at(self@, id)]
            seat_after(seat_at(before, id), seat_at(self@, id), messages(id)) by {
            assert(!done.contains_key(id));
        }
    }
}

} // verus!
