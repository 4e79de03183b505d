//! Sending one message to many connections.

use crate::connection::{offered, ConnectionView, LinkView, Links};
use crate::error::{WebSocketError, WebSocketResult};
use crate::manager::RoomManager;
use crate::message::{Message, MessageView};
use crate::names::texts;
use vstd::prelude::*;

verus! {

/// A message is offered to the connection of a name. Nothing comes of it when
/// no connection has that name.
pub open spec fn offered_to(
    connections: Map<Seq<char>, ConnectionView>,
    name: Seq<char>,
    before: Map<u64, LinkView>,
    after: Map<u64, LinkView>,
    message: MessageView,
    taken: bool,
) -> bool {
    if connections.contains_key(name) {
        offered(before, after, connections[name].link, message, taken)
    } else {
        !taken && after == before
    }
}

/// How many of these are true.
pub open spec fn tally(taken: Seq<bool>) -> nat
    decreases taken.len(),
{
    if taken.len() == 0 {
        0
    } else if taken.last() {
        tally(taken.drop_last()) + 1
    } else {
        tally(taken.drop_last())
    }
}

/// How a broadcast went: the names in the order in which the message was
/// offered to them, which of them took it, and the connections as they were
/// before the first offer and after each.
pub struct Broadcast {
    pub order: Seq<Seq<char>>,
    pub taken: Seq<bool>,
    pub links: Seq<Map<u64, LinkView>>,
}

impl Broadcast {
    /// The message was offered once to each name in the audience, one after
    /// the other.
    pub open spec fn covers(
        self,
        connections: Map<Seq<char>, ConnectionView>,
        audience: Set<Seq<char>>,
        message: MessageView,
        before: Map<u64, LinkView>,
        after: Map<u64, LinkView>,
    ) -> bool {
        &&& self.order.no_duplicates()
        &&& self.order.to_set() == audience
        &&& self.taken.len() == self.order.len()
        &&& self.links.len() == self.order.len() + 1
        &&& self.links[0] == before
        &&& self.links.last() == after
        &&& forall|i: int|
            0 <= i < self.order.len() ==> offered_to(
                connections,
                #[trigger] self.order[i],
                self.links[i],
                self.links[i + 1],
                message,
                self.taken[i],
            )
    }
}

/// The message was offered once to each name in the audience, and so many took
/// it.
pub open spec fn broadcast(
    connections: Map<Seq<char>, ConnectionView>,
    audience: Set<Seq<char>>,
    message: MessageView,
    before: Map<u64, LinkView>,
    after: Map<u64, LinkView>,
    count: nat,
) -> bool {
    exists|run: Broadcast| #[trigger]
        run.covers(connections, audience, message, before, after) && tally(run.taken) == count
}

/// The names without one of them.
fn without(names: Vec<String>, name: &str) -> (rest: Vec<String>)
    requires
        texts(names@).no_duplicates(),
    ensures
        texts(rest@).no_duplicates(),
        texts(rest@).to_set() == texts(names@).to_set().remove(name@),
{
    let wanted = name.to_owned();
    let ghost all = texts(names@);
    let mut at: usize = 0;
    while at < names.len()
        invariant
            all == texts(names@),
            all.no_duplicates(),
            wanted@ == name@,
            at <= names@.len(),
            forall|i: int| 0 <= i < at ==> #[trigger] all[i] != name@,
        decreases names@.len() - at,
    {
        assert(all[at as int] == names@[at as int]@);
        if names[at] == wanted {
            let mut rest = names;
            rest.remove(at);
            let ghost left = texts(rest@);
            assert(left =~= all.remove(at as int));
            assert forall|other: Seq<char>| #[trigger] left.to_set().contains(other)
                == all.to_set().remove(name@).contains(other) by {
                if all.contains(other) && other != name@ {
                    let i = choose|i: int| 0 <= i < all.len() && all[i] == other;
                    assert(left[if i < at {
                        i
                    } else {
                        i - 1
                    }] == other);
                }
            }
            assert(left.to_set() =~= all.to_set().remove(name@));
            return rest;
        }
        at = at + 1;
    }
    assert(all.to_set() =~= all.to_set().remove(name@));
    names
}

impl RoomManager {
    /// Offers a message to the connection of each name, and counts those that
    /// take it.
    fn offer_to_all(&self, links: &mut Links, names: Vec<String>, message: &Message) -> (count:
        usize)
        requires
            old(links).wf(),
            texts(names@).no_duplicates(),
        ensures
            final(links).wf(),
            final(links).issued() == old(links).issued(),
            broadcast(
                self@.connections,
                texts(names@).to_set(),
                message@,
                old(links)@,
                final(links)@,
                count as nat,
            ),
    {
        let ghost order = texts(names@);
        let ghost mut taken: Seq<bool> = Seq::empty();
        let ghost mut states: Seq<Map<u64, LinkView>> = seq![links@];
        let mut count: usize = 0;
        let mut at: usize = 0;
        while at < names.len()
            invariant
                order == texts(names@),
                at <= names@.len(),
                count <= at,
                links.wf(),
                links.issued() == old(links).issued(),
                taken.len() == at,
                states.len() == at + 1,
                states[0] == old(links)@,
                states.last() == links@,
                count == tally(taken),
                forall|i: int|
                    0 <= i < at ==> offered_to(
                        self@.connections,
                        #[trigger] order[i],
                        states[i],
                        states[i + 1],
                        message@,
                        taken[i],
                    ),
            decreases names@.len() - at,
        {
            let accepted = match self.get_connection(names[at].as_str()) {
                Some(connection) => connection.send(links, message.clone()).is_ok(),
                None => false,
            };
            if accepted {
                count = count + 1;
            }
            proof {
                assert(order[at as int] == names@[at as int]@);
                assert(taken.push(accepted).drop_last() =~= taken);
                taken = taken.push(accepted);
                states = states.push(links@);
            }
            at = at + 1;
        }
        proof {
            let run = Broadcast { order, taken, links: states };
            assert(run.covers(
                self@.connections,
                order.to_set(),
                message@,
                old(links)@,
                links@,
            ));
        }
        count
    }

    /// Offers a message to every member of a room, and counts those that take
    /// it.
    pub fn broadcast_to_room(&self, links: &mut Links, room_id: &str, message: Message) -> (result:
        WebSocketResult<usize>)
        requires
            self.wf(),
            old(links).wf(),
        ensures
            final(links).wf(),
            final(links).issued() == old(links).issued(),
            match result {
                Ok(count) => {
                    &&& self@.rooms.contains_key(room_id@)
                    &&& broadcast(
                        self@.connections,
                        self@.rooms[room_id@],
                        message@,
                        old(links)@,
                        final(links)@,
                        count as nat,
                    )
                },
                Err(error) => {
                    &&& !self@.rooms.contains_key(room_id@)
                    &&& error matches WebSocketError::RoomNotFound(id) && id@ == room_id@
                    &&& final(links)@ == old(links)@
                },
            },
    {
        let members = match self.get_room(room_id) {
            Some(room) => room.members(),
            None => {
                return Err(WebSocketError::RoomNotFound(room_id.to_owned()));
            },
        };
        Ok(self.offer_to_all(links, members, &message))
    }

    /// Offers a message to every member of a room but one, and counts those
    /// that take it.
    pub fn broadcast_to_room_except(
        &self,
        links: &mut Links,
        room_id: &str,
        message: Message,
        except_id: &str,
    ) -> (result: WebSocketResult<usize>)
        requires
            self.wf(),
            old(links).wf(),
        ensures
            final(links).wf(),
            final(links).issued() == old(links).issued(),
            match result {
                Ok(count) => {
                    &&& self@.rooms.contains_key(room_id@)
                    &&& broadcast(
                        self@.connections,
                        self@.rooms[room_id@].remove(except_id@),
                        message@,
                        old(links)@,
                        final(links)@,
                        count as nat,
                    )
                },
                Err(error) => {
                    &&& !self@.rooms.contains_key(room_id@)
                    &&& error matches WebSocketError::RoomNotFound(id) && id@ == room_id@
                    &&& final(links)@ == old(links)@
                },
            },
    {
        let members = match self.get_room(room_id) {
            Some(room) => room.members(),
            None => {
                return Err(WebSocketError::RoomNotFound(room_id.to_owned()));
            },
        };
        Ok(self.offer_to_all(links, without(members, except_id), &message))
    }

    /// Offers a message to every connection, and counts those that take it.
    pub fn broadcast_all(&self, links: &mut Links, message: Message) -> (count: usize)
        requires
            old(links).wf(),
        ensures
            final(links).wf(),
            final(links).issued() == old(links).issued(),
            broadcast(
                self@.connections,
                self@.connections.dom(),
                message@,
                old(links)@,
                final(links)@,
                count as nat,
            ),
    {
        self.offer_to_all(links, self.connection_ids(), &message)
    }
}

} // verus!
