//! The rooms of a server, and the connections in them.

use crate::connection::{Connection, ConnectionId, ConnectionView};
use crate::error::{WebSocketError, WebSocketResult};
use crate::names::{has_size, lemma_lists, lists, texts, NameSet};
use crate::room::{Room, RoomId, RoomView};
use crate::tables::{
    connection_entries, contains, get, get_or_insert, insert, keys, len, name_set_entries, new_connection_table,
    new_name_set_table, new_position_table, position_entries, remove,
};
use dashmap::DashMap;
use vstd::prelude::*;

verus! {

/// Who is where, as a value: the members of each room, the rooms that each
/// connection is known to be in, and the registered connections.
#[verifier::ext_equal]
pub struct RoomsView {
    pub rooms: Map<Seq<char>, Set<Seq<char>>>,
    pub memberships: Map<Seq<char>, Set<Seq<char>>>,
    pub connections: Map<Seq<char>, ConnectionView>,
}

/// The members of a room, if there is such a room, and nobody otherwise.
pub open spec fn members_of(
    rooms: Map<Seq<char>, Set<Seq<char>>>,
    room: Seq<char>,
) -> Set<Seq<char>> {
    if rooms.contains_key(room) {
        rooms[room]
    } else {
        Set::empty()
    }
}

/// The rooms after a connection has left those in the set. A room that this
/// leaves empty is gone.
pub open spec fn rooms_left(
    rooms: Map<Seq<char>, Set<Seq<char>>>,
    connection: Seq<char>,
    left: Set<Seq<char>>,
) -> Map<Seq<char>, Set<Seq<char>>> {
    Map::new(
        |room: Seq<char>|
            rooms.contains_key(room) && !(left.contains(room) && rooms[room].remove(connection)
                == Set::<Seq<char>>::empty()),
        |room: Seq<char>|
            if left.contains(room) {
                rooms[room].remove(connection)
            } else {
                rooms[room]
            },
    )
}

/// The rooms that a connection is in.
pub open spec fn rooms_of(
    rooms: Map<Seq<char>, Set<Seq<char>>>,
    connection: Seq<char>,
) -> Set<Seq<char>> {
    Set::new(|room: Seq<char>| members_of(rooms, room).contains(connection))
}

/// The memberships after those of the given connections in a room have ended.
pub open spec fn memberships_ended(
    memberships: Map<Seq<char>, Set<Seq<char>>>,
    connections: Set<Seq<char>>,
    room: Seq<char>,
) -> Map<Seq<char>, Set<Seq<char>>> {
    Map::new(
        |connection: Seq<char>| memberships.contains_key(connection),
        |connection: Seq<char>|
            if connections.contains(connection) {
                memberships[connection].remove(room)
            } else {
                memberships[connection]
            },
    )
}

impl RoomsView {
    /// Nothing and nobody.
    pub open spec fn empty() -> RoomsView {
        RoomsView { rooms: Map::empty(), memberships: Map::empty(), connections: Map::empty() }
    }

    /// A connection is registered under its name, and is in no room.
    pub open spec fn register(self, connection: ConnectionView) -> RoomsView {
        RoomsView {
            rooms: self.rooms,
            memberships: self.memberships.insert(connection.id, Set::empty()),
            connections: self.connections.insert(connection.id, connection),
        }
    }

    /// A connection is forgotten, and leaves every room that it is in or is
    /// known to be in.
    pub open spec fn unregister(self, connection: Seq<char>) -> RoomsView {
        RoomsView {
            rooms: rooms_left(
                self.rooms,
                connection,
                rooms_of(self.rooms, connection).union(members_of(self.memberships, connection)),
            ),
            memberships: self.memberships.remove(connection),
            connections: self.connections.remove(connection),
        }
    }

    /// There is a room of this name.
    pub open spec fn create_room(self, room: Seq<char>) -> RoomsView {
        RoomsView { rooms: self.rooms.insert(room, members_of(self.rooms, room)), ..self }
    }

    /// There is no room of this name, and it is off the record of its members.
    pub open spec fn delete_room(self, room: Seq<char>) -> RoomsView {
        RoomsView {
            rooms: self.rooms.remove(room),
            memberships: memberships_ended(self.memberships, members_of(self.rooms, room), room),
            connections: self.connections,
        }
    }

    /// A connection is in a room, which is made if it is not there yet.
    pub open spec fn join_room(self, connection: Seq<char>, room: Seq<char>) -> RoomsView {
        RoomsView {
            rooms: self.rooms.insert(room, members_of(self.rooms, room).insert(connection)),
            memberships: if self.memberships.contains_key(connection) {
                self.memberships.insert(
                    connection,
                    self.memberships[connection].insert(room),
                )
            } else {
                self.memberships
            },
            connections: self.connections,
        }
    }

    /// A connection is not in a room. A room that this leaves empty is gone.
    pub open spec fn leave_room(self, connection: Seq<char>, room: Seq<char>) -> RoomsView {
        RoomsView {
            rooms: rooms_left(self.rooms, connection, set![room]),
            memberships: memberships_ended(self.memberships, set![connection], room),
            connections: self.connections,
        }
    }
}

/// Manages rooms and their members.
pub struct RoomManager {
    rooms: DashMap<RoomId, usize>,
    store: Vec<Room>,
    connection_rooms: DashMap<ConnectionId, NameSet>,
    connections: DashMap<ConnectionId, Connection>,
}

impl View for RoomManager {
    type V = RoomsView;

    closed spec fn view(&self) -> RoomsView {
        RoomsView {
            rooms: self.room_members(),
            memberships: name_set_entries(self.connection_rooms).map_values(
                |rooms: NameSet| rooms@,
            ),
            connections: connection_entries(self.connections).map_values(
                |connection: Connection| connection@,
            ),
        }
    }
}

impl RoomManager {
    spec fn room_members(self) -> Map<Seq<char>, Set<Seq<char>>> {
        position_entries(self.rooms).map_values(|at: usize| self.store@[at as int]@.members)
    }

    /// Each room is stored once, at the position that its name stands for.
    pub closed spec fn wf(self) -> bool {
        let positions = position_entries(self.rooms);
        &&& forall|room: Seq<char>| #[trigger]
            positions.contains_key(room) ==> positions[room] < self.store@.len()
                && self.store@[positions[room] as int]@.id == room
        &&& forall|i: int|
            0 <= i < self.store@.len() ==> positions.contains_key(
                (#[trigger] self.store@[i])@.id,
            ) && positions[self.store@[i]@.id] == i
        &&& forall|connection: Seq<char>| #[trigger]
            name_set_entries(self.connection_rooms).contains_key(connection)
                ==> name_set_entries(self.connection_rooms)[connection].wf()
    }

    /// No rooms and no connections.
    pub fn new() -> (manager: RoomManager)
        ensures
            manager.wf(),
            manager@ == RoomsView::empty(),
            (manager@.rooms == Map::<Seq<char>, Set<Seq<char>>>::empty()),
            (manager@.memberships == Map::<Seq<char>, Set<Seq<char>>>::empty()),
            (manager@.connections == Map::<Seq<char>, ConnectionView>::empty()),
    {
        let manager = RoomManager {
            rooms: new_position_table(),
            store: Vec::new(),
            connection_rooms: new_name_set_table(),
            connections: new_connection_table(),
        };
        assert(manager@.rooms =~= RoomsView::empty().rooms);
        assert(manager@.memberships =~= RoomsView::empty().memberships);
        assert(manager@.connections =~= RoomsView::empty().connections);
        manager
    }

    /// Registers a connection under its name.
    pub fn register_connection(&mut self, connection: Connection)
        requires
            old(self).wf(),
        ensures
            final(self).wf(),
            final(self)@ == old(self)@.register(connection@),
    {
        let id = connection.id.clone();
        insert(&mut self.connections, id.clone(), connection);
        insert(&mut self.connection_rooms, id, NameSet::new());
        assert(self@.rooms =~= old(self)@.rooms);
        assert(self@.memberships =~= old(self)@.register(connection@).memberships);
        assert(self@.connections =~= old(self)@.register(connection@).connections);
    }

    /// The connection of this name.
    pub fn get_connection(&self, connection_id: &str) -> (connection: Option<Connection>)
        ensures
            match connection {
                Some(connection) => {
                    &&& self@.connections.contains_key(connection_id@)
                    &&& connection@ == self@.connections[connection_id@]
                },
                None => !self@.connections.contains_key(connection_id@),
            },
    {
        get(&self.connections, connection_id)
    }

    /// The room of this name, which is made if it is not there yet.
    pub fn create_room(&mut self, room_id: RoomId) -> (room: &mut Room)
        requires
            old(self).wf(),
        ensures
            room@ == (RoomView { id: room_id@, members: members_of(old(self)@.rooms, room_id@) }),
            final(room)@.id == room_id@ ==> final(self).wf(),
            final(self)@ == (RoomsView {
                rooms: old(self)@.rooms.insert(room_id@, final(room)@.members),
                ..old(self)@
            }),
    {
        let next = self.store.len();
        let at = get_or_insert(&mut self.rooms, room_id.clone(), next);
        if at == next {
            self.store.push(Room::new(room_id));
        }
        &mut self.store[at]
    }

    /// The room of this name.
    pub fn get_room(&self, room_id: &str) -> (room: Option<&Room>)
        requires
            self.wf(),
        ensures
            match room {
                Some(room) => {
                    &&& self@.rooms.contains_key(room_id@)
                    &&& room@ == (RoomView { id: room_id@, members: self@.rooms[room_id@] })
                },
                None => !self@.rooms.contains_key(room_id@),
            },
    {
        match get(&self.rooms, room_id) {
            Some(at) => Some(&self.store[at]),
            None => None,
        }
    }

    /// Takes the room of this name out. The last room in the store moves to
    /// where it stood.
    fn take_room(&mut self, room_id: &str) -> (room: Option<Room>)
        requires
            old(self).wf(),
        ensures
            final(self).wf(),
            final(self)@ == (RoomsView {
                rooms: old(self)@.rooms.remove(room_id@),
                ..old(self)@
            }),
            match room {
                Some(room) => {
                    &&& old(self)@.rooms.contains_key(room_id@)
                    &&& room@.members == old(self)@.rooms[room_id@]
                },
                None => !old(self)@.rooms.contains_key(room_id@),
            },
    {
        match remove(&mut self.rooms, room_id) {
            Some(at) => {
                let room = self.store.swap_remove(at);
                if at < self.store.len() {
                    let moved = self.store[at].name().clone();
                    insert(&mut self.rooms, moved, at);
                }
                Some(room)
            },
            None => None,
        }
    }

    /// Takes a connection out of a room, and the room away if that leaves it
    /// empty.
    fn leave_and_tidy(&mut self, connection_id: &str, room_id: &str)
        requires
            old(self).wf(),
        ensures
            final(self).wf(),
            final(self)@ == (RoomsView {
                rooms: rooms_left(old(self)@.rooms, connection_id@, set![room_id@]),
                ..old(self)@
            }),
    {
        match get(&self.rooms, room_id) {
            Some(at) => {
                self.store[at].leave(connection_id);
                if self.store[at].is_empty() {
                    self.take_room(room_id);
                }
            },
            None => {},
        }
    }

    /// Ends the membership of a connection in a room.
    fn end_membership(&mut self, connection_id: &str, room_id: &str)
        requires
            old(self).wf(),
        ensures
            final(self).wf(),
            final(self)@ == (RoomsView {
                memberships: memberships_ended(
                    old(self)@.memberships,
                    set![connection_id@],
                    room_id@,
                ),
                ..old(self)@
            }),
    {
        match remove(&mut self.connection_rooms, connection_id) {
            Some(rooms) => {
                let mut rooms = rooms;
                rooms.remove(room_id);
                insert(&mut self.connection_rooms, connection_id.to_owned(), rooms);
            },
            None => {},
        }
    }

    /// Deletes a room, and tells whether it was there.
    pub fn delete_room(&mut self, room_id: &str) -> (deleted: bool)
        requires
            old(self).wf(),
        ensures
            final(self).wf(),
            final(self)@ == old(self)@.delete_room(room_id@),
            deleted == old(self)@.rooms.contains_key(room_id@),
    {
        match self.take_room(room_id) {
            Some(room) => {
                let members = room.members();
                let ghost names = texts(members@);
                let mut at: usize = 0;
                while at < members.len()
                    invariant
                        at <= members@.len(),
                        names == texts(members@),
                        self.wf(),
                        self@.rooms == old(self)@.rooms.remove(room_id@),
                        self@.connections == old(self)@.connections,
                        self@.memberships == memberships_ended(
                            old(self)@.memberships,
                            names.take(at as int).to_set(),
                            room_id@,
                        ),
                    decreases members@.len() - at,
                {
                    self.end_membership(members[at].as_str(), room_id);
                    proof {
                        lemma_take_one_more(names, at as int);
                        lemma_end_one_more(
                            old(self)@.memberships,
                            names.take(at as int).to_set(),
                            names[at as int],
                            room_id@,
                        );
                    }
                    at = at + 1;
                }
                assert(names.take(at as int) =~= names);
                true
            },
            None => false,
        }
    }

    /// Lets a registered connection into a room, which is made if it is not
    /// there yet.
    pub fn join_room(&mut self, connection_id: &str, room_id: &str) -> (result: WebSocketResult<()>)
        requires
            old(self).wf(),
        ensures
            final(self).wf(),
            match result {
                Ok(()) => {
                    &&& old(self)@.connections.contains_key(connection_id@)
                    &&& final(self)@ == old(self)@.join_room(connection_id@, room_id@)
                },
                Err(error) => {
                    &&& !old(self)@.connections.contains_key(connection_id@)
                    &&& final(self)@ == old(self)@
                    &&& error matches WebSocketError::ConnectionNotFound(id) && id@
                        == connection_id@
                },
            },
    {
        if !contains(&self.connections, connection_id) {
            return Err(WebSocketError::ConnectionNotFound(connection_id.to_owned()));
        }
        let room = self.create_room(room_id.to_owned());
        room.join(connection_id.to_owned());
        match remove(&mut self.connection_rooms, connection_id) {
            Some(rooms) => {
                let mut rooms = rooms;
                rooms.insert(room_id.to_owned());
                insert(&mut self.connection_rooms, connection_id.to_owned(), rooms);
            },
            None => {},
        }
        Ok(())
    }

    /// Takes a connection out of a room. A room that this leaves empty is gone.
    pub fn leave_room(&mut self, connection_id: &str, room_id: &str) -> (result:
        WebSocketResult<()>)
        requires
            old(self).wf(),
        ensures
            final(self).wf(),
            final(self)@ == old(self)@.leave_room(connection_id@, room_id@),
            result is Ok,
    {
        self.leave_and_tidy(connection_id, room_id);
        self.end_membership(connection_id, room_id);
        Ok(())
    }

    /// Takes a connection out of every room that it is in, and of those on its
    /// record. One of these that is empty then is gone.
    fn leave_all_rooms(&mut self, connection_id: &str, record: &NameSet)
        requires
            old(self).wf(),
        ensures
            final(self).wf(),
            final(self)@ == (RoomsView {
                rooms: rooms_left(
                    old(self)@.rooms,
                    connection_id@,
                    rooms_of(old(self)@.rooms, connection_id@).union(record@),
                ),
                ..old(self)@
            }),
    {
        let room_ids = keys(&self.rooms);
        let ghost names = texts(room_ids@);
        let ghost before = self@.rooms;
        let ghost own = rooms_of(before, connection_id@).union(record@);
        assert(names.to_set() =~= before.dom());
        assert(names.take(0).to_set().intersect(own) =~= Set::<Seq<char>>::empty());
        assert(rooms_left(before, connection_id@, Set::empty()) =~= before);
        let mut at: usize = 0;
        while at < room_ids.len()
            invariant
                at <= room_ids@.len(),
                names == texts(room_ids@),
                names.no_duplicates(),
                names.to_set() == before.dom(),
                before == old(self)@.rooms,
                own == rooms_of(before, connection_id@).union(record@),
                self.wf(),
                self@.memberships == old(self)@.memberships,
                self@.connections == old(self)@.connections,
                self@.rooms == rooms_left(
                    before,
                    connection_id@,
                    names.take(at as int).to_set().intersect(own),
                ),
            decreases room_ids@.len() - at,
        {
            let ghost left = names.take(at as int).to_set().intersect(own);
            let ghost name = names[at as int];
            proof {
                lemma_take_one_more(names, at as int);
                assert(names.to_set().contains(name));
                assert(!names.take(at as int).contains(name));
            }
            let is_own = record.contains(room_ids[at].as_str()) || match self.get_room(
                room_ids[at].as_str(),
            ) {
                Some(room) => room.contains(connection_id),
                None => false,
            };
            assert(is_own == own.contains(name));
            if is_own {
                self.leave_and_tidy(connection_id, room_ids[at].as_str());
                proof {
                    lemma_leave_one_more(before, connection_id@, left, name);
                    assert(names.take(at + 1).to_set().intersect(own) =~= left.insert(name));
                }
            } else {
                assert(names.take(at + 1).to_set().intersect(own) =~= left);
            }
            at = at + 1;
        }
        assert(names.take(at as int) =~= names);
        assert(rooms_left(before, connection_id@, before.dom().intersect(own)) =~= rooms_left(
            before,
            connection_id@,
            own,
        ));
    }

    /// Forgets a connection, which leaves every room that it is in. A room that
    /// this leaves empty is gone, and so is an empty one on its record.
    pub fn unregister_connection(&mut self, connection_id: &str)
        requires
            old(self).wf(),
        ensures
            final(self).wf(),
            final(self)@ == old(self)@.unregister(connection_id@),
            forall|room: Seq<char>| !(#[trigger] members_of(final(self)@.rooms, room)).contains(
                connection_id@,
            ),
    {
        let record = match remove(&mut self.connection_rooms, connection_id) {
            Some(record) => record,
            None => NameSet::new(),
        };
        self.leave_all_rooms(connection_id, &record);
        remove(&mut self.connections, connection_id);
    }

    /// The names of all rooms, each of them once, in no particular order.
    pub fn room_ids(&self) -> (ids: Vec<RoomId>)
        ensures
            texts(ids@).no_duplicates(),
            texts(ids@).to_set() == self@.rooms.dom(),
            lists(ids@, self@.rooms.dom()),
    {
        let ids = keys(&self.rooms);
        proof {
            assert(texts(ids@).to_set() =~= self@.rooms.dom());
            lemma_lists(ids@, self@.rooms.dom());
        }
        ids
    }

    /// The names of all connections, each of them once, in no particular order.
    pub fn connection_ids(&self) -> (ids: Vec<ConnectionId>)
        ensures
            texts(ids@).no_duplicates(),
            texts(ids@).to_set() == self@.connections.dom(),
            lists(ids@, self@.connections.dom()),
    {
        let ids = keys(&self.connections);
        proof {
            assert(texts(ids@).to_set() =~= self@.connections.dom());
            lemma_lists(ids@, self@.connections.dom());
        }
        ids
    }

    /// How many connections are registered.
    pub fn connection_count(&self) -> (count: usize)
        ensures
            has_size(self@.connections.dom(), count as nat),
            self@.connections.dom().finite(),
            count == self@.connections.dom().len(),
    {
        assert(self@.connections.dom() =~= connection_entries(self.connections).dom());
        len(&self.connections)
    }

    /// How many rooms there are.
    pub fn room_count(&self) -> (count: usize)
        ensures
            has_size(self@.rooms.dom(), count as nat),
            self@.rooms.dom().finite(),
            count == self@.rooms.dom().len(),
    {
        assert(self@.rooms.dom() =~= position_entries(self.rooms).dom());
        len(&self.rooms)
    }
}

impl Default for RoomManager {
    fn default() -> (manager: RoomManager)
        ensures
            manager.wf(),
            manager@ == RoomsView::empty(),
    {
        RoomManager::new()
    }
}

/// The elements of one more step of a sequence.
proof fn lemma_take_one_more(names: Seq<Seq<char>>, at: int)
    requires
        0 <= at < names.len(),
    ensures
        names.take(at + 1).to_set() == names.take(at).to_set().insert(names[at]),
{
    assert(names.take(at + 1) =~= names.take(at).push(names[at]));
    broadcast use vstd::seq_lib::group_seq_properties;
    assert(names.take(at + 1).to_set() =~= names.take(at).to_set().insert(names[at]));
}

/// Leaving one more room.
proof fn lemma_leave_one_more(
    rooms: Map<Seq<char>, Set<Seq<char>>>,
    connection: Seq<char>,
    left: Set<Seq<char>>,
    room: Seq<char>,
)
    ensures
        rooms_left(rooms_left(rooms, connection, left), connection, set![room]) == rooms_left(
            rooms,
            connection,
            left.insert(room),
        ),
{
    assert(rooms[room].remove(connection).remove(connection) =~= rooms[room].remove(connection));
    assert(rooms_left(rooms_left(rooms, connection, left), connection, set![room])
        =~= rooms_left(rooms, connection, left.insert(room)));
}

/// Ending the membership of one more connection.
proof fn lemma_end_one_more(
    memberships: Map<Seq<char>, Set<Seq<char>>>,
    connections: Set<Seq<char>>,
    connection: Seq<char>,
    room: Seq<char>,
)
    ensures
        memberships_ended(
            memberships_ended(memberships, connections, room),
            set![connection],
            room,
        ) == memberships_ended(memberships, connections.insert(connection), room),
{
    assert(memberships[connection].remove(room).remove(room)
        =~= memberships[connection].remove(room));
    assert(memberships_ended(
        memberships_ended(memberships, connections, room),
        set![connection],
        room,
    ) =~= memberships_ended(memberships, connections.insert(connection), room));
}

} // verus!
