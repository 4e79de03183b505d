//! What holds of rooms whatever is done to them.

use crate::connection::ConnectionView;
use crate::manager::{members_of, memberships_ended, rooms_left, rooms_of, RoomsView};
use vstd::prelude::*;

verus! {

impl RoomsView {
    /// Every membership on record is real: the room is there, and the
    /// connection is in it. Connections and their records go together.
    pub open spec fn sound(self) -> bool {
        &&& self.connections.dom() =~= self.memberships.dom()
        &&& forall|connection: Seq<char>| #[trigger]
            self.connections.contains_key(connection) ==> self.connections[connection].id
                == connection
        &&& forall|connection: Seq<char>, room: Seq<char>| #[trigger]
            members_of(self.memberships, connection).contains(room) ==> members_of(
                self.rooms,
                room,
            ).contains(connection)
    }

    /// The records are sound, and nobody is in a room without being on record.
    pub open spec fn consistent(self) -> bool {
        &&& self.sound()
        &&& forall|connection: Seq<char>, room: Seq<char>| #[trigger]
            members_of(self.rooms, room).contains(connection) ==> members_of(
                self.memberships,
                connection,
            ).contains(room)
    }
}

/// Who is in which room after a connection has left some.
proof fn lemma_members_after_leaving(
    rooms: Map<Seq<char>, Set<Seq<char>>>,
    leaver: Seq<char>,
    left: Set<Seq<char>>,
    room: Seq<char>,
    member: Seq<char>,
)
    ensures
        members_of(rooms_left(rooms, leaver, left), room).contains(member) == (members_of(
            rooms,
            room,
        ).contains(member) && !(member == leaver && left.contains(room))),
{
    if rooms.contains_key(room) && left.contains(room) && member != leaver {
        assert(rooms[room].remove(leaver).contains(member) == rooms[room].contains(member));
    }
}

/// Who is on record for which room after some memberships have ended.
proof fn lemma_record_after_ending(
    memberships: Map<Seq<char>, Set<Seq<char>>>,
    connections: Set<Seq<char>>,
    ended: Seq<char>,
    connection: Seq<char>,
    room: Seq<char>,
)
    ensures
        members_of(memberships_ended(memberships, connections, ended), connection).contains(room)
            == (members_of(memberships, connection).contains(room) && !(room == ended
            && connections.contains(connection))),
{
}

/// Forgetting a connection keeps the records sound.
proof fn lemma_unregister_sound(rooms: RoomsView, leaver: Seq<char>)
    requires
        rooms.sound(),
    ensures
        rooms.unregister(leaver).sound(),
{
    let after = rooms.unregister(leaver);
    assert forall|connection: Seq<char>, room: Seq<char>| #[trigger]
        members_of(after.memberships, connection).contains(room) implies members_of(
        after.rooms,
        room,
    ).contains(connection) by {
        lemma_members_after_leaving(
            rooms.rooms,
            leaver,
            rooms_of(rooms.rooms, leaver).union(members_of(rooms.memberships, leaver)),
            room,
            connection,
        );
        assert(members_of(rooms.memberships, connection).contains(room));
    }
}

/// Leaving a room keeps the records sound.
proof fn lemma_leave_sound(rooms: RoomsView, leaver: Seq<char>, left: Seq<char>)
    requires
        rooms.sound(),
    ensures
        rooms.leave_room(leaver, left).sound(),
{
    let after = rooms.leave_room(leaver, left);
    assert forall|connection: Seq<char>, room: Seq<char>| #[trigger]
        members_of(after.memberships, connection).contains(room) implies members_of(
        after.rooms,
        room,
    ).contains(connection) by {
        lemma_members_after_leaving(rooms.rooms, leaver, set![left], room, connection);
        lemma_record_after_ending(rooms.memberships, set![leaver], left, connection, room);
        assert(members_of(rooms.memberships, connection).contains(room));
    }
}

/// Deleting a room keeps the records sound.
proof fn lemma_delete_sound(rooms: RoomsView, deleted: Seq<char>)
    requires
        rooms.sound(),
    ensures
        rooms.delete_room(deleted).sound(),
{
    let after = rooms.delete_room(deleted);
    assert forall|connection: Seq<char>, room: Seq<char>| #[trigger]
        members_of(after.memberships, connection).contains(room) implies members_of(
        after.rooms,
        room,
    ).contains(connection) by {
        lemma_record_after_ending(
            rooms.memberships,
            members_of(rooms.rooms, deleted),
            deleted,
            connection,
            room,
        );
        assert(members_of(rooms.memberships, connection).contains(room));
        assert(members_of(rooms.rooms, room).contains(connection));
    }
}

/// Joining a room keeps the records sound.
proof fn lemma_join_sound(rooms: RoomsView, joiner: Seq<char>, joined: Seq<char>)
    requires
        rooms.sound(),
        rooms.connections.contains_key(joiner),
    ensures
        rooms.join_room(joiner, joined).sound(),
{
    let after = rooms.join_room(joiner, joined);
    assert forall|connection: Seq<char>, room: Seq<char>| #[trigger]
        members_of(after.memberships, connection).contains(room) implies members_of(
        after.rooms,
        room,
    ).contains(connection) by {
        if !(connection == joiner && room == joined) {
            assert(members_of(rooms.memberships, connection).contains(room));
            assert(members_of(rooms.rooms, room).contains(connection));
        }
    }
    assert(rooms.memberships.contains_key(joiner));
}

/// Registering a connection and making a room keep the records sound.
proof fn lemma_register_and_create_sound(
    rooms: RoomsView,
    newcomer: ConnectionView,
    created: Seq<char>,
)
    requires
        rooms.sound(),
    ensures
        rooms.register(newcomer).sound(),
        rooms.create_room(created).sound(),
{
    let registered = rooms.register(newcomer);
    assert forall|connection: Seq<char>, room: Seq<char>| #[trigger]
        members_of(registered.memberships, connection).contains(room) implies members_of(
        registered.rooms,
        room,
    ).contains(connection) by {
        assert(members_of(rooms.memberships, connection).contains(room));
    }
    let with_room = rooms.create_room(created);
    assert forall|connection: Seq<char>, room: Seq<char>| #[trigger]
        members_of(with_room.memberships, connection).contains(room) implies members_of(
        with_room.rooms,
        room,
    ).contains(connection) by {
        assert(members_of(rooms.rooms, room).contains(connection));
    }
}

/// Every operation keeps the records sound.
pub proof fn operations_keep_rooms_sound(
    rooms: RoomsView,
    newcomer: ConnectionView,
    connection: Seq<char>,
    room: Seq<char>,
)
    requires
        rooms.sound(),
    ensures
        RoomsView::empty().sound(),
        rooms.register(newcomer).sound(),
        rooms.unregister(connection).sound(),
        rooms.create_room(room).sound(),
        rooms.delete_room(room).sound(),
        rooms.connections.contains_key(connection) ==> rooms.join_room(connection, room).sound(),
        rooms.leave_room(connection, room).sound(),
{
    lemma_register_and_create_sound(rooms, newcomer, room);
    lemma_unregister_sound(rooms, connection);
    lemma_delete_sound(rooms, room);
    lemma_leave_sound(rooms, connection, room);
    if rooms.connections.contains_key(connection) {
        lemma_join_sound(rooms, connection, room);
    }
}

/// Every operation keeps rooms and records consistent, as long as no name is
/// registered while it is taken.
pub proof fn operations_keep_rooms_consistent(
    rooms: RoomsView,
    newcomer: ConnectionView,
    connection: Seq<char>,
    room: Seq<char>,
)
    requires
        rooms.consistent(),
    ensures
        RoomsView::empty().consistent(),
        !rooms.connections.contains_key(newcomer.id) ==> rooms.register(newcomer).consistent(),
        rooms.unregister(connection).consistent(),
        rooms.create_room(room).consistent(),
        rooms.delete_room(room).consistent(),
        rooms.connections.contains_key(connection) ==> rooms.join_room(
            connection,
            room,
        ).consistent(),
        rooms.leave_room(connection, room).consistent(),
{
    operations_keep_rooms_sound(rooms, newcomer, connection, room);
    assert forall|other: Seq<char>, place: Seq<char>| #[trigger]
        members_of(rooms.unregister(connection).rooms, place).contains(other) implies members_of(
        rooms.unregister(connection).memberships,
        other,
    ).contains(place) by {
        lemma_members_after_leaving(
            rooms.rooms,
            connection,
            rooms_of(rooms.rooms, connection).union(members_of(rooms.memberships, connection)),
            place,
            other,
        );
        assert(members_of(rooms.rooms, place).contains(other));
    }
    assert forall|other: Seq<char>, place: Seq<char>| #[trigger]
        members_of(rooms.leave_room(connection, room).rooms, place).contains(
            other,
        ) implies members_of(
        rooms.leave_room(connection, room).memberships,
        other,
    ).contains(place) by {
        lemma_members_after_leaving(rooms.rooms, connection, set![room], place, other);
        lemma_record_after_ending(rooms.memberships, set![connection], room, other, place);
        assert(members_of(rooms.rooms, place).contains(other));
    }
    assert forall|other: Seq<char>, place: Seq<char>| #[trigger]
        members_of(rooms.delete_room(room).rooms, place).contains(other) implies members_of(
        rooms.delete_room(room).memberships,
        other,
    ).contains(place) by {
        lemma_record_after_ending(
            rooms.memberships,
            members_of(rooms.rooms, room),
            room,
            other,
            place,
        );
        assert(members_of(rooms.rooms, place).contains(other));
    }
    assert forall|other: Seq<char>, place: Seq<char>| #[trigger]
        members_of(rooms.create_room(room).rooms, place).contains(other) implies members_of(
        rooms.create_room(room).memberships,
        other,
    ).contains(place) by {
        assert(members_of(rooms.rooms, place).contains(other));
    }
    if rooms.connections.contains_key(connection) {
        let joined = rooms.join_room(connection, room);
        assert forall|other: Seq<char>, place: Seq<char>| #[trigger]
            members_of(joined.rooms, place).contains(other) implies members_of(
            joined.memberships,
            other,
        ).contains(place) by {
            assert(rooms.memberships.contains_key(connection));
            if !(other == connection && place == room) {
                assert(members_of(rooms.rooms, place).contains(other));
            }
        }
    }
    if !rooms.connections.contains_key(newcomer.id) {
        let registered = rooms.register(newcomer);
        assert forall|other: Seq<char>, place: Seq<char>| #[trigger]
            members_of(registered.rooms, place).contains(other) implies members_of(
            registered.memberships,
            other,
        ).contains(place) by {
            assert(members_of(rooms.rooms, place).contains(other));
            assert(!rooms.memberships.contains_key(newcomer.id));
        }
    }
}

/// A room lasts as long as somebody other than the leaver is in it, and is
/// gone once its last member has left.
pub proof fn room_lasts_while_it_has_members(
    rooms: RoomsView,
    connection: Seq<char>,
    room: Seq<char>,
)
    ensures
        rooms.leave_room(connection, room).rooms.contains_key(room) <==> exists|other: Seq<char>|
            other != connection && #[trigger] members_of(rooms.rooms, room).contains(other),
        members_of(rooms.leave_room(connection, room).rooms, room) == members_of(
            rooms.rooms,
            room,
        ).remove(connection),
{
    let after = rooms.leave_room(connection, room).rooms;
    if rooms.rooms.contains_key(room) {
        let rest = rooms.rooms[room].remove(connection);
        if rest != Set::<Seq<char>>::empty() {
            assert(!(rest =~= Set::<Seq<char>>::empty()));
            let other = choose|other: Seq<char>| rest.contains(other);
            assert(members_of(rooms.rooms, room).contains(other));
        } else {
            assert forall|other: Seq<char>|
                other != connection implies !(#[trigger] members_of(rooms.rooms, room).contains(
                other,
            )) by {
                assert(!rest.contains(other));
            }
        }
    }
    assert(members_of(after, room) =~= members_of(rooms.rooms, room).remove(connection));
}

/// Leaving one room changes no other.
pub proof fn leaving_touches_no_other_room(
    rooms: RoomsView,
    connection: Seq<char>,
    room: Seq<char>,
    other: Seq<char>,
)
    requires
        other != room,
    ensures
        rooms.leave_room(connection, room).rooms.contains_key(other)
            == rooms.rooms.contains_key(other),
        members_of(rooms.leave_room(connection, room).rooms, other) == members_of(
            rooms.rooms,
            other,
        ),
{
}

/// A connection that has been forgotten is in no room and on no record, however
/// it came into the rooms. A room is gone just when it was the last member
/// there, or when it was on record for a room that stood empty.
pub proof fn forgotten_connection_is_nowhere(
    rooms: RoomsView,
    connection: Seq<char>,
    room: Seq<char>,
)
    ensures
        !rooms.unregister(connection).connections.contains_key(connection),
        !rooms.unregister(connection).memberships.contains_key(connection),
        !members_of(rooms.unregister(connection).rooms, room).contains(connection),
        members_of(rooms.unregister(connection).rooms, room) == members_of(
            rooms.rooms,
            room,
        ).remove(connection),
        rooms.unregister(connection).rooms.contains_key(room) <==> {
            &&& rooms.rooms.contains_key(room)
            &&& rooms.rooms[room] != set![connection]
            &&& !(rooms.rooms[room] == Set::<Seq<char>>::empty() && members_of(
                rooms.memberships,
                connection,
            ).contains(room))
        },
{
    let left = rooms_of(rooms.rooms, connection).union(members_of(rooms.memberships, connection));
    let after = rooms.unregister(connection).rooms;
    assert forall|member: Seq<char>|
        members_of(after, room).contains(member) == #[trigger] members_of(
            rooms.rooms,
            room,
        ).remove(connection).contains(member) by {
        lemma_members_after_leaving(rooms.rooms, connection, left, room, member);
    }
    assert(members_of(after, room) =~= members_of(rooms.rooms, room).remove(connection));
    if rooms.rooms.contains_key(room) {
        let members = rooms.rooms[room];
        if left.contains(room) && members.remove(connection) == Set::<Seq<char>>::empty() {
            assert forall|member: Seq<char>| members.contains(member) implies member
                == connection by {
                assert(member != connection ==> members.remove(connection).contains(member));
            }
            if members.contains(connection) {
                assert(members =~= set![connection]);
            } else {
                assert(members =~= Set::<Seq<char>>::empty());
            }
        }
        if members == Set::<Seq<char>>::empty() {
            assert(members.remove(connection) =~= members);
        }
        if members == set![connection] {
            assert(members_of(rooms.rooms, room).contains(connection));
            assert(members.remove(connection) =~= Set::<Seq<char>>::empty());
        }
    }
}

/// Leaving undoes joining, for a connection that was not in the room. A room
/// that stood empty before would be gone after.
pub proof fn leaving_undoes_joining(rooms: RoomsView, connection: Seq<char>, room: Seq<char>)
    requires
        rooms.consistent(),
        rooms.connections.contains_key(connection),
        !members_of(rooms.rooms, room).contains(connection),
        rooms.rooms.contains_key(room) ==> rooms.rooms[room] != Set::<Seq<char>>::empty(),
    ensures
        rooms.join_room(connection, room).leave_room(connection, room) == rooms,
{
    let after = rooms.join_room(connection, room).leave_room(connection, room);
    assert(members_of(rooms.rooms, room).insert(connection).remove(connection) =~= members_of(
        rooms.rooms,
        room,
    ));
    assert(after.rooms =~= rooms.rooms);
    assert(rooms.memberships.contains_key(connection));
    assert(!rooms.memberships[connection].contains(room)) by {
        assert(members_of(rooms.memberships, connection).contains(room) ==> members_of(
            rooms.rooms,
            room,
        ).contains(connection));
    }
    assert(rooms.memberships[connection].insert(room).remove(room)
        =~= rooms.memberships[connection]);
    assert(after.memberships =~= rooms.memberships);
}

/// Joining one room changes no other.
pub proof fn joining_touches_no_other_room(
    rooms: RoomsView,
    connection: Seq<char>,
    room: Seq<char>,
    other: Seq<char>,
)
    requires
        other != room,
    ensures
        rooms.join_room(connection, room).rooms.contains_key(other) == rooms.rooms.contains_key(
            other,
        ),
        members_of(rooms.join_room(connection, room).rooms, other) == members_of(
            rooms.rooms,
            other,
        ),
{
}

/// Joining a room again changes nothing.
pub proof fn joining_twice_is_joining_once(
    rooms: RoomsView,
    connection: Seq<char>,
    room: Seq<char>,
)
    ensures
        rooms.join_room(connection, room).join_room(connection, room) == rooms.join_room(
            connection,
            room,
        ),
{
    let once = rooms.join_room(connection, room);
    let twice = once.join_room(connection, room);
    assert(twice.rooms[room] =~= once.rooms[room]);
    assert(twice.rooms =~= once.rooms);
    if rooms.memberships.contains_key(connection) {
        assert(twice.memberships[connection] =~= once.memberships[connection]);
    }
    assert(twice.memberships =~= once.memberships);
}

/// Forgetting a connection undoes registering it under a free name, which no
/// room holds either.
pub proof fn unregistering_undoes_registering(rooms: RoomsView, newcomer: ConnectionView)
    requires
        rooms.sound(),
        !rooms.connections.contains_key(newcomer.id),
        forall|room: Seq<char>| !(#[trigger] members_of(rooms.rooms, room)).contains(newcomer.id),
    ensures
        rooms.register(newcomer).unregister(newcomer.id) == rooms,
{
    let after = rooms.register(newcomer).unregister(newcomer.id);
    assert(!rooms.memberships.contains_key(newcomer.id));
    assert(rooms_of(rooms.rooms, newcomer.id).union(Set::<Seq<char>>::empty()) =~= Set::<
        Seq<char>,
    >::empty());
    assert(after.rooms =~= rooms.rooms);
    assert(after.memberships =~= rooms.memberships);
    assert(after.connections =~= rooms.connections);
}

/// A room that has been deleted is on nobody's record, and no other room has
/// changed.
pub proof fn deleted_room_is_forgotten(
    rooms: RoomsView,
    room: Seq<char>,
    other: Seq<char>,
    connection: Seq<char>,
)
    requires
        rooms.sound(),
        other != room,
    ensures
        !rooms.delete_room(room).rooms.contains_key(room),
        !members_of(rooms.delete_room(room).memberships, connection).contains(room),
        members_of(rooms.delete_room(room).rooms, other) == members_of(rooms.rooms, other),
        members_of(rooms.delete_room(room).memberships, connection).contains(other)
            == members_of(rooms.memberships, connection).contains(other),
{
    lemma_record_after_ending(
        rooms.memberships,
        members_of(rooms.rooms, room),
        room,
        connection,
        room,
    );
    lemma_record_after_ending(
        rooms.memberships,
        members_of(rooms.rooms, room),
        room,
        connection,
        other,
    );
    assert(members_of(rooms.memberships, connection).contains(room) ==> members_of(
        rooms.rooms,
        room,
    ).contains(connection));
}

/// Making a room that is there already changes nothing.
pub proof fn existing_room_is_not_made_again(rooms: RoomsView, room: Seq<char>)
    requires
        rooms.rooms.contains_key(room),
    ensures
        rooms.create_room(room) == rooms,
{
    assert(rooms.create_room(room).rooms =~= rooms.rooms);
}

/// Deleting a room undoes making it.
pub proof fn deleting_undoes_creating(rooms: RoomsView, room: Seq<char>)
    requires
        !rooms.rooms.contains_key(room),
    ensures
        rooms.create_room(room).delete_room(room) == rooms,
{
    let after = rooms.create_room(room).delete_room(room);
    assert(after.rooms =~= rooms.rooms);
    assert(after.memberships =~= rooms.memberships);
}

/// Registering a connection puts it under its name, in no room on record, and
/// changes no room and no other connection.
pub proof fn registering_adds_one_connection(
    rooms: RoomsView,
    newcomer: ConnectionView,
    name: Seq<char>,
)
    ensures
        rooms.register(newcomer).rooms == rooms.rooms,
        rooms.register(newcomer).connections.contains_key(newcomer.id),
        rooms.register(newcomer).connections[newcomer.id] == newcomer,
        rooms.register(newcomer).memberships.contains_key(newcomer.id),
        rooms.register(newcomer).memberships[newcomer.id] == Set::<Seq<char>>::empty(),
        name != newcomer.id ==> {
            &&& rooms.register(newcomer).connections.contains_key(name)
                == rooms.connections.contains_key(name)
            &&& rooms.register(newcomer).connections[name] == rooms.connections[name]
            &&& rooms.register(newcomer).memberships.contains_key(name)
                == rooms.memberships.contains_key(name)
            &&& rooms.register(newcomer).memberships[name] == rooms.memberships[name]
        },
{
}

/// Forgetting a connection takes it, and only it, from the connections, from
/// their records and from every room. A room is gone just when the connection
/// was in it or on record for it, and nobody else is in it.
pub proof fn unregistering_removes_one_connection(
    rooms: RoomsView,
    connection: Seq<char>,
    name: Seq<char>,
    room: Seq<char>,
)
    ensures
        !rooms.unregister(connection).connections.contains_key(connection),
        !rooms.unregister(connection).memberships.contains_key(connection),
        name != connection ==> {
            &&& rooms.unregister(connection).connections.contains_key(name)
                == rooms.connections.contains_key(name)
            &&& rooms.unregister(connection).connections[name] == rooms.connections[name]
            &&& rooms.unregister(connection).memberships.contains_key(name)
                == rooms.memberships.contains_key(name)
            &&& rooms.unregister(connection).memberships[name] == rooms.memberships[name]
        },
        rooms.unregister(connection).rooms.contains_key(room) ==> {
            &&& rooms.rooms.contains_key(room)
            &&& rooms.unregister(connection).rooms[room].contains(name) <==> (
            rooms.rooms[room].contains(name) && name != connection)
        },
        rooms.rooms.contains_key(room) && rooms.rooms[room].contains(name) && name != connection
            ==> rooms.unregister(connection).rooms.contains_key(room),
        rooms.rooms.contains_key(room) && !rooms.rooms[room].contains(connection) && !(
        rooms.memberships.contains_key(connection) && rooms.memberships[connection].contains(room))
            ==> rooms.unregister(connection).rooms.contains_key(room),
        rooms.rooms.contains_key(room) && rooms.rooms[room] == set![connection]
            ==> !rooms.unregister(connection).rooms.contains_key(room),
        rooms.rooms.contains_key(room) && rooms.rooms[room] == Set::<Seq<char>>::empty()
            && rooms.memberships.contains_key(connection) && rooms.memberships[connection].contains(
            room,
        ) ==> !rooms.unregister(connection).rooms.contains_key(room),
{
    forgotten_connection_is_nowhere(rooms, connection, room);
    lemma_members_after_leaving(
        rooms.rooms,
        connection,
        rooms_of(rooms.rooms, connection).union(members_of(rooms.memberships, connection)),
        room,
        name,
    );
}

/// Making a room makes it, empty if it was not there, and changes no other room,
/// no record and no connection.
pub proof fn creating_adds_one_room(rooms: RoomsView, room: Seq<char>, other: Seq<char>)
    ensures
        rooms.create_room(room).connections == rooms.connections,
        rooms.create_room(room).memberships == rooms.memberships,
        rooms.create_room(room).rooms.contains_key(room),
        !rooms.rooms.contains_key(room) ==> rooms.create_room(room).rooms[room] == Set::<
            Seq<char>,
        >::empty(),
        rooms.rooms.contains_key(room) ==> rooms.create_room(room).rooms[room] == rooms.rooms[room],
        other != room ==> {
            &&& rooms.create_room(room).rooms.contains_key(other) == rooms.rooms.contains_key(
                other,
            )
            &&& rooms.create_room(room).rooms[other] == rooms.rooms[other]
        },
{
}

/// Deleting a room takes that room, and only it, away. Every connection stays
/// registered and keeps its record, from which at most that room is gone: it is,
/// for the members of the room.
pub proof fn deleting_removes_one_room(
    rooms: RoomsView,
    room: Seq<char>,
    other: Seq<char>,
    name: Seq<char>,
)
    ensures
        rooms.delete_room(room).connections == rooms.connections,
        rooms.delete_room(room).memberships.dom() == rooms.memberships.dom(),
        !rooms.delete_room(room).rooms.contains_key(room),
        other != room ==> {
            &&& rooms.delete_room(room).rooms.contains_key(other) == rooms.rooms.contains_key(
                other,
            )
            &&& rooms.delete_room(room).rooms[other] == rooms.rooms[other]
            &&& rooms.memberships.contains_key(name) ==> (rooms.delete_room(
                room,
            ).memberships[name].contains(other) <==> rooms.memberships[name].contains(other))
        },
        rooms.memberships.contains_key(name) ==> (rooms.delete_room(
            room,
        ).memberships[name].contains(room) <==> rooms.memberships[name].contains(room) && !(
        rooms.rooms.contains_key(room) && rooms.rooms[room].contains(name))),
{
    assert(rooms.delete_room(room).memberships.dom() =~= rooms.memberships.dom());
}

/// Joining a room puts the one connection in the one room, and on its record,
/// and changes nobody else's place and no other room.
pub proof fn joining_adds_one_member(
    rooms: RoomsView,
    connection: Seq<char>,
    room: Seq<char>,
    other: Seq<char>,
    name: Seq<char>,
)
    ensures
        rooms.join_room(connection, room).connections == rooms.connections,
        rooms.join_room(connection, room).memberships.dom() == rooms.memberships.dom(),
        rooms.join_room(connection, room).rooms.contains_key(room),
        rooms.join_room(connection, room).rooms[room].contains(connection),
        name != connection ==> (rooms.join_room(connection, room).rooms[room].contains(name)
            <==> rooms.rooms.contains_key(room) && rooms.rooms[room].contains(name)),
        other != room ==> {
            &&& rooms.join_room(connection, room).rooms.contains_key(other)
                == rooms.rooms.contains_key(other)
            &&& rooms.join_room(connection, room).rooms[other] == rooms.rooms[other]
        },
        rooms.memberships.contains_key(connection) ==> {
            &&& rooms.join_room(connection, room).memberships[connection].contains(room)
            &&& other != room ==> (rooms.join_room(
                connection,
                room,
            ).memberships[connection].contains(other) <==> rooms.memberships[connection].contains(
                other,
            ))
        },
        name != connection ==> rooms.join_room(connection, room).memberships[name]
            == rooms.memberships[name],
{
    assert(rooms.join_room(connection, room).memberships.dom() =~= rooms.memberships.dom());
}

/// Leaving a room takes the one connection out of the one room, and off its
/// record. Nobody else's place changes, and no connection is forgotten. The room
/// is gone just when nobody is left in it.
pub proof fn leaving_removes_one_member(
    rooms: RoomsView,
    connection: Seq<char>,
    room: Seq<char>,
    other: Seq<char>,
    name: Seq<char>,
)
    ensures
        rooms.leave_room(connection, room).connections == rooms.connections,
        rooms.leave_room(connection, room).memberships.dom() == rooms.memberships.dom(),
        rooms.leave_room(connection, room).rooms.contains_key(room) ==> {
            &&& rooms.rooms.contains_key(room)
            &&& rooms.leave_room(connection, room).rooms[room].contains(name) <==> (
            rooms.rooms[room].contains(name) && name != connection)
            &&& rooms.leave_room(connection, room).rooms[room] != Set::<Seq<char>>::empty()
        },
        rooms.rooms.contains_key(room) && rooms.rooms[room].contains(name) && name != connection
            ==> rooms.leave_room(connection, room).rooms.contains_key(room),
        other != room ==> {
            &&& rooms.leave_room(connection, room).rooms.contains_key(other)
                == rooms.rooms.contains_key(other)
            &&& rooms.rooms.contains_key(other) ==> rooms.leave_room(connection, room).rooms[other]
                == rooms.rooms[other]
        },
        rooms.memberships.contains_key(name) ==> (rooms.leave_room(
            connection,
            room,
        ).memberships[name].contains(other) <==> rooms.memberships[name].contains(other) && !(name
            == connection && other == room)),
{
    assert(rooms.leave_room(connection, room).memberships.dom() =~= rooms.memberships.dom());
    lemma_members_after_leaving(rooms.rooms, connection, set![room], room, name);
    lemma_record_after_ending(rooms.memberships, set![connection], room, name, other);
    if rooms.rooms.contains_key(room) && rooms.rooms[room].contains(name) && name != connection {
        assert(rooms.rooms[room].remove(connection).contains(name));
    }
}

} // verus!
