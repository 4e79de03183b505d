//! Rooms, and who is in them.

use crate::connection::ConnectionId;
use crate::names::{has_size, lemma_lists, lists, texts};
use crate::tables::{contains, insert, is_empty, keys, len, name_entries, new_name_table, remove};
use dashmap::DashMap;
use vstd::prelude::*;

verus! {

/// The name of a room.
pub type RoomId = String;

/// A group of connections.
#[derive(Debug)]
pub struct Room {
    /// The name of the room.
    pub id: RoomId,
    members: DashMap<ConnectionId, ()>,
}

/// A room as a value: its name, and the names of its members.
#[verifier::ext_equal]
pub struct RoomView {
    pub id: Seq<char>,
    pub members: Set<Seq<char>>,
}

impl View for Room {
    type V = RoomView;

    closed spec fn view(&self) -> RoomView {
        RoomView { id: self.id@, members: name_entries(self.members).dom() }
    }
}

/// The function has been called with this name.
pub open spec fn visited<F: FnMut(&str)>(visit: F, name: Seq<char>) -> bool {
    exists|member: &str| member@ == name && #[trigger] call_ensures(visit, (member,), ())
}

impl Room {
    /// A room with no members.
    pub fn new(id: RoomId) -> (room: Room)
        ensures
            room@.id == id@,
            room@.members == Set::<Seq<char>>::empty(),
    {
        let room = Room { id, members: new_name_table() };
        assert(room@.members =~= Set::<Seq<char>>::empty());
        room
    }

    /// The name of the room.
    pub(crate) fn name(&self) -> (name: &RoomId)
        ensures
            name@ == self@.id,
    {
        &self.id
    }

    /// Lets a connection in.
    pub fn join(&mut self, connection_id: ConnectionId)
        ensures
            final(self)@.id == old(self)@.id,
            final(self)@.members == old(self)@.members.insert(connection_id@),
    {
        let ghost joined = connection_id@;
        insert(&mut self.members, connection_id, ());
        assert(self@.members =~= old(self)@.members.insert(joined));
    }

    /// Takes a connection out, and tells whether it was in.
    pub fn leave(&mut self, connection_id: &str) -> (was_member: bool)
        ensures
            final(self)@.id == old(self)@.id,
            final(self)@.members == old(self)@.members.remove(connection_id@),
            was_member == old(self)@.members.contains(connection_id@),
    {
        let removed = remove(&mut self.members, connection_id);
        assert(self@.members =~= old(self)@.members.remove(connection_id@));
        removed.is_some()
    }

    /// Whether a connection is in the room.
    pub fn contains(&self, connection_id: &str) -> (yes: bool)
        ensures
            yes == self@.members.contains(connection_id@),
    {
        contains(&self.members, connection_id)
    }

    /// How many connections are in the room.
    pub fn len(&self) -> (count: usize)
        ensures
            has_size(self@.members, count as nat),
            self@.members.finite(),
            count == self@.members.len(),
    {
        len(&self.members)
    }

    /// Whether nobody is in the room.
    pub fn is_empty(&self) -> (yes: bool)
        ensures
            yes == (self@.members == Set::<Seq<char>>::empty()),
            yes <==> forall|name: Seq<char>| !(#[trigger] self@.members.contains(name)),
    {
        let yes = is_empty(&self.members);
        assert(yes ==> self@.members =~= Set::<Seq<char>>::empty());
        assert(self@.members == Set::<Seq<char>>::empty() ==> name_entries(self.members)
            =~= Map::<Seq<char>, ()>::empty());
        if !yes {
            assert(!(self@.members =~= Set::<Seq<char>>::empty()));
        }
        yes
    }

    /// The connections in the room, each of them once, in no particular order.
    pub fn members(&self) -> (members: Vec<ConnectionId>)
        ensures
            texts(members@).no_duplicates(),
            texts(members@).to_set() == self@.members,
            lists(members@, self@.members),
    {
        let members = keys(&self.members);
        proof {
            lemma_lists(members@, self@.members);
        }
        members
    }

    /// Calls a function with the name of each connection in the room.
    pub fn for_each_member<F: FnMut(&str)>(&self, f: F)
        requires
            forall|member: &str|
                self@.members.contains(member@) ==> #[trigger] call_requires(f, (member,)),
        ensures
            forall|name: Seq<char>| #[trigger] self@.members.contains(name) ==> visited(f, name),
            forall|name: Seq<char>| #[trigger]
                self@.members.contains(name) ==> exists|member: &str|
                    member@ == name && #[trigger] call_ensures(f, (member,), ()),
    {
        let members = keys(&self.members);
        let mut visit = f;
        let mut at: usize = 0;
        while at < members.len()
            invariant
                visit == f,
                at <= members@.len(),
                texts(members@).to_set() == self@.members,
                forall|member: &str|
                    self@.members.contains(member@) ==> #[trigger] call_requires(f, (member,)),
                forall|i: int| 0 <= i < at ==> visited(f, #[trigger] texts(members@)[i]),
            decreases members@.len() - at,
        {
            let member = members[at].as_str();
            assert(texts(members@)[at as int] == member@);
            assert(texts(members@).to_set().contains(member@));
            visit(member);
            assert(call_ensures(f, (member,), ()));
            assert(visited(f, member@));
            at = at + 1;
        }
        assert forall|name: Seq<char>| #[trigger] self@.members.contains(name) implies visited(f, name) by {
            let i = choose|i: int| 0 <= i < texts(members@).len() && texts(members@)[i] == name;
            assert(visited(f, texts(members@)[i]));
        }
    }
}

} // verus!
