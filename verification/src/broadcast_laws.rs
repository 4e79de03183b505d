//! What holds of every broadcast.

use crate::broadcast::{broadcast, offered_to, tally, Broadcast};
use crate::connection::{link_state, ConnectionState, ConnectionView, LinkView};
use crate::manager::{members_of, RoomsView};
use crate::message::MessageView;
use crate::names::has_size;
use vstd::prelude::*;

verus! {

/// No two names stand for the same connection.
pub open spec fn told_apart(connections: Map<Seq<char>, ConnectionView>) -> bool {
    forall|one: Seq<char>, other: Seq<char>|
        #![trigger connections[one], connections[other]]
        connections.contains_key(one) && connections.contains_key(other) && one != other
            ==> connections[one].link != connections[other].link
}

/// No other name in the audience stands for the connection of this one.
pub open spec fn stands_alone(
    connections: Map<Seq<char>, ConnectionView>,
    audience: Set<Seq<char>>,
    name: Seq<char>,
) -> bool {
    forall|other: Seq<char>|
        #![trigger connections[other]]
        audience.contains(other) && connections.contains_key(other) && other != name
            ==> connections[other].link != connections[name].link
}

/// The names in the audience whose connections are registered and open, and
/// whose queues are held and do not refuse.
pub open spec fn recipients(
    connections: Map<Seq<char>, ConnectionView>,
    audience: Set<Seq<char>>,
    before: Map<u64, LinkView>,
    after: Map<u64, LinkView>,
) -> Set<Seq<char>> {
    Set::new(
        |name: Seq<char>|
            {
                &&& audience.contains(name)
                &&& connections.contains_key(name)
                &&& link_state(before, connections[name].link) == ConnectionState::Open
                &&& before[connections[name].link].held
                &&& !after[connections[name].link].refused
            },
    )
}

/// No queue of an open connection has taken the message and then, offered it
/// again under another name, refused.
pub open spec fn steady(
    connections: Map<Seq<char>, ConnectionView>,
    audience: Set<Seq<char>>,
    before: Map<u64, LinkView>,
    after: Map<u64, LinkView>,
) -> bool {
    forall|name: Seq<char>|
        #![trigger connections[name]]
        {
            &&& audience.contains(name)
            &&& connections.contains_key(name)
            &&& link_state(before, connections[name].link) == ConnectionState::Open
            &&& after[connections[name].link].refused
        } ==> after[connections[name].link].sent == before[connections[name].link].sent
}

/// So many copies of a message.
pub open spec fn copies(message: MessageView, count: nat) -> Seq<MessageView> {
    Seq::new(count, |i: int| message)
}

/// A connection that is not offered the message between two moments of a
/// broadcast is the same at both.
proof fn lemma_bystander(
    run: Broadcast,
    connections: Map<Seq<char>, ConnectionView>,
    audience: Set<Seq<char>>,
    message: MessageView,
    from: int,
    to: int,
    token: u64,
)
    requires
        run.covers(connections, audience, message, run.links[0], run.links.last()),
        0 <= from <= to <= run.order.len(),
        forall|i: int|
            from <= i < to && connections.contains_key(#[trigger] run.order[i])
                ==> connections[run.order[i]].link != token,
    ensures
        run.links[from].contains_key(token) == run.links[to].contains_key(token),
        run.links[from][token] == run.links[to][token],
    decreases to - from,
{
    if from < to {
        lemma_bystander(run, connections, audience, message, from, to - 1, token);
        let name = run.order[to - 1];
        assert(offered_to(
            connections,
            name,
            run.links[to - 1],
            run.links[to],
            message,
            run.taken[to - 1],
        ));
    }
}

/// Offers put no connection in another state, bring none in or out, take nothing
/// off a queue and let go of none, and a queue that has refused stays closed.
proof fn lemma_onward(
    run: Broadcast,
    connections: Map<Seq<char>, ConnectionView>,
    audience: Set<Seq<char>>,
    message: MessageView,
    from: int,
    to: int,
    token: u64,
)
    requires
        run.covers(connections, audience, message, run.links[0], run.links.last()),
        0 <= from <= to <= run.order.len(),
    ensures
        run.links[from].contains_key(token) == run.links[to].contains_key(token),
        link_state(run.links[from], token) == link_state(run.links[to], token),
        run.links[from][token].sent.len() <= run.links[to][token].sent.len(),
        run.links[from][token].refused ==> run.links[to][token].refused,
        run.links[from][token].held == run.links[to][token].held,
    decreases to - from,
{
    if from < to {
        lemma_onward(run, connections, audience, message, from, to - 1, token);
        let name = run.order[to - 1];
        assert(offered_to(
            connections,
            name,
            run.links[to - 1],
            run.links[to],
            message,
            run.taken[to - 1],
        ));
    }
}

/// What an offer says of the whole broadcast: who took the message was open and
/// has more on its queue at the end, and an open one that did not take it
/// refuses at the end.
proof fn lemma_offer(
    run: Broadcast,
    connections: Map<Seq<char>, ConnectionView>,
    audience: Set<Seq<char>>,
    message: MessageView,
    at: int,
)
    requires
        run.covers(connections, audience, message, run.links[0], run.links.last()),
        0 <= at < run.order.len(),
    ensures
        audience.contains(run.order[at]),
        run.taken[at] ==> connections.contains_key(run.order[at]),
        connections.contains_key(run.order[at]) ==> {
            let token = connections[run.order[at]].link;
            &&& run.taken[at] ==> {
                &&& link_state(run.links[0], token) == ConnectionState::Open
                &&& run.links[0][token].held
                &&& !run.links[0][token].refused
                &&& run.links[0][token].sent.len() < run.links.last()[token].sent.len()
            }
            &&& !run.taken[at] && link_state(run.links[0], token) == ConnectionState::Open
                ==> run.links.last()[token].refused
        },
{
    let name = run.order[at];
    let last = run.order.len() as int;
    assert(run.order.to_set().contains(name));
    assert(offered_to(
        connections,
        name,
        run.links[at],
        run.links[at + 1],
        message,
        run.taken[at],
    ));
    if connections.contains_key(name) {
        let token = connections[name].link;
        lemma_onward(run, connections, audience, message, 0, at, token);
        lemma_onward(run, connections, audience, message, at + 1, last, token);
        assert(run.links.last() == run.links[last]);
    }
}

/// In a steady broadcast, those who took the message are its recipients.
proof fn lemma_takers_are_recipients(
    run: Broadcast,
    connections: Map<Seq<char>, ConnectionView>,
    audience: Set<Seq<char>>,
    message: MessageView,
    at: int,
)
    requires
        run.covers(connections, audience, message, run.links[0], run.links.last()),
        steady(connections, audience, run.links[0], run.links.last()),
        0 <= at < run.order.len(),
    ensures
        run.taken[at] == recipients(
            connections,
            audience,
            run.links[0],
            run.links.last(),
        ).contains(run.order[at]),
{
    lemma_offer(run, connections, audience, message, at);
}

/// Which offers put a copy on this queue.
spec fn marks(
    run: Broadcast,
    connections: Map<Seq<char>, ConnectionView>,
    token: u64,
) -> Seq<bool> {
    Seq::new(
        run.order.len(),
        |i: int|
            run.taken[i] && connections.contains_key(run.order[i]) && connections[run.order[i]].link
                == token,
    )
}

/// What is on a queue at some moment of a broadcast.
proof fn lemma_copies(
    run: Broadcast,
    connections: Map<Seq<char>, ConnectionView>,
    audience: Set<Seq<char>>,
    message: MessageView,
    to: int,
    token: u64,
)
    requires
        run.covers(connections, audience, message, run.links[0], run.links.last()),
        0 <= to <= run.order.len(),
    ensures
        run.links[to][token].sent == run.links[0][token].sent + copies(
            message,
            tally(marks(run, connections, token).take(to)),
        ),
    decreases to,
{
    let marked = marks(run, connections, token);
    if to > 0 {
        lemma_copies(run, connections, audience, message, to - 1, token);
        assert(marked.take(to).drop_last() =~= marked.take(to - 1));
        let name = run.order[to - 1];
        assert(offered_to(
            connections,
            name,
            run.links[to - 1],
            run.links[to],
            message,
            run.taken[to - 1],
        ));
        let earlier = tally(marked.take(to - 1));
        assert(copies(message, earlier).push(message) =~= copies(message, earlier + 1));
        assert(run.links[0][token].sent + copies(message, earlier + 1) =~= (
        run.links[0][token].sent + copies(message, earlier)).push(message));
    } else {
        assert(run.links[0][token].sent + copies(message, 0) =~= run.links[0][token].sent);
    }
}

/// The names that took the message, up to some point, are as many as took it.
proof fn lemma_tally_counts(order: Seq<Seq<char>>, taken: Seq<bool>, takers: Set<Seq<char>>)
    requires
        order.no_duplicates(),
        order.len() == taken.len(),
        forall|name: Seq<char>| #[trigger]
            takers.contains(name) <==> exists|i: int|
                0 <= i < order.len() && #[trigger] order[i] == name && taken[i],
    ensures
        has_size(takers, tally(taken)),
    decreases order.len(),
{
    if order.len() == 0 {
        assert(takers =~= Set::<Seq<char>>::empty());
    } else {
        let last = order.len() - 1;
        let name = order[last];
        let rest = order.drop_last();
        let earlier = takers.remove(name);
        assert forall|other: Seq<char>| #[trigger] earlier.contains(other) <==> exists|i: int|
            0 <= i < rest.len() && #[trigger] rest[i] == other && taken.drop_last()[i] by {
            if earlier.contains(other) {
                let i = choose|i: int|
                    0 <= i < order.len() && #[trigger] order[i] == other && taken[i];
                assert(rest[i] == other && taken.drop_last()[i]);
            }
            if exists|i: int|
                0 <= i < rest.len() && #[trigger] rest[i] == other && taken.drop_last()[i] {
                let i = choose|i: int|
                    0 <= i < rest.len() && #[trigger] rest[i] == other && taken.drop_last()[i];
                assert(order[i] == other && taken[i]);
                assert(order[i] != order[last]);
            }
        }
        lemma_tally_counts(rest, taken.drop_last(), earlier);
        if taken[last] {
            assert(order[last] == name && taken[last]);
            assert(takers.contains(name));
            assert(takers =~= earlier.insert(name));
        } else {
            assert(!takers.contains(name)) by {
                if takers.contains(name) {
                    let i = choose|i: int|
                        0 <= i < order.len() && #[trigger] order[i] == name && taken[i];
                    assert(order[i] == order[last]);
                }
            }
            assert(takers =~= earlier);
        }
    }
}

/// A broadcast reports just how many names it reached: those in the audience that
/// are registered, open, and whose queue does not refuse. It reaches them
/// whether or not names share a connection.
pub proof fn broadcast_counts_its_recipients(
    connections: Map<Seq<char>, ConnectionView>,
    audience: Set<Seq<char>>,
    message: MessageView,
    before: Map<u64, LinkView>,
    after: Map<u64, LinkView>,
    count: nat,
)
    requires
        broadcast(connections, audience, message, before, after, count),
        steady(connections, audience, before, after),
    ensures
        has_size(recipients(connections, audience, before, after), count),
        forall|name: Seq<char>| #[trigger]
            recipients(connections, audience, before, after).contains(name)
                ==> !before[connections[name].link].refused,
{
    let run = choose|run: Broadcast| #[trigger]
        run.covers(connections, audience, message, before, after) && tally(run.taken) == count;
    let reached = recipients(connections, audience, before, after);
    assert forall|name: Seq<char>| #[trigger] reached.contains(name) <==> exists|i: int|
        0 <= i < run.order.len() && #[trigger] run.order[i] == name && run.taken[i] by {
        if reached.contains(name) {
            assert(run.order.to_set().contains(name));
            let i = choose|i: int| 0 <= i < run.order.len() && run.order[i] == name;
            lemma_takers_are_recipients(run, connections, audience, message, i);
            assert(run.order[i] == name && run.taken[i]);
        }
        if exists|i: int|
            0 <= i < run.order.len() && #[trigger] run.order[i] == name && run.taken[i] {
            let i = choose|i: int|
                0 <= i < run.order.len() && #[trigger] run.order[i] == name && run.taken[i];
            lemma_takers_are_recipients(run, connections, audience, message, i);
        }
    }
    lemma_tally_counts(run.order, run.taken, reached);
    assert forall|name: Seq<char>| #[trigger] reached.contains(
        name,
    ) implies !before[connections[name].link].refused by {
        let i = choose|i: int|
            0 <= i < run.order.len() && #[trigger] run.order[i] == name && run.taken[i];
        lemma_offer(run, connections, audience, message, i);
    }
}

/// A broadcast puts on each queue one copy of the message for each recipient that
/// stands for its connection, behind what was there, and nothing else.
pub proof fn broadcast_brings_each_recipient_one_copy(
    connections: Map<Seq<char>, ConnectionView>,
    audience: Set<Seq<char>>,
    message: MessageView,
    before: Map<u64, LinkView>,
    after: Map<u64, LinkView>,
    count: nat,
    token: u64,
)
    requires
        broadcast(connections, audience, message, before, after, count),
        steady(connections, audience, before, after),
    ensures
        ({
            let names = recipients(connections, audience, before, after).filter(
                |name: Seq<char>| connections[name].link == token,
            );
            &&& names.finite()
            &&& after[token].sent == before[token].sent + copies(message, names.len())
        }),
{
    let run = choose|run: Broadcast| #[trigger]
        run.covers(connections, audience, message, before, after) && tally(run.taken) == count;
    let reached = recipients(connections, audience, before, after);
    let names = reached.filter(|name: Seq<char>| connections[name].link == token);
    let marked = marks(run, connections, token);
    let last = run.order.len() as int;
    lemma_copies(run, connections, audience, message, last, token);
    assert(marked.take(last) =~= marked);
    assert(run.links.last() == run.links[last]);
    assert forall|name: Seq<char>| #[trigger] names.contains(name) <==> exists|i: int|
        0 <= i < run.order.len() && #[trigger] run.order[i] == name && marked[i] by {
        if names.contains(name) {
            assert(run.order.to_set().contains(name));
            let i = choose|i: int| 0 <= i < run.order.len() && run.order[i] == name;
            lemma_takers_are_recipients(run, connections, audience, message, i);
            assert(run.order[i] == name && marked[i]);
        }
        if exists|i: int|
            0 <= i < run.order.len() && #[trigger] run.order[i] == name && marked[i] {
            let i = choose|i: int|
                0 <= i < run.order.len() && #[trigger] run.order[i] == name && marked[i];
            lemma_takers_are_recipients(run, connections, audience, message, i);
        }
    }
    lemma_tally_counts(run.order, marked, names);
}

/// A broadcast reaches every registered member of its audience that is open and
/// whose queue does not refuse: one that no other name there stands for has one
/// copy of the message queued, behind what was queued before. One that is not
/// open, or refuses, has queued what it had before.
pub proof fn open_members_are_reached(
    connections: Map<Seq<char>, ConnectionView>,
    audience: Set<Seq<char>>,
    message: MessageView,
    before: Map<u64, LinkView>,
    after: Map<u64, LinkView>,
    count: nat,
    name: Seq<char>,
)
    requires
        broadcast(connections, audience, message, before, after, count),
        audience.contains(name),
        connections.contains_key(name),
        stands_alone(connections, audience, name),
    ensures
        after[connections[name].link].sent == if recipients(
            connections,
            audience,
            before,
            after,
        ).contains(name) {
            before[connections[name].link].sent.push(message)
        } else {
            before[connections[name].link].sent
        },
{
    let run = choose|run: Broadcast| #[trigger]
        run.covers(connections, audience, message, before, after) && tally(run.taken) == count;
    let token = connections[name].link;
    let last = run.order.len() as int;
    assert(run.order.to_set().contains(name));
    let at = choose|i: int| 0 <= i < run.order.len() && run.order[i] == name;
    assert forall|i: int|
        0 <= i < last && i != at && connections.contains_key(
            #[trigger] run.order[i],
        ) implies connections[run.order[i]].link != token by {
        assert(run.order.to_set().contains(run.order[i]));
        assert(run.order[i] != run.order[at]);
    }
    lemma_bystander(run, connections, audience, message, 0, at, token);
    lemma_bystander(run, connections, audience, message, at + 1, last, token);
    assert(run.links.last() == run.links[last]);
    assert(offered_to(
        connections,
        name,
        run.links[at],
        run.links[at + 1],
        message,
        run.taken[at],
    ));
}

/// Where no two names stand for one connection, every broadcast is steady.
pub proof fn broadcasts_to_connections_told_apart_are_steady(
    connections: Map<Seq<char>, ConnectionView>,
    audience: Set<Seq<char>>,
    message: MessageView,
    before: Map<u64, LinkView>,
    after: Map<u64, LinkView>,
    count: nat,
)
    requires
        broadcast(connections, audience, message, before, after, count),
        told_apart(connections),
    ensures
        steady(connections, audience, before, after),
{
    assert forall|name: Seq<char>|
        #![trigger connections[name]]
        {
            &&& audience.contains(name)
            &&& connections.contains_key(name)
            &&& link_state(before, connections[name].link) == ConnectionState::Open
            &&& after[connections[name].link].refused
        } implies after[connections[name].link].sent == before[connections[name].link].sent by {
        open_members_are_reached(connections, audience, message, before, after, count, name);
    }
}

/// Leaving a name out of a broadcast takes that name from the recipients, and
/// changes nothing else: of two broadcasts from one state, to an audience and to
/// the same without the name, in which the same queues take the message, the
/// second reaches those whom the first reaches, but for that name. It counts one
/// less just when the first reached it.
pub proof fn excepting_takes_one_from_the_recipients(
    connections: Map<Seq<char>, ConnectionView>,
    audience: Set<Seq<char>>,
    except: Seq<char>,
    message: MessageView,
    before: Map<u64, LinkView>,
    full_after: Map<u64, LinkView>,
    full_count: nat,
    after: Map<u64, LinkView>,
    count: nat,
)
    requires
        broadcast(connections, audience, message, before, full_after, full_count),
        broadcast(connections, audience.remove(except), message, before, after, count),
        steady(connections, audience, before, full_after),
        steady(connections, audience.remove(except), before, after),
        forall|name: Seq<char>|
            #![trigger connections[name]]
            audience.contains(name) && name != except && connections.contains_key(name)
                ==> after[connections[name].link].refused
                == full_after[connections[name].link].refused,
    ensures
        recipients(connections, audience.remove(except), before, after) == recipients(
            connections,
            audience,
            before,
            full_after,
        ).remove(except),
        count == if recipients(connections, audience, before, full_after).contains(except) {
            full_count - 1
        } else {
            full_count as int
        },
{
    let full = recipients(connections, audience, before, full_after);
    let rest = recipients(connections, audience.remove(except), before, after);
    assert(rest =~= full.remove(except));
    broadcast_counts_its_recipients(
        connections,
        audience,
        message,
        before,
        full_after,
        full_count,
    );
    broadcast_counts_its_recipients(
        connections,
        audience.remove(except),
        message,
        before,
        after,
        count,
    );
}

/// Leaving out a name that is not in the audience changes nothing.
pub proof fn excepting_an_outsider_changes_nothing(audience: Set<Seq<char>>, except: Seq<char>)
    requires
        !audience.contains(except),
    ensures
        audience.remove(except) == audience,
{
    assert(audience.remove(except) =~= audience);
}

/// However often a connection has joined a room, a broadcast there brings it one
/// copy, unless another name in the room stands for the same connection. Leaving
/// once takes it out.
pub proof fn joining_twice_brings_one_copy(
    rooms: RoomsView,
    connection: Seq<char>,
    room: Seq<char>,
    message: MessageView,
    before: Map<u64, LinkView>,
    after: Map<u64, LinkView>,
    count: nat,
)
    requires
        rooms.connections.contains_key(connection),
        stands_alone(rooms.connections, members_of(rooms.rooms, room), connection),
        broadcast(
            rooms.connections,
            rooms.join_room(connection, room).join_room(connection, room).rooms[room],
            message,
            before,
            after,
            count,
        ),
        link_state(before, rooms.connections[connection].link) == ConnectionState::Open,
        before[rooms.connections[connection].link].held,
        !after[rooms.connections[connection].link].refused,
    ensures
        after[rooms.connections[connection].link].sent
            == before[rooms.connections[connection].link].sent.push(message),
        !members_of(
            rooms.join_room(connection, room).join_room(connection, room).leave_room(
                connection,
                room,
            ).rooms,
            room,
        ).contains(connection),
{
    open_members_are_reached(
        rooms.connections,
        rooms.join_room(connection, room).join_room(connection, room).rooms[room],
        message,
        before,
        after,
        count,
        connection,
    );
}

/// A broadcast leaves a connection alone unless one of its names is in the
/// audience.
pub proof fn broadcast_reaches_only_its_audience(
    connections: Map<Seq<char>, ConnectionView>,
    audience: Set<Seq<char>>,
    message: MessageView,
    before: Map<u64, LinkView>,
    after: Map<u64, LinkView>,
    count: nat,
    token: u64,
)
    requires
        broadcast(connections, audience, message, before, after, count),
        forall|name: Seq<char>|
            #![trigger connections[name]]
            audience.contains(name) && connections.contains_key(name) ==> connections[name].link
                != token,
    ensures
        before.contains_key(token) == after.contains_key(token),
        before[token] == after[token],
{
    let run = choose|run: Broadcast| #[trigger]
        run.covers(connections, audience, message, before, after) && tally(run.taken) == count;
    assert forall|i: int|
        0 <= i < run.order.len() && connections.contains_key(
            #[trigger] run.order[i],
        ) implies connections[run.order[i]].link != token by {
        assert(run.order.to_set().contains(run.order[i]));
    }
    lemma_bystander(
        run,
        connections,
        audience,
        message,
        0,
        run.order.len() as int,
        token,
    );
    assert(run.links.last() == run.links[run.order.len() as int]);
}

/// The one whom a broadcast leaves out gets nothing, unless another name in the
/// audience stands for the same connection.
pub proof fn excepted_connection_gets_nothing(
    connections: Map<Seq<char>, ConnectionView>,
    audience: Set<Seq<char>>,
    message: MessageView,
    before: Map<u64, LinkView>,
    after: Map<u64, LinkView>,
    count: nat,
    except: Seq<char>,
)
    requires
        broadcast(connections, audience.remove(except), message, before, after, count),
        stands_alone(connections, audience, except),
        connections.contains_key(except),
    ensures
        before[connections[except].link] == after[connections[except].link],
{
    broadcast_reaches_only_its_audience(
        connections,
        audience.remove(except),
        message,
        before,
        after,
        count,
        connections[except].link,
    );
}

/// A broadcast opens and closes no connection, and lets go of no queue.
pub proof fn broadcast_keeps_states(
    connections: Map<Seq<char>, ConnectionView>,
    audience: Set<Seq<char>>,
    message: MessageView,
    before: Map<u64, LinkView>,
    after: Map<u64, LinkView>,
    count: nat,
    token: u64,
)
    requires
        broadcast(connections, audience, message, before, after, count),
    ensures
        link_state(before, token) == link_state(after, token),
        before[token].held == after[token].held,
{
    let run = choose|run: Broadcast| #[trigger]
        run.covers(connections, audience, message, before, after) && tally(run.taken) == count;
    lemma_onward(
        run,
        connections,
        audience,
        message,
        0,
        run.order.len() as int,
        token,
    );
    assert(run.links.last() == run.links[run.order.len() as int]);
}

/// Connections that are registered as they are opened can be told apart: a
/// new one has a number that none before it had.
pub proof fn new_connections_are_told_apart(
    connections: Map<Seq<char>, ConnectionView>,
    newcomer: ConnectionView,
)
    requires
        told_apart(connections),
        forall|name: Seq<char>|
            #![trigger connections[name]]
            connections.contains_key(name) ==> connections[name].link < newcomer.link,
    ensures
        told_apart(connections.insert(newcomer.id, newcomer)),
{
}

/// The count of a broadcast is the number of names in the audience that are
/// registered to an open connection whose queue is held and does not refuse,
/// as long as no queue takes the message and then refuses.
pub proof fn broadcast_count_is_the_number_of_deliveries(
    connections: Map<Seq<char>, ConnectionView>,
    audience: Set<Seq<char>>,
    message: MessageView,
    before: Map<u64, LinkView>,
    after: Map<u64, LinkView>,
    count: nat,
)
    requires
        broadcast(connections, audience, message, before, after, count),
        forall|token: u64|
            #![trigger after[token]]
            after[token].refused ==> after[token].sent == before[token].sent,
    ensures
        ({
            let reached = Set::new(
                |name: Seq<char>|
                    {
                        &&& audience.contains(name)
                        &&& connections.contains_key(name)
                        &&& before.contains_key(connections[name].link)
                        &&& before[connections[name].link].state == ConnectionState::Open
                        &&& before[connections[name].link].held
                        &&& !after[connections[name].link].refused
                    },
            );
            &&& reached.finite()
            &&& reached.len() == count
        }),
{
    broadcast_counts_its_recipients(connections, audience, message, before, after, count);
    assert(recipients(connections, audience, before, after) =~= Set::new(
        |name: Seq<char>|
            {
                &&& audience.contains(name)
                &&& connections.contains_key(name)
                &&& before.contains_key(connections[name].link)
                &&& before[connections[name].link].state == ConnectionState::Open
                &&& before[connections[name].link].held
                &&& !after[connections[name].link].refused
            },
    ));
}

/// What a broadcast does to the connection of a name in its audience that no
/// other name there stands for: an open one that does not refuse has the message
/// queued last, once; any other has queued what it had. Whoever is open and has
/// not got it has refused.
pub proof fn broadcast_delivers_to_each_open_member(
    connections: Map<Seq<char>, ConnectionView>,
    audience: Set<Seq<char>>,
    message: MessageView,
    before: Map<u64, LinkView>,
    after: Map<u64, LinkView>,
    count: nat,
    name: Seq<char>,
)
    requires
        broadcast(connections, audience, message, before, after, count),
        audience.contains(name),
        connections.contains_key(name),
        forall|other: Seq<char>|
            #![trigger connections[other]]
            audience.contains(other) && connections.contains_key(other) && other != name
                ==> connections[other].link != connections[name].link,
    ensures
        ({
            let link = connections[name].link;
            let open = before.contains_key(link) && before[link].state == ConnectionState::Open;
            if open && before[link].held && !after[link].refused {
                &&& after[link].sent.len() == before[link].sent.len() + 1
                &&& after[link].sent.last() == message
                &&& after[link].sent.drop_last() == before[link].sent
            } else {
                &&& after[link].sent == before[link].sent
                &&& !open ==> after[link] == before[link]
            }
        }),
{
    open_members_are_reached(connections, audience, message, before, after, count, name);
    let link = connections[name].link;
    assert(before[link].sent.push(message).drop_last() =~= before[link].sent);
    let run = choose|run: Broadcast| #[trigger]
        run.covers(connections, audience, message, before, after) && tally(run.taken) == count;
    lemma_closed_untouched(run, connections, audience, message, run.order.len() as int, link);
    assert(run.links.last() == run.links[run.order.len() as int]);
}

/// A connection that is not open is left as it is.
proof fn lemma_closed_untouched(
    run: Broadcast,
    connections: Map<Seq<char>, ConnectionView>,
    audience: Set<Seq<char>>,
    message: MessageView,
    to: int,
    token: u64,
)
    requires
        run.covers(connections, audience, message, run.links[0], run.links.last()),
        0 <= to <= run.order.len(),
    ensures
        link_state(run.links[0], token) != ConnectionState::Open ==> run.links[to][token]
            == run.links[0][token] && run.links[to].contains_key(token)
            == run.links[0].contains_key(token),
    decreases to,
{
    if to > 0 {
        lemma_closed_untouched(run, connections, audience, message, to - 1, token);
        assert(offered_to(
            connections,
            run.order[to - 1],
            run.links[to - 1],
            run.links[to],
            message,
            run.taken[to - 1],
        ));
    }
}

/// A broadcast brings no connection in or out, and changes neither its state nor
/// which queue it is on nor whether it holds that queue. What was queued stays
/// queued, in order.
pub proof fn broadcast_only_adds_to_queues(
    connections: Map<Seq<char>, ConnectionView>,
    audience: Set<Seq<char>>,
    message: MessageView,
    before: Map<u64, LinkView>,
    after: Map<u64, LinkView>,
    count: nat,
    token: u64,
)
    requires
        broadcast(connections, audience, message, before, after, count),
    ensures
        after.contains_key(token) == before.contains_key(token),
        after[token].state == before[token].state,
        after[token].queue == before[token].queue,
        after[token].held == before[token].held,
        before[token].refused ==> after[token].refused,
        before[token].sent.is_prefix_of(after[token].sent),
        forall|i: int|
            before[token].sent.len() <= i < after[token].sent.len() ==> after[token].sent[i]
                == message,
{
    let run = choose|run: Broadcast| #[trigger]
        run.covers(connections, audience, message, before, after) && tally(run.taken) == count;
    let last = run.order.len() as int;
    lemma_copies(run, connections, audience, message, last, token);
    lemma_onward(run, connections, audience, message, 0, last, token);
    lemma_fixed(run, connections, audience, message, last, token);
    assert(run.links.last() == run.links[last]);
}

/// Offers change neither the state nor the queue of a connection.
proof fn lemma_fixed(
    run: Broadcast,
    connections: Map<Seq<char>, ConnectionView>,
    audience: Set<Seq<char>>,
    message: MessageView,
    to: int,
    token: u64,
)
    requires
        run.covers(connections, audience, message, run.links[0], run.links.last()),
        0 <= to <= run.order.len(),
    ensures
        run.links[to][token].state == run.links[0][token].state,
        run.links[to][token].queue == run.links[0][token].queue,
    decreases to,
{
    if to > 0 {
        lemma_fixed(run, connections, audience, message, to - 1, token);
        assert(offered_to(
            connections,
            run.order[to - 1],
            run.links[to - 1],
            run.links[to],
            message,
            run.taken[to - 1],
        ));
    }
}

} // verus!
