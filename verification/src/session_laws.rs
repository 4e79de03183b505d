//! What holds of every session.

use crate::connection::{link_state, ConnectionState, LinkView};
use crate::error::WebSocketError;
use crate::manager::RoomsView;
use crate::message::{MessageType, MessageView, ReadOutcome, WireMessage, WireView};
use crate::payload::bytes_content;
use crate::room_laws::unregistering_removes_one_connection;
use crate::session::{
    heartbeat, session_step, Phase, SessionAction, SessionEvent, SessionView,
    MAX_MISSED_HEARTBEATS,
};
use vstd::prelude::*;
use vstd::utf8::encode_utf8;

verus! {

/// How far a phase is along the life of a session.
pub open spec fn progress(phase: Phase) -> int {
    match phase {
        Phase::Greeting => 0,
        Phase::Reading => 1,
        Phase::Failing => 2,
        Phase::Draining => 3,
        Phase::Departing => 4,
        Phase::Gone => 5,
    }
}

/// Heartbeats in a row, without a frame in between, are counted, and only so
/// many of them leave a session reading: a silent peer is given up.
pub proof fn silent_peer_is_given_up(
    states: Seq<SessionView>,
    actions: Seq<SessionAction>,
    links: Seq<Map<u64, LinkView>>,
    beats: nat,
)
    requires
        states.len() == beats + 1,
        actions.len() == beats,
        links.len() == beats + 1,
        forall|i: int|
            0 <= i < beats ==> {
                &&& (#[trigger] states[i]).phase == Phase::Reading
                &&& heartbeat(states[i], states[i + 1], actions[i], links[i], links[i + 1])
            },
        states[0].missed_heartbeats <= MAX_MISSED_HEARTBEATS,
        states.last().phase == Phase::Reading,
    ensures
        states.last().missed_heartbeats == states[0].missed_heartbeats + beats,
        states[0].missed_heartbeats + beats <= MAX_MISSED_HEARTBEATS,
    decreases beats,
{
    if beats > 0 {
        let last = beats - 1;
        assert(states[last].phase == Phase::Reading);
        assert(states.last() == states[last + 1]);
        assert forall|i: int| 0 <= i < last implies {
            &&& (#[trigger] states.drop_last()[i]).phase == Phase::Reading
            &&& heartbeat(
                states.drop_last()[i],
                states.drop_last()[i + 1],
                actions.drop_last()[i],
                links.drop_last()[i],
                links.drop_last()[i + 1],
            )
        } by {
            assert(states[i].phase == Phase::Reading);
        }
        silent_peer_is_given_up(
            states.drop_last(),
            actions.drop_last(),
            links.drop_last(),
            last as nat,
        );
    }
}

/// A heartbeat ends a session only when too many have gone by, or when the
/// connection is not open, or when its queue has refused the ping. It lets go of
/// no queue.
pub proof fn heartbeat_ends_a_session_for_cause(
    before: SessionView,
    after: SessionView,
    action: SessionAction,
    links: Map<u64, LinkView>,
    links_after: Map<u64, LinkView>,
)
    requires
        before.phase == Phase::Reading,
        heartbeat(before, after, action, links, links_after),
    ensures
        after.phase != Phase::Reading ==> {
            ||| before.missed_heartbeats >= MAX_MISSED_HEARTBEATS
            ||| link_state(links, before.connection.link) != ConnectionState::Open
            ||| links_after[before.connection.link].refused
        },
        links.contains_key(before.connection.link) ==> links_after[before.connection.link].held
            == links[before.connection.link].held,
{
}

/// Every heartbeat that leaves a session reading has put an empty ping last on
/// its queue.
pub proof fn heartbeat_sends_a_ping(
    before: SessionView,
    after: SessionView,
    action: SessionAction,
    links: Map<u64, LinkView>,
    links_after: Map<u64, LinkView>,
)
    requires
        before.phase == Phase::Reading,
        heartbeat(before, after, action, links, links_after),
        after.phase == Phase::Reading,
    ensures
        action is Wait,
        links_after[before.connection.link].sent == links[before.connection.link].sent.push(
            MessageView::bare(MessageType::Ping),
        ),
{
}

/// Any frame but a close frame keeps a session reading, and starts the count of
/// missed heartbeats again: a peer that keeps sending is not given up, whether
/// it answers pings or not.
pub proof fn any_frame_shows_life(
    before: SessionView,
    event: SessionEvent,
    after: SessionView,
    action: SessionAction,
    links: Map<u64, LinkView>,
    links_after: Map<u64, LinkView>,
    rooms: RoomsView,
    rooms_after: RoomsView,
)
    requires
        before.phase == Phase::Reading,
        event matches SessionEvent::Read { at, outcome: ReadOutcome::Frame(frame) } && frame@
            != WireView::Close,
        session_step(before, event, after, action, links, links_after, rooms, rooms_after),
    ensures
        after.phase == Phase::Reading,
        after.missed_heartbeats == 0,
        links_after == links,
{
}

/// The idle deadline moves only when something is read: heartbeats, and the
/// answers to pings, do not put it off.
pub proof fn only_reading_moves_the_idle_deadline(
    before: SessionView,
    event: SessionEvent,
    after: SessionView,
    action: SessionAction,
    links: Map<u64, LinkView>,
    links_after: Map<u64, LinkView>,
    rooms: RoomsView,
    rooms_after: RoomsView,
)
    requires
        session_step(before, event, after, action, links, links_after, rooms, rooms_after),
        !(event is Read),
        !(event is ConnectTold),
    ensures
        after.last_read == before.last_read,
{
}

/// The idle deadline ends a session that is reading.
pub proof fn idle_deadline_ends_a_session(
    before: SessionView,
    after: SessionView,
    action: SessionAction,
    links: Map<u64, LinkView>,
    links_after: Map<u64, LinkView>,
    rooms: RoomsView,
    rooms_after: RoomsView,
)
    requires
        before.phase == Phase::Reading,
        session_step(
            before,
            SessionEvent::IdleElapsed,
            after,
            action,
            links,
            links_after,
            rooms,
            rooms_after,
        ),
    ensures
        after.phase == Phase::Draining,
        link_state(links_after, before.connection.link) != ConnectionState::Open,
{
}

/// A session never goes back, and is about the same connection throughout.
pub proof fn sessions_only_move_forward(
    before: SessionView,
    event: SessionEvent,
    after: SessionView,
    action: SessionAction,
    links: Map<u64, LinkView>,
    links_after: Map<u64, LinkView>,
    rooms: RoomsView,
    rooms_after: RoomsView,
)
    requires
        session_step(before, event, after, action, links, links_after, rooms, rooms_after),
    ensures
        progress(before.phase) <= progress(after.phase),
        after.connection == before.connection,
{
}

/// A run of a session: its states before, between and after the steps, and what
/// each step was told, asked for and changed.
pub struct SessionRun {
    pub states: Seq<SessionView>,
    pub events: Seq<SessionEvent>,
    pub actions: Seq<SessionAction>,
    pub links: Seq<Map<u64, LinkView>>,
    pub links_after: Seq<Map<u64, LinkView>>,
    pub rooms: Seq<RoomsView>,
    pub rooms_after: Seq<RoomsView>,
}

impl SessionRun {
    /// Each step is one that a session takes. Between steps, others may change
    /// rooms and connections.
    pub open spec fn valid(self) -> bool {
        &&& self.states.len() == self.events.len() + 1
        &&& self.states[0].phase == Phase::Greeting
        &&& forall|i: int|
            0 <= i < self.events.len() ==> session_step(
                #[trigger] self.states[i],
                self.events[i],
                self.states[i + 1],
                self.actions[i],
                self.links[i],
                self.links_after[i],
                self.rooms[i],
                self.rooms_after[i],
            )
    }

    /// The connection is closed at one step, the handler is told at a later one
    /// that it is gone, and the session finishes at a third, each at no other.
    pub open spec fn ends_at(self, drained: int, told: int, ended: int) -> bool {
        &&& 0 <= drained < told < ended < self.events.len()
        &&& forall|i: int|
            0 <= i < self.events.len() ==> {
                &&& (#[trigger] self.actions[i] is AwaitWriter <==> i == drained)
                &&& (self.actions[i] is TellDisconnect <==> i == told)
                &&& (self.actions[i] is Finished <==> i == ended)
            }
    }

    /// No step among the first `to` asks for this.
    spec fn lacks(self, to: int, asked: spec_fn(SessionAction) -> bool) -> bool {
        forall|i: int| 0 <= i < to ==> !asked(#[trigger] self.actions[i])
    }

    /// Just this one step among the first `to` asks for this.
    spec fn has_only(self, to: int, at: int, asked: spec_fn(SessionAction) -> bool) -> bool {
        &&& 0 <= at < to
        &&& forall|i: int| 0 <= i < to ==> (asked(#[trigger] self.actions[i]) <==> i == at)
    }
}

/// What a session has asked for by the time it is in a phase: which step told of
/// the closing, which told the handler, and which was the last.
proof fn lemma_asked_so_far(run: SessionRun, to: int) -> (asked: (int, int, int))
    requires
        run.valid(),
        0 <= to <= run.events.len(),
    ensures
        ({
            let done = progress(run.states[to].phase);
            let drains = |action: SessionAction| action is AwaitWriter;
            let tells = |action: SessionAction| action is TellDisconnect;
            let ends = |action: SessionAction| action is Finished;
            &&& if done < 3 {
                run.lacks(to, drains)
            } else {
                run.has_only(to, asked.0, drains)
            }
            &&& if done < 4 {
                run.lacks(to, tells)
            } else {
                run.has_only(to, asked.1, tells) && asked.0 < asked.1
            }
            &&& if done < 5 {
                run.lacks(to, ends)
            } else {
                run.has_only(to, asked.2, ends) && asked.1 < asked.2
            }
        }),
    decreases to,
{
    if to == 0 {
        (0, 0, 0)
    } else {
        let last = to - 1;
        let (drained, told, ended) = lemma_asked_so_far(run, last);
        assert(session_step(
            run.states[last],
            run.events[last],
            run.states[last + 1],
            run.actions[last],
            run.links[last],
            run.links_after[last],
            run.rooms[last],
            run.rooms_after[last],
        ));
        match run.actions[last] {
            SessionAction::AwaitWriter => (last, told, ended),
            SessionAction::TellDisconnect => (drained, last, ended),
            SessionAction::Finished => (drained, told, last),
            _ => (drained, told, ended),
        }
    }
}

/// Over the whole life of a session, however it goes, its connection is closed
/// once, then the handler is told once that it is gone, and then the session
/// finishes, once. Until it is gone it has not finished, and the handler is told
/// at most once.
pub proof fn session_ends_exactly_once(run: SessionRun)
    requires
        run.valid(),
    ensures
        run.states.last().phase == Phase::Gone ==> exists|drained: int, told: int, ended: int|
            run.ends_at(drained, told, ended),
        run.states.last().phase != Phase::Gone ==> forall|i: int|
            0 <= i < run.events.len() ==> !(#[trigger] run.actions[i] is Finished),
        forall|i: int, j: int|
            0 <= i < run.events.len() && 0 <= j < run.events.len()
                && #[trigger] run.actions[i] is TellDisconnect
                && #[trigger] run.actions[j] is TellDisconnect ==> i == j,
{
    let (drained, told, ended) = lemma_asked_so_far(run, run.events.len() as int);
    let tells = |action: SessionAction| action is TellDisconnect;
    assert(run.states.last() == run.states[run.events.len() as int]);
    if run.states.last().phase == Phase::Gone {
        let drains = |action: SessionAction| action is AwaitWriter;
        let ends = |action: SessionAction| action is Finished;
        assert forall|i: int| 0 <= i < run.events.len() implies {
            &&& (#[trigger] run.actions[i] is AwaitWriter <==> i == drained)
            &&& (run.actions[i] is TellDisconnect <==> i == told)
            &&& (run.actions[i] is Finished <==> i == ended)
        } by {
            assert(drains(run.actions[i]) <==> i == drained);
            assert(tells(run.actions[i]) <==> i == told);
            assert(ends(run.actions[i]) <==> i == ended);
        }
        assert(run.ends_at(drained, told, ended));
    } else {
        let ends = |action: SessionAction| action is Finished;
        assert forall|i: int| 0 <= i < run.events.len() implies !(
        #[trigger] run.actions[i] is Finished) by {
            assert(!ends(run.actions[i]));
        }
    }
    assert forall|i: int, j: int|
        0 <= i < run.events.len() && 0 <= j < run.events.len()
            && #[trigger] run.actions[i] is TellDisconnect
            && #[trigger] run.actions[j] is TellDisconnect implies i == j by {
        assert(tells(run.actions[i]) && tells(run.actions[j]));
    }
}

/// A session that stops reading has closed its connection: nobody can send on
/// it any more.
pub proof fn connection_closes_when_reading_stops(
    before: SessionView,
    event: SessionEvent,
    after: SessionView,
    action: SessionAction,
    links: Map<u64, LinkView>,
    links_after: Map<u64, LinkView>,
    rooms: RoomsView,
    rooms_after: RoomsView,
)
    requires
        session_step(before, event, after, action, links, links_after, rooms, rooms_after),
        action is AwaitWriter,
    ensures
        link_state(links_after, before.connection.link) != ConnectionState::Open,
{
}

/// A session that stops reading says goodbye: a close message is the last on
/// its queue, unless the queue has refused it. The queue is not let go of.
pub proof fn closing_session_says_goodbye(
    before: SessionView,
    event: SessionEvent,
    after: SessionView,
    action: SessionAction,
    links: Map<u64, LinkView>,
    links_after: Map<u64, LinkView>,
    rooms: RoomsView,
    rooms_after: RoomsView,
)
    requires
        session_step(before, event, after, action, links, links_after, rooms, rooms_after),
        action is AwaitWriter,
        links.contains_key(before.connection.link),
    ensures
        links_after.contains_key(before.connection.link),
        link_state(links_after, before.connection.link) == ConnectionState::Closing,
        links_after[before.connection.link].held == links[before.connection.link].held,
        links_after[before.connection.link].refused || {
            &&& links_after[before.connection.link].sent.len() > 0
            &&& links_after[before.connection.link].sent.last() == MessageView::bare(
                MessageType::Close,
            )
        },
{
}

/// Whatever a session does, it leaves every connection but its own as it was.
pub proof fn session_touches_only_its_own_connection(
    before: SessionView,
    event: SessionEvent,
    after: SessionView,
    action: SessionAction,
    links: Map<u64, LinkView>,
    links_after: Map<u64, LinkView>,
    rooms: RoomsView,
    rooms_after: RoomsView,
    other: u64,
)
    requires
        session_step(before, event, after, action, links, links_after, rooms, rooms_after),
        other != before.connection.link,
    ensures
        links_after.contains_key(other) == links.contains_key(other),
        links.contains_key(other) ==> links_after[other] == links[other],
{
}

/// By the time the handler hears that a connection is gone, every handle to it
/// reads as closed, and it is still registered. Only after that is it
/// forgotten.
pub proof fn connection_is_closed_before_it_is_forgotten(
    before: SessionView,
    event: SessionEvent,
    after: SessionView,
    action: SessionAction,
    links: Map<u64, LinkView>,
    links_after: Map<u64, LinkView>,
    rooms: RoomsView,
    rooms_after: RoomsView,
)
    requires
        session_step(before, event, after, action, links, links_after, rooms, rooms_after),
    ensures
        action is TellDisconnect ==> {
            &&& link_state(links_after, before.connection.link) == ConnectionState::Closed
            &&& rooms_after == rooms
        },
        action is Finished ==> {
            &&& before.phase == Phase::Departing
            &&& !rooms_after.connections.contains_key(before.connection.id)
        },
        rooms_after != rooms ==> action is Finished,
{
}

/// When the handler knows of a connection, reading starts, and with it the time
/// for which the peer may be silent.
pub proof fn greeting_starts_the_clock(
    before: SessionView,
    event: SessionEvent,
    after: SessionView,
    action: SessionAction,
    links: Map<u64, LinkView>,
    links_after: Map<u64, LinkView>,
    rooms: RoomsView,
    rooms_after: RoomsView,
)
    requires
        session_step(before, event, after, action, links, links_after, rooms, rooms_after),
        before.phase == Phase::Greeting,
        event is ConnectTold,
    ensures
        after.phase == Phase::Reading,
        after.last_read == event->ConnectTold_at,
        after.missed_heartbeats == before.missed_heartbeats,
        after.connection == before.connection,
        action is Wait,
        links_after == links,
        rooms_after == rooms,
{
}

/// Whatever is read, the time of the read is the one from which the idle deadline
/// counts: a peer that has just sent anything is not idle. A frame shows that the
/// peer is alive; an error or the end of the stream does not.
pub proof fn every_read_moves_the_idle_deadline(
    before: SessionView,
    event: SessionEvent,
    after: SessionView,
    action: SessionAction,
    links: Map<u64, LinkView>,
    links_after: Map<u64, LinkView>,
    rooms: RoomsView,
    rooms_after: RoomsView,
)
    requires
        session_step(before, event, after, action, links, links_after, rooms, rooms_after),
        before.phase == Phase::Reading,
        event is Read,
    ensures
        after.last_read == event->Read_at,
        event->Read_outcome is Frame ==> after.missed_heartbeats == 0,
        !(event->Read_outcome is Frame) ==> after.missed_heartbeats == before.missed_heartbeats,
        after.connection == before.connection,
        rooms_after == rooms,
{
}

/// Every frame reaches the handler as what it is, with all that it carries: text
/// and binary frames as messages, pings and pongs by their payload. None of these
/// ends the reading or touches a queue. A close frame reaches nobody, and ends the
/// reading.
pub proof fn frames_reach_the_handler(
    before: SessionView,
    event: SessionEvent,
    after: SessionView,
    action: SessionAction,
    links: Map<u64, LinkView>,
    links_after: Map<u64, LinkView>,
    rooms: RoomsView,
    rooms_after: RoomsView,
)
    requires
        session_step(before, event, after, action, links, links_after, rooms, rooms_after),
        before.phase == Phase::Reading,
        event is Read,
        event->Read_outcome is Frame,
    ensures
        match event->Read_outcome->Frame_0 {
            WireMessage::Text(text) => {
                &&& action matches SessionAction::TellMessage { message }
                &&& message.message_type == MessageType::Text
                &&& bytes_content(message.payload) == encode_utf8(text@)
            },
            WireMessage::Binary(data) => {
                &&& action matches SessionAction::TellMessage { message }
                &&& message.message_type == MessageType::Binary
                &&& bytes_content(message.payload) == bytes_content(data)
            },
            WireMessage::Ping(data) => {
                &&& action matches SessionAction::AskPong { payload }
                &&& bytes_content(payload) == bytes_content(data)
            },
            WireMessage::Pong(data) => {
                &&& action matches SessionAction::TellPong { payload }
                &&& bytes_content(payload) == bytes_content(data)
            },
            WireMessage::Close => action is AwaitWriter && after.phase == Phase::Draining,
        },
        !(event->Read_outcome->Frame_0 is Close) ==> after.phase == Phase::Reading && links_after
            == links,
{
}

/// An error is told to the handler, in its own words, before anything is closed.
/// The end of the stream ends the reading.
pub proof fn errors_are_told_and_the_end_is_not(
    before: SessionView,
    event: SessionEvent,
    after: SessionView,
    action: SessionAction,
    links: Map<u64, LinkView>,
    links_after: Map<u64, LinkView>,
    rooms: RoomsView,
    rooms_after: RoomsView,
)
    requires
        session_step(before, event, after, action, links, links_after, rooms, rooms_after),
        before.phase == Phase::Reading,
        event is Read,
        !(event->Read_outcome is Frame),
    ensures
        event->Read_outcome matches ReadOutcome::Failed(text) ==> {
            &&& action matches SessionAction::TellError { error: WebSocketError::Protocol(told) }
            &&& told == text
            &&& after.phase == Phase::Failing
            &&& links_after == links
        },
        event->Read_outcome is Ended ==> action is AwaitWriter && after.phase == Phase::Draining,
{
}

/// A heartbeat goes on just when not too many were missed, the connection is open
/// and its queue does not refuse. Then one more counts as missed, and an empty ping
/// stands last on the queue. Otherwise the session closes. Either way the idle
/// deadline stays.
pub proof fn heartbeat_pings_or_ends(
    before: SessionView,
    event: SessionEvent,
    after: SessionView,
    action: SessionAction,
    links: Map<u64, LinkView>,
    links_after: Map<u64, LinkView>,
    rooms: RoomsView,
    rooms_after: RoomsView,
)
    requires
        session_step(before, event, after, action, links, links_after, rooms, rooms_after),
        before.phase == Phase::Reading,
        event is HeartbeatDue,
    ensures
        after.phase == Phase::Reading <==> {
            &&& before.missed_heartbeats < MAX_MISSED_HEARTBEATS
            &&& links.contains_key(before.connection.link)
            &&& links[before.connection.link].state == ConnectionState::Open
            &&& !links_after[before.connection.link].refused
        },
        after.phase == Phase::Reading ==> {
            let sent = links_after[before.connection.link].sent;
            &&& action is Wait
            &&& after.missed_heartbeats == before.missed_heartbeats + 1
            &&& sent.len() == links[before.connection.link].sent.len() + 1
            &&& sent.last().message_type == MessageType::Ping
            &&& sent.last().payload.len() == 0
            &&& sent.drop_last() == links[before.connection.link].sent
            &&& links_after[before.connection.link].state == ConnectionState::Open
        },
        after.phase != Phase::Reading ==> action is AwaitWriter && after.phase == Phase::Draining,
        after.last_read == before.last_read,
        after.connection == before.connection,
        rooms_after == rooms,
{
    let sent = links[before.connection.link].sent;
    assert(sent.push(MessageView::bare(MessageType::Ping)).drop_last() =~= sent);
}

/// The idle deadline ends the reading, and so does an error once the handler knows
/// of it.
pub proof fn silence_and_errors_end_the_reading(
    before: SessionView,
    event: SessionEvent,
    after: SessionView,
    action: SessionAction,
    links: Map<u64, LinkView>,
    links_after: Map<u64, LinkView>,
    rooms: RoomsView,
    rooms_after: RoomsView,
)
    requires
        session_step(before, event, after, action, links, links_after, rooms, rooms_after),
        (before.phase == Phase::Reading && event is IdleElapsed) || (before.phase == Phase::Failing
            && event is ErrorTold),
    ensures
        action is AwaitWriter,
        after.phase == Phase::Draining,
        after.last_read == before.last_read,
        after.missed_heartbeats == before.missed_heartbeats,
        after.connection == before.connection,
        rooms_after == rooms,
{
}

/// The answer to a ping goes back as a pong with the payload that the handler gave,
/// last on the queue, unless the connection is not open or its queue refuses.
/// Nothing else changes, and reading goes on.
pub proof fn pongs_carry_what_the_handler_gave(
    before: SessionView,
    event: SessionEvent,
    after: SessionView,
    action: SessionAction,
    links: Map<u64, LinkView>,
    links_after: Map<u64, LinkView>,
    rooms: RoomsView,
    rooms_after: RoomsView,
)
    requires
        session_step(before, event, after, action, links, links_after, rooms, rooms_after),
        before.phase == Phase::Reading,
        event is PongReady,
    ensures
        after == before,
        action is Wait,
        rooms_after == rooms,
        ({
            let link = before.connection.link;
            let open = links.contains_key(link) && links[link].state == ConnectionState::Open;
            if open && !links_after[link].refused {
                &&& links_after[link].sent.len() == links[link].sent.len() + 1
                &&& links_after[link].sent.last().message_type == MessageType::Pong
                &&& links_after[link].sent.last().payload == event->PongReady_payload@
                &&& links_after[link].sent.drop_last() == links[link].sent
            } else {
                links_after[link].sent == links[link].sent
            }
        }),
        links_after[before.connection.link].state == links[before.connection.link].state,
        links_after[before.connection.link].held == links[before.connection.link].held,
{
    let sent = links[before.connection.link].sent;
    let pong = MessageView { message_type: MessageType::Pong, payload: event->PongReady_payload@ };
    assert(sent.push(pong).drop_last() =~= sent);
}

/// Whenever a session waits for its writer, its connection is closing, and a close
/// message without a payload stands last on its queue unless the queue refuses. All
/// that was queued before is still there.
pub proof fn session_closes_its_connection(
    before: SessionView,
    event: SessionEvent,
    after: SessionView,
    action: SessionAction,
    links: Map<u64, LinkView>,
    links_after: Map<u64, LinkView>,
    rooms: RoomsView,
    rooms_after: RoomsView,
)
    requires
        session_step(before, event, after, action, links, links_after, rooms, rooms_after),
        action is AwaitWriter,
        links.contains_key(before.connection.link),
    ensures
        after.phase == Phase::Draining,
        links_after.contains_key(before.connection.link),
        links_after[before.connection.link].state == ConnectionState::Closing,
        links_after[before.connection.link].held == links[before.connection.link].held,
        links[before.connection.link].sent.is_prefix_of(
            links_after[before.connection.link].sent,
        ),
        !links_after[before.connection.link].refused ==> {
            let sent = links_after[before.connection.link].sent;
            &&& sent.len() == links[before.connection.link].sent.len() + 1
            &&& sent.last().message_type == MessageType::Close
            &&& sent.last().payload.len() == 0
        },
        rooms_after == rooms,
{
}

/// When the writer is done, the connection is closed and the handler is told;
/// nothing else changes.
pub proof fn connection_is_closed_when_its_writer_is_done(
    before: SessionView,
    event: SessionEvent,
    after: SessionView,
    action: SessionAction,
    links: Map<u64, LinkView>,
    links_after: Map<u64, LinkView>,
    rooms: RoomsView,
    rooms_after: RoomsView,
)
    requires
        session_step(before, event, after, action, links, links_after, rooms, rooms_after),
        before.phase == Phase::Draining,
        event is WriterDone,
    ensures
        after.phase == Phase::Departing,
        action is TellDisconnect,
        links.contains_key(before.connection.link) ==> {
            &&& links_after[before.connection.link].state == ConnectionState::Closed
            &&& links_after[before.connection.link].sent == links[before.connection.link].sent
            &&& links_after[before.connection.link].held == links[before.connection.link].held
        },
        after.last_read == before.last_read,
        after.missed_heartbeats == before.missed_heartbeats,
        after.connection == before.connection,
        rooms_after == rooms,
{
}

/// When the handler knows, the connection is forgotten, in the rooms too, and every
/// other connection is still registered. No queue changes.
pub proof fn connection_is_forgotten_at_the_end(
    before: SessionView,
    event: SessionEvent,
    after: SessionView,
    action: SessionAction,
    links: Map<u64, LinkView>,
    links_after: Map<u64, LinkView>,
    rooms: RoomsView,
    rooms_after: RoomsView,
    room: Seq<char>,
    name: Seq<char>,
)
    requires
        session_step(before, event, after, action, links, links_after, rooms, rooms_after),
        before.phase == Phase::Departing,
        event is DisconnectTold,
    ensures
        after.phase == Phase::Gone,
        action is Finished,
        links_after == links,
        rooms_after.connections == rooms.connections.remove(before.connection.id),
        rooms_after.memberships == rooms.memberships.remove(before.connection.id),
        rooms_after.rooms.contains_key(room) ==> {
            &&& rooms.rooms.contains_key(room)
            &&& rooms_after.rooms[room].contains(name) <==> (rooms.rooms[room].contains(name) && name
                != before.connection.id)
        },
        rooms.rooms.contains_key(room) && rooms.rooms[room].contains(name) && name
            != before.connection.id ==> rooms_after.rooms.contains_key(room),
{
    unregistering_removes_one_connection(rooms, before.connection.id, name, room);
}

/// An event that is not the one waited for changes nothing.
pub proof fn events_out_of_turn_are_ignored(
    before: SessionView,
    event: SessionEvent,
    after: SessionView,
    action: SessionAction,
    links: Map<u64, LinkView>,
    links_after: Map<u64, LinkView>,
    rooms: RoomsView,
    rooms_after: RoomsView,
)
    requires
        session_step(before, event, after, action, links, links_after, rooms, rooms_after),
        !(before.phase == Phase::Greeting && event is ConnectTold),
        !(before.phase == Phase::Reading && (event is HeartbeatDue || event is IdleElapsed
            || event is Read || event is PongReady)),
        !(before.phase == Phase::Failing && event is ErrorTold),
        !(before.phase == Phase::Draining && event is WriterDone),
        !(before.phase == Phase::Departing && event is DisconnectTold),
    ensures
        after == before,
        action is Nothing,
        links_after == links,
        rooms_after == rooms,
{
}

} // verus!
