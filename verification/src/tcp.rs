//! Accepting connections up to a limit.
use vstd::prelude::*;
use crate::event::{lookup, position, Event, EventSourceId, Kind};
use crate::pipe::Pipe;

verus! {

/// A connection and its counterpart towards the server.
pub struct Client {
    pub source_in: EventSourceId,
    pub source_out: EventSourceId,
    pub pipe_in: Pipe,
    pub pipe_out: Pipe,
    pub closed: bool,
}

/// All connections that were accepted on a listening socket.
pub struct State {
    pub clients: Vec<Client>,
}

/// How many connections are not closed.
pub open spec fn open_connections(clients: Seq<Client>) -> nat {
    clients.filter(|c: Client| !c.closed).len()
}

/// What became of a connection.
#[derive(Clone, Copy, Debug, PartialEq, Eq, Structural)]
pub enum Opened {
    /// There are no pipes for it.
    NoPipes,
    /// No more connections are awaited. The event loop has to forget the source of the listening
    /// socket under the given name, if any.
    Closed { forget: Option<EventSourceId> },
}

impl Default for State {
    fn default() -> (r: Self)
        ensures
            r.clients@.len() == 0,
    {
        State { clients: Vec::new() }
    }
}

impl State {
    /// Whether there is room for one more connection.
    pub fn has_room(&self, connections_max: usize) -> (r: bool)
        ensures
            r == (open_connections(self.clients@) < connections_max),
    {
        let ghost p = |c: Client| !c.closed;
        let mut count: usize = 0;
        let mut i: usize = 0;
        proof {
            reveal(Seq::filter);
            assert(self.clients@.take(0) =~= Seq::empty());
        }
        while i < self.clients.len()
            invariant
                i <= self.clients@.len(),
                count <= i,
                p == (|c: Client| !c.closed),
                count == self.clients@.take(i as int).filter(p).len(),
            decreases self.clients@.len() - i,
        {
            proof {
                reveal(Seq::filter);
                assert(self.clients@.take(i + 1).drop_last() =~= self.clients@.take(i as int));
            }
            if !self.clients[i].closed {
                count = count + 1;
            }
            i = i + 1;
        }
        assert(self.clients@.take(i as int) =~= self.clients@);
        count < connections_max
    }

    /// Deals with a connection for which there is room, given the pipes that were made for it, if
    /// they could be. `listener` is the source of the listening socket.
    pub fn open(
        &self,
        event: &mut Event,
        listener: EventSourceId,
        pipe_in: Option<Pipe>,
        pipe_out: Option<Pipe>,
    ) -> (r: Opened)
        requires
            pipe_in is Some && pipe_out is Some ==> lookup(old(event)@, Kind::Io, listener) is Some,
        ensures
            if pipe_in is Some && pipe_out is Some {
                &&& position(old(event)@, listener) matches Some(k)
                &&& final(event)@ == old(event)@.remove(k)
                &&& r == (Opened::Closed {
                    forget: if listener != 0 { Some(listener) } else { None },
                })
            } else {
                &&& final(event)@ == old(event)@
                &&& r == Opened::NoPipes
            },
    {
        if pipe_in.is_none() || pipe_out.is_none() {
            return Opened::NoPipes;
        }
        proof {
            lemma_found_by_id(event@, listener);
        }
        let source = event.get_event_source_io(listener).unwrap();
        let id = source.id();
        source.release();
        assert(event@ =~= old(event)@);
        Opened::Closed { forget: event.remove_event_source(id) }
    }
}

/// A connection that is taken only where there is room leaves no more connections open than the
/// limit.
pub proof fn law_connections_stay_within_the_limit(
    clients: Seq<Client>,
    client: Client,
    connections_max: nat,
)
    requires
        open_connections(clients) < connections_max,
    ensures
        open_connections(clients.push(client)) <= connections_max,
        !client.closed ==> open_connections(clients.push(client)) == open_connections(clients) + 1,
{
    reveal(Seq::filter);
    assert(clients.push(client).drop_last() =~= clients);
}

/// Each connection that is not closed counts once, and the others do not count.
pub proof fn law_open_connections_are_counted(clients: Seq<Client>, client: Client)
    ensures
        open_connections(Seq::empty()) == 0,
        open_connections(clients.push(client)) == open_connections(clients) + if client.closed {
            0int
        } else {
            1int
        },
{
    reveal(Seq::filter);
    assert(clients.push(client).drop_last() =~= clients);
}

/// A source that is found by its kind and id is found by its id.
proof fn lemma_found_by_id(sources: Seq<crate::event::EventSource>, id: EventSourceId)
    requires
        lookup(sources, Kind::Io, id) is Some,
    ensures
        position(sources, id) is Some,
        lookup(sources, Kind::Io, id) matches Some(k) && 0 <= k < sources.len() && sources[k].is_available(
            Kind::Io,
            id,
        ),
{
    let p = |s: crate::event::EventSource| s.is_available(Kind::Io, id);
    crate::search::lemma_first_where(sources, p);
    let k = lookup(sources, Kind::Io, id).unwrap();
    crate::search::lemma_first_where_exists(
        sources,
        |s: crate::event::EventSource| s.source_id() == id,
        k,
    );
}

/// Every call of [`State::has_room`] tells whether one more connection is within the limit.
pub proof fn law_has_room(state: State, client: Client, connections_max: usize, r: bool)
    requires
        call_ensures(State::has_room, (&state, connections_max), r),
        !client.closed,
    ensures
        r <==> open_connections(state.clients@.push(client)) <= connections_max,
{
    law_open_connections_are_counted(state.clients@, client);
}

} // verus!
