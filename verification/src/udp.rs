//! Relaying datagrams between many clients and one server.
//!
//! Clients send to a listening socket. Each client is given a slot, with a socket of its own towards
//! the server, so that the answers of the server can be told apart.
use vstd::prelude::*;
use crate::addr::SocketAddr;
use crate::event::{agrees, armed, arming, toggled, toggling, Command, Event, EventSourceId};
use crate::events::Events;
use crate::search::{
    first_where, is_first_where, lemma_first_where_absent, lemma_first_where_found,
};

verus! {

/// The length of the longest datagram.
pub const BUFFER_SIZE: usize = 65507;

/// A datagram, with where it came from. It is empty when no data is held.
pub struct Buffer {
    pub buffer: [u8; 65507],
    pub n: usize,
    pub src: SocketAddr,
}

/// A [`Buffer`] as plain values.
#[verifier::ext_equal]
pub struct BufferView {
    pub room: Seq<u8>,
    pub n: int,
    pub src: SocketAddr,
}

impl View for Buffer {
    type V = BufferView;

    open spec fn view(&self) -> BufferView {
        BufferView { room: self.buffer@, n: self.n as int, src: self.src }
    }
}

impl BufferView {
    /// The data that is held.
    pub open spec fn held(self) -> Seq<u8> {
        self.room.take(self.n)
    }

    /// The buffer without its data.
    pub open spec fn emptied(self) -> BufferView {
        BufferView { n: 0, ..self }
    }

    /// A buffer as it is at first.
    pub open spec fn is_blank(self) -> bool {
        &&& self.room == Seq::new(BUFFER_SIZE as nat, |i: int| 0u8)
        &&& self.n == 0
        &&& self.src.is_unspecified()
    }
}

impl Default for Buffer {
    fn default() -> (r: Self)
        ensures
            r.wf(),
            r@.is_blank(),
    {
        let r = Buffer { buffer: [0; 65507], n: 0, src: SocketAddr::unspecified() };
        assert(r@.room =~= Seq::new(BUFFER_SIZE as nat, |i: int| 0u8));
        r
    }
}

impl Buffer {
    pub open spec fn wf(&self) -> bool {
        self.n <= BUFFER_SIZE
    }

    /// Takes the data out, if any is held.
    pub fn take_slice(&mut self) -> (r: Option<(&[u8], SocketAddr)>)
        requires
            old(self).wf(),
        ensures
            match r {
                Some((slice, src)) => {
                    &&& old(self)@.held().len() > 0
                    &&& slice@ == old(self)@.held()
                    &&& src == old(self)@.src
                },
                None => old(self)@.held().len() == 0,
            },
            final(self).wf(),
            final(self)@ == old(self)@.emptied(),
    {
        if self.n > 0 {
            let slice = &self.buffer[0..self.n];
            self.n = 0;
            Some((slice, self.src))
        } else {
            None
        }
    }

    /// The room for a datagram, its length and where it came from; nothing while data is held.
    pub fn get_slice_mut(&mut self) -> (r: Option<(&mut [u8], &mut usize, &mut SocketAddr)>)
        requires
            old(self).wf(),
        ensures
            match r {
                Some((slice, n, src)) => {
                    &&& old(self)@.held().len() == 0
                    &&& slice@ == old(self)@.room
                    &&& *n == 0
                    &&& *src == old(self)@.src
                    &&& final(self)@ == (BufferView {
                        room: final(slice)@,
                        n: *final(n) as int,
                        src: *final(src),
                    })
                    &&& *final(n) <= BUFFER_SIZE ==> final(self).wf()
                },
                None => old(self)@.held().len() > 0 && *final(self) == *old(self),
            },
    {
        if self.n > 0 {
            None
        } else {
            Some((&mut self.buffer, &mut self.n, &mut self.src))
        }
    }

    /// Drops the data, so that the buffer can be filled again.
    pub fn reset(&mut self)
        requires
            old(self).wf(),
        ensures
            final(self).wf(),
            final(self)@ == old(self)@.emptied(),
    {
        self.n = 0;
    }
}

/// A slot for a client.
pub struct Client {
    /// The source of the socket towards the server.
    pub id: EventSourceId,
    /// The address of the client that has the slot.
    pub addr: Option<SocketAddr>,
    /// What the server sent.
    pub buffer_in: Buffer,
    /// What the client sent.
    pub buffer_out: Buffer,
    /// When the client was last heard of.
    pub last_activity: u64,
}

#[verifier::ext_equal]
pub struct ClientView {
    pub id: EventSourceId,
    pub addr: Option<SocketAddr>,
    pub buffer_in: BufferView,
    pub buffer_out: BufferView,
    pub last_activity: u64,
}

impl View for Client {
    type V = ClientView;

    open spec fn view(&self) -> ClientView {
        ClientView {
            id: self.id,
            addr: self.addr,
            buffer_in: self.buffer_in@,
            buffer_out: self.buffer_out@,
            last_activity: self.last_activity,
        }
    }
}

impl Client {
    pub open spec fn wf(&self) -> bool {
        self.buffer_in.wf() && self.buffer_out.wf()
    }

    /// A slot that no client has.
    pub fn new(id: EventSourceId) -> (r: Client)
        ensures
            r.wf(),
            r.id == id,
            r.addr is None,
            r@.buffer_in.is_blank(),
            r@.buffer_out.is_blank(),
            r.last_activity == 0,
    {
        Client {
            id,
            addr: None,
            buffer_in: Buffer::default(),
            buffer_out: Buffer::default(),
            last_activity: 0,
        }
    }
}

/// The slot for a client: the one it has; otherwise the first that no client has, or whose client
/// was not heard of since `timeout_threshold`.
pub open spec fn slot(
    clients: Seq<ClientView>,
    addr: SocketAddr,
    timeout_threshold: int,
) -> Option<int> {
    match first_where(clients, |c: ClientView| c.addr == Some(addr)) {
        Some(k) => Some(k),
        None => first_where(
            clients,
            |c: ClientView| c.addr is None || c.last_activity < timeout_threshold,
        ),
    }
}

pub open spec fn views(clients: Seq<Client>) -> Seq<ClientView> {
    clients.map_values(|c: Client| c@)
}

/// Finds the slot for a client: the one it has, or one that can be used.
pub fn find_client(clients: &[Client], addr: SocketAddr, timeout_threshold: u64) -> (r: Option<
    usize,
>)
    ensures
        match r {
            Some(i) => i < clients@.len() && slot(
                views(clients@),
                addr,
                timeout_threshold as int,
            ) == Some(i as int),
            None => slot(views(clients@), addr, timeout_threshold as int) is None,
        },
{
    let ghost v = views(clients@);
    let ghost same = |c: ClientView| c.addr == Some(addr);
    let ghost free = |c: ClientView| c.addr is None || c.last_activity < timeout_threshold as int;
    let mut slot: Option<usize> = None;
    let mut i: usize = 0;
    while i < clients.len()
        invariant
            i <= clients@.len(),
            v == views(clients@),
            same == (|c: ClientView| c.addr == Some(addr)),
            free == (|c: ClientView| c.addr is None || c.last_activity < timeout_threshold as int),
            forall|j: int| 0 <= j < i ==> !same(#[trigger] v[j]),
            match slot {
                Some(k) => k < i && is_first_where(v, free, k as int),
                None => forall|j: int| 0 <= j < i ==> !free(#[trigger] v[j]),
            },
        decreases clients@.len() - i,
    {
        let client = &clients[i];
        assert(v[i as int] == client@);
        match client.addr {
            Some(x) => {
                if x == addr {
                    proof {
                        assert(is_first_where(v, same, i as int));
                        lemma_first_where_found(v, same, i as int);
                    }
                    return Some(i);
                }
            },
            None => {
                if slot.is_none() {
                    slot = Some(i);
                }
            },
        }
        if client.last_activity < timeout_threshold && slot.is_none() {
            slot = Some(i);
        }
        i = i + 1;
    }
    proof {
        lemma_first_where_absent(v, same);
        match slot {
            Some(k) => lemma_first_where_found(v, free, k as int),
            None => lemma_first_where_absent(v, free),
        }
    }
    slot
}

/// All that is relayed through one listening socket.
pub struct State {
    pub clients: Vec<Client>,
    /// The datagram that was just received on the listening socket.
    pub buffer_in: Buffer,
}

#[verifier::ext_equal]
pub struct StateView {
    pub clients: Seq<ClientView>,
    pub buffer_in: BufferView,
}

impl View for State {
    type V = StateView;

    open spec fn view(&self) -> StateView {
        StateView { clients: views(self.clients@), buffer_in: self.buffer_in@ }
    }
}

/// A datagram to be sent.
pub struct Datagram {
    pub payload: Vec<u8>,
    pub to: SocketAddr,
}

#[verifier::ext_equal]
pub struct DatagramView {
    pub payload: Seq<u8>,
    pub to: SocketAddr,
}

impl View for Datagram {
    type V = DatagramView;

    open spec fn view(&self) -> DatagramView {
        DatagramView { payload: self.payload@, to: self.to }
    }
}

/// What became of a datagram from a client.
pub enum Received {
    /// It waits in a slot to be sent to the server. `new_client` tells whether the slot was given
    /// to a client just now. `source` is the source of the socket towards the server, which has to
    /// wait until it can be written to ([`State::await_writable`]).
    Delivered { slot: usize, new_client: bool, source: EventSourceId },
    /// There is no slot for the client.
    Rejected,
}

/// What is done when there is something to read on the listening socket.
#[derive(Clone, Copy, Debug, PartialEq, Eq, Structural)]
pub enum Readable {
    /// A datagram is to be received ([`State::receive`]).
    Receive,
    /// There is no room for a datagram ([`State::suspend`]).
    Suspend,
}

/// Whether a slot that is used at `timeout_threshold` counts as given to a new client.
pub open spec fn is_new(client: ClientView, timeout_threshold: int) -> bool {
    client.addr is None || client.last_activity < timeout_threshold
}

impl StateView {
    /// The received datagram is put in a slot, and the slot is its client's.
    pub open spec fn delivered(self, i: int, now: u64) -> StateView {
        let client = self.clients[i];
        StateView {
            clients: self.clients.update(
                i,
                ClientView {
                    addr: Some(self.buffer_in.src),
                    last_activity: now,
                    buffer_out: self.buffer_in,
                    ..client
                },
            ),
            buffer_in: client.buffer_out.emptied(),
        }
    }

    /// The received datagram is dropped.
    pub open spec fn dropped(self) -> StateView {
        StateView { buffer_in: self.buffer_in.emptied(), ..self }
    }

    /// The datagram in slot `i` for the server is taken out.
    pub open spec fn forwarded(self, i: int) -> StateView {
        let client = self.clients[i];
        StateView {
            clients: self.clients.update(
                i,
                ClientView { buffer_out: client.buffer_out.emptied(), ..client },
            ),
            ..self
        }
    }

    /// The datagrams for the clients are taken out.
    pub open spec fn flushed(self) -> StateView {
        StateView { clients: self.clients.map_values(|c: ClientView| answered(c)), ..self }
    }
}

/// The slots with a datagram of the server put in slot `i`.
pub open spec fn server_sent(state: StateView, i: int, datagram: BufferView) -> StateView {
    StateView {
        clients: state.clients.update(
            i,
            ClientView { buffer_in: datagram, ..state.clients[i] },
        ),
        ..state
    }
}

/// A slot after the datagram for its client was taken out.
pub open spec fn answered(client: ClientView) -> ClientView {
    if client.addr is Some {
        ClientView { buffer_in: client.buffer_in.emptied(), ..client }
    } else {
        client
    }
}

/// The datagrams that wait to be sent to clients, in the order of the slots.
pub open spec fn replies(clients: Seq<ClientView>) -> Seq<DatagramView>
    decreases clients.len(),
{
    if clients.len() == 0 {
        Seq::empty()
    } else {
        let rest = replies(clients.drop_last());
        let client = clients.last();
        match client.addr {
            Some(addr) => if client.buffer_in.held().len() > 0 {
                rest.push(DatagramView { payload: client.buffer_in.held(), to: addr })
            } else {
                rest
            },
            None => rest,
        }
    }
}

fn copied(bytes: &[u8]) -> (r: Vec<u8>)
    ensures
        r@ == bytes@,
{
    let mut out: Vec<u8> = Vec::new();
    out.extend_from_slice(bytes);
    assert(out@ =~= bytes@);
    out
}

impl Default for State {
    fn default() -> (r: Self)
        ensures
            r.wf(),
            r.clients@.len() == 0,
            r@.buffer_in.is_blank(),
    {
        State { clients: Vec::new(), buffer_in: Buffer::default() }
    }
}

impl State {
    pub open spec fn wf(&self) -> bool {
        &&& self.buffer_in.wf()
        &&& forall|i: int| 0 <= i < self.clients@.len() ==> (#[trigger] self.clients@[i]).wf()
    }

    /// What to do when there is something to read on the listening socket: a datagram is received
    /// when there is room for it.
    pub fn readable(&self) -> (r: Readable)
        requires
            self.wf(),
        ensures
            r == if self@.buffer_in.held().len() == 0 {
                Readable::Receive
            } else {
                Readable::Suspend
            },
    {
        if self.buffer_in.n > 0 {
            Readable::Suspend
        } else {
            Readable::Receive
        }
    }

    /// Whether a datagram is received when there is something to read on the socket of slot `i`: only
    /// when there is room for it. Otherwise it is left where it is.
    pub fn slot_readable(&self, i: usize) -> (r: bool)
        requires
            self.wf(),
            i < self.clients@.len(),
        ensures
            r == (self@.clients[i as int].buffer_in.held().len() == 0),
    {
        self.clients[i].buffer_in.n == 0
    }

    /// Puts a datagram that the server sent in slot `i`, when there is room for it. The listening
    /// socket then has to wait until it can be written to ([`State::await_writable`]).
    pub fn answer(&mut self, i: usize, datagram: Buffer) -> (r: bool)
        requires
            old(self).wf(),
            datagram.wf(),
            i < old(self).clients@.len(),
        ensures
            final(self).wf(),
            r == (old(self)@.clients[i as int].buffer_in.held().len() == 0),
            final(self)@ == if r {
                server_sent(old(self)@, i as int, datagram@)
            } else {
                old(self)@
            },
    {
        if !self.slot_readable(i) {
            return false;
        }
        let client = &mut self.clients[i];
        client.buffer_in = datagram;
        assert(self@.clients =~= server_sent(old(self)@, i as int, datagram@).clients);
        true
    }

    /// Deals with the datagram that was just received on the listening socket: it is put in the slot
    /// of its client, to be sent to the server, or dropped where there is no slot.
    pub fn receive(&mut self, now: u64, network_timeout: u64) -> (r: Received)
        requires
            old(self).wf(),
            network_timeout <= now,
        ensures
            final(self).wf(),
            match slot(old(self)@.clients, old(self)@.buffer_in.src, now - network_timeout) {
                Some(i) => {
                    let client = old(self)@.clients[i];
                    &&& r == (Received::Delivered {
                        slot: i as usize,
                        new_client: is_new(client, now - network_timeout),
                        source: client.id,
                    })
                    &&& 0 <= i < old(self)@.clients.len()
                    &&& i <= usize::MAX
                    &&& final(self)@ == old(self)@.delivered(i, now)
                },
                None => {
                    &&& r == Received::Rejected
                    &&& final(self)@ == old(self)@.dropped()
                },
            },
            final(self)@.buffer_in.held().len() == 0,
    {
        let src = self.buffer_in.src;
        let timeout_threshold = now - network_timeout;
        let r = match find_client(self.clients.as_slice(), src, timeout_threshold) {
            Some(i) => {
                let client = &mut self.clients[i];
                let new_client = client.addr.is_none() || client.last_activity
                    < timeout_threshold;
                client.addr = Some(src);
                client.last_activity = now;
                core::mem::swap(&mut client.buffer_out, &mut self.buffer_in);
                Received::Delivered { slot: i, new_client, source: client.id }
            },
            None => Received::Rejected,
        };
        self.buffer_in.reset();
        proof {
            assert(self@.clients =~= (match r {
                Received::Delivered { slot, .. } => old(self)@.delivered(slot as int, now).clients,
                Received::Rejected => old(self)@.clients,
            }));
        }
        r
    }

    /// There is something to read on the listening socket, whose source is `source`, while there is
    /// no room for it: the events that the source waits for are toggled. `res` and `mask` are what
    /// came back when they were read from the event loop.
    pub fn suspend(&self, event: &mut Event, source: EventSourceId, res: i32, mask: u32) -> (r:
        Result<Option<Command>, &'static str>)
        ensures
            final(event)@ == toggled(old(event)@, source, Events(Events::EPOLLIN), res, mask),
            agrees(r, toggling(old(event)@, source, Events(Events::EPOLLIN), res, mask)),
    {
        event.toggle(source, Events(Events::EPOLLIN), res, mask)
    }

    /// A datagram waits to be sent: the socket that it is sent on, whose source is `source`, waits
    /// until it can be written to. `res` and `mask` are what came back when the events of the source
    /// were read from the event loop.
    pub fn await_writable(
        &self,
        event: &mut Event,
        source: EventSourceId,
        res: i32,
        mask: u32,
    ) -> (r: Result<Option<Command>, &'static str>)
        ensures
            final(event)@ == armed(old(event)@, source, Events(Events::EPOLLOUT), res, mask),
            agrees(r, arming(old(event)@, source, Events(Events::EPOLLOUT), res, mask)),
    {
        event.arm(source, Events(Events::EPOLLOUT), res, mask)
    }

    /// Takes out the datagram in slot `i` that waits to be sent to the server, when the socket
    /// towards the server can be written to. `source` is the source of that socket; it stops waiting
    /// for this. `res` and `mask` are what came back when the events of the source were read from the
    /// event loop; where that failed, nothing is taken out.
    pub fn forward(
        &mut self,
        event: &mut Event,
        source: EventSourceId,
        i: usize,
        res: i32,
        mask: u32,
    ) -> (r: Result<(Option<Command>, Option<Vec<u8>>), &'static str>)
        requires
            old(self).wf(),
            i < old(self).clients@.len(),
        ensures
            final(self).wf(),
            final(event)@ == toggled(old(event)@, source, Events(Events::EPOLLOUT), res, mask),
            match toggling(old(event)@, source, Events(Events::EPOLLOUT), res, mask) {
                Ok(command) => {
                    &&& final(self)@ == old(self)@.forwarded(i as int)
                    &&& r matches Ok((told, sent))
                    &&& told == command
                    &&& match sent {
                        Some(payload) => payload@.len() > 0 && payload@ == old(
                            self,
                        )@.clients[i as int].buffer_out.held(),
                        None => old(self)@.clients[i as int].buffer_out.held().len() == 0,
                    }
                },
                Err(complaint) => {
                    &&& final(self)@ == old(self)@
                    &&& r matches Err(message) && message@ == complaint
                },
            },
    {
        let command = match event.toggle(source, Events(Events::EPOLLOUT), res, mask) {
            Ok(command) => command,
            Err(message) => {
                return Err(message);
            },
        };
        let client = &mut self.clients[i];
        let payload = match client.buffer_out.take_slice() {
            Some((slice, _)) => Some(copied(slice)),
            None => None,
        };
        assert(self@.clients =~= old(self)@.forwarded(i as int).clients);
        Ok((command, payload))
    }

    /// Takes out the datagrams that wait to be sent to clients, when the listening socket can be
    /// written to. `source` is the source of the listening socket; it stops waiting for this. `res`
    /// and `mask` are what came back when the events of the source were read from the event loop;
    /// where that failed, nothing is taken out.
    pub fn flush(&mut self, event: &mut Event, source: EventSourceId, res: i32, mask: u32) -> (r:
        Result<(Option<Command>, Vec<Datagram>), &'static str>)
        requires
            old(self).wf(),
        ensures
            final(self).wf(),
            final(event)@ == toggled(old(event)@, source, Events(Events::EPOLLOUT), res, mask),
            match toggling(old(event)@, source, Events(Events::EPOLLOUT), res, mask) {
                Ok(command) => {
                    &&& final(self)@ == old(self)@.flushed()
                    &&& r matches Ok((told, sent))
                    &&& told == command
                    &&& sent@.map_values(|d: Datagram| d@) == replies(old(self)@.clients)
                },
                Err(complaint) => {
                    &&& final(self)@ == old(self)@
                    &&& r matches Err(message) && message@ == complaint
                },
            },
    {
        let command = match event.toggle(source, Events(Events::EPOLLOUT), res, mask) {
            Ok(command) => command,
            Err(message) => {
                return Err(message);
            },
        };
        let out = self.take_replies();
        Ok((command, out))
    }

    fn take_replies(&mut self) -> (out: Vec<Datagram>)
        requires
            old(self).wf(),
        ensures
            final(self).wf(),
            final(self)@ == old(self)@.flushed(),
            out@.map_values(|d: Datagram| d@) == replies(old(self)@.clients),
    {
        let mut out: Vec<Datagram> = Vec::new();
        let mut i: usize = 0;
        let ghost before = self@.clients;
        assert(before.take(0) =~= Seq::empty());
        assert(out@.map_values(|d: Datagram| d@) =~= Seq::empty());
        while i < self.clients.len()
            invariant
                self.wf(),
                before == old(self)@.clients,
                self@.buffer_in == old(self)@.buffer_in,
                self.clients@.len() == before.len(),
                i <= before.len(),
                forall|j: int| 0 <= j < i ==> (#[trigger] self.clients@[j])@ == answered(before[j]),
                forall|j: int| i <= j < before.len() ==> (#[trigger] self.clients@[j])@ == before[j],
                out@.map_values(|d: Datagram| d@) == replies(before.take(i as int)),
            decreases before.len() - i,
        {
            let ghost client_before = self.clients@[i as int]@;
            let client = &mut self.clients[i];
            if let Some(addr) = client.addr {
                if let Some((slice, _)) = client.buffer_in.take_slice() {
                    out.push(Datagram { payload: copied(slice), to: addr });
                }
            }
            proof {
                assert(before.take(i + 1).drop_last() =~= before.take(i as int));
                assert(before.take(i + 1).last() == client_before);
                assert(out@.map_values(|d: Datagram| d@) =~= replies(before.take(i + 1)));
            }
            i = i + 1;
        }
        proof {
            assert(before.take(i as int) =~= before);
            assert(self@.clients =~= old(self)@.flushed().clients);
        }
        out
    }
}

} // verus!
