//! What holds of calls, of what goes into them and of what comes out, and of one call after another.
//!
//! For each operation a predicate over plain values tells what it is for; a law says that every call
//! of the operation meets it, and others say what follows for several calls.
use vstd::prelude::*;
use crate::addr::SocketAddr;
use crate::event::{Command, Event, EventSourceId};
use crate::udp::{
    find_client, replies, views, Buffer, Client, Datagram, Readable, Received, State,
};
use crate::udp_laws::{
    is_reply, law_flushing_keeps_every_client, law_new_clients_are_noticed,
    law_replies_come_from_slots, law_slot_choice, lemma_reply_is_sent,
};

verus! {

/// What a buffer holds.
pub open spec fn bytes(buffer: Buffer) -> Seq<u8> {
    buffer.buffer@.take(buffer.n as int)
}

/// Whether two slots are the same.
pub open spec fn same_slot(a: Client, b: Client) -> bool {
    &&& a.id == b.id
    &&& a.addr == b.addr
    &&& a.last_activity == b.last_activity
    &&& bytes(a.buffer_in) == bytes(b.buffer_in)
    &&& bytes(a.buffer_out) == bytes(b.buffer_out)
}

/// Whether the client of a slot was heard of within the timeout.
pub open spec fn is_active(client: Client, now: u64, network_timeout: u64) -> bool {
    client.addr is Some && client.last_activity >= now - network_timeout
}

/// A datagram that is received goes to a slot that is its client's own, that no client has, or whose client
/// was not heard of within the timeout; the slot is then its client's, heard of now, and the
/// datagram waits there. It is rejected only where every slot is another client's that was heard of
/// within the timeout. No other slot changes, and there is room for the next datagram.
pub open spec fn received(
    before: State,
    now: u64,
    network_timeout: u64,
    after: State,
    r: Received,
) -> bool {
    let src = before.buffer_in.src;
    &&& after.wf()
    &&& after.clients@.len() == before.clients@.len()
    &&& after.buffer_in.n == 0
    &&& match r {
        Received::Delivered { slot, new_client, source } => {
            let (then, client) = (before.clients@[slot as int], after.clients@[slot as int]);
            &&& slot < before.clients@.len()
            &&& then.addr == Some(src) || !is_active(then, now, network_timeout)
            &&& new_client == (then.addr != Some(src) || !is_active(then, now, network_timeout))
            &&& source == then.id
            &&& client.id == then.id
            &&& client.addr == Some(src)
            &&& client.last_activity == now
            &&& bytes(client.buffer_out) == bytes(before.buffer_in)
            &&& bytes(client.buffer_in) == bytes(then.buffer_in)
            &&& forall|j: int|
                0 <= j < before.clients@.len() && j != slot ==> same_slot(
                    #[trigger] after.clients@[j],
                    before.clients@[j],
                )
            &&& forall|j: int|
                0 <= j < before.clients@.len() && (#[trigger] before.clients@[j]).addr == Some(src)
                    ==> then.addr == Some(src) && slot <= j
            &&& forall|j: int|
                0 <= j < slot && then.addr != Some(src) ==> is_active(
                    #[trigger] before.clients@[j],
                    now,
                    network_timeout,
                )
        },
        Received::Rejected => forall|j: int|
            0 <= j < before.clients@.len() ==> {
                &&& is_active(#[trigger] before.clients@[j], now, network_timeout)
                &&& before.clients@[j].addr != Some(src)
                &&& same_slot(after.clients@[j], before.clients@[j])
            },
    }
}

/// Every call of [`State::receive`] does what it is for.
pub proof fn law_receive()
    ensures
        forall|s: &mut State, now: u64, network_timeout: u64, r: Received| #[trigger]
            call_ensures(State::receive, (s, now, network_timeout), r) && (*s).wf()
                && network_timeout <= now ==> received(*s, now, network_timeout, *final(s), r),
{
    assert forall|s: &mut State, now: u64, network_timeout: u64, r: Received| #[trigger]
        call_ensures(State::receive, (s, now, network_timeout), r) && (*s).wf() && network_timeout
            <= now implies received(*s, now, network_timeout, *final(s), r) by {
        let (before, after) = (*s, *final(s));
        let threshold = now - network_timeout;
        let src = before.buffer_in.src;
        law_slot_choice(before@.clients, src, threshold);
        assert(after@.clients.len() == before@.clients.len());
        assert(after@.clients.len() == after.clients@.len());
        assert forall|j: int| 0 <= j < before.clients@.len() implies before@.clients[j]
            == #[trigger] before.clients@[j]@ && after@.clients[j] == after.clients@[j]@ by {}
        match r {
            Received::Delivered { slot, .. } => {
                law_new_clients_are_noticed(before@.clients, src, threshold, slot as int);
                assert forall|j: int|
                    0 <= j < before.clients@.len() && j != slot implies same_slot(
                    #[trigger] after.clients@[j],
                    before.clients@[j],
                ) by {
                    assert(after@.clients[j] == before@.clients[j]);
                    assert(before@.clients[j] == before.clients@[j]@);
                }
                assert(before@.clients[slot as int] == before.clients@[slot as int]@);
                assert(after@.clients[slot as int] == after.clients@[slot as int]@);
                assert forall|j: int|
                    0 <= j < before.clients@.len() && (#[trigger] before.clients@[j]).addr == Some(
                        src,
                    ) implies before.clients@[slot as int].addr == Some(src) && slot <= j by {
                    assert(before@.clients[j] == before.clients@[j]@);
                }
                assert forall|j: int|
                    0 <= j < slot && before.clients@[slot as int].addr != Some(
                        src,
                    ) implies is_active(#[trigger] before.clients@[j], now, network_timeout) by {
                    assert(before@.clients[j] == before.clients@[j]@);
                }
            },
            Received::Rejected => {
                assert forall|j: int| 0 <= j < before.clients@.len() implies {
                    &&& is_active(#[trigger] before.clients@[j], now, network_timeout)
                    &&& before.clients@[j].addr != Some(src)
                    &&& same_slot(after.clients@[j], before.clients@[j])
                } by {
                    assert(before@.clients[j] == before.clients@[j]@);
                    assert(after@.clients[j] == before@.clients[j]);
                }
            },
        }
    }
}

/// Once a client was heard of, it is not displaced by a datagram of another client that arrives while the
/// first one has not timed out.
pub proof fn law_receive_then_receive(
    before: State,
    now: u64,
    network_timeout: u64,
    between: State,
    slot: usize,
    new_client: bool,
    source: EventSourceId,
    loaded: State,
    later: u64,
    later_timeout: u64,
    after: State,
    r: Received,
)
    requires
        received(
            before,
            now,
            network_timeout,
            between,
            Received::Delivered { slot, new_client, source },
        ),
        loaded.clients@ == between.clients@,
        loaded.buffer_in.src != before.buffer_in.src,
        received(loaded, later, later_timeout, after, r),
        later - later_timeout <= now,
    ensures
        slot < after.clients@.len(),
        same_slot(after.clients@[slot as int], between.clients@[slot as int]),
        after.clients@[slot as int].addr == Some(before.buffer_in.src),
        after.clients@[slot as int].last_activity == now,
{
    assert(is_active(loaded.clients@[slot as int], later, later_timeout));
}

/// A datagram of the server is taken exactly when nothing waits in the slot. It then waits there, and
/// nothing else changes; otherwise nothing changes at all.
pub open spec fn answer_taken(
    before: State,
    i: usize,
    datagram: Buffer,
    after: State,
    r: bool,
) -> bool {
    let (then, client) = (before.clients@[i as int], after.clients@[i as int]);
    &&& after.wf()
    &&& after.clients@.len() == before.clients@.len()
    &&& bytes(after.buffer_in) == bytes(before.buffer_in)
    &&& r == (then.buffer_in.n == 0)
    &&& bytes(client.buffer_in) == if r { bytes(datagram) } else { bytes(then.buffer_in) }
    &&& client.id == then.id
    &&& client.addr == then.addr
    &&& client.last_activity == then.last_activity
    &&& bytes(client.buffer_out) == bytes(then.buffer_out)
    &&& forall|j: int|
        0 <= j < before.clients@.len() && j != i ==> same_slot(
            #[trigger] after.clients@[j],
            before.clients@[j],
        )
}

/// Every call of [`State::answer`] does what it is for.
pub proof fn law_answer()
    ensures
        forall|s: &mut State, i: usize, datagram: Buffer, r: bool| #[trigger]
            call_ensures(State::answer, (s, i, datagram), r) && (*s).wf() && datagram.wf() && i
                < (*s).clients@.len() ==> answer_taken(*s, i, datagram, *final(s), r),
{
    assert forall|s: &mut State, i: usize, datagram: Buffer, r: bool| #[trigger]
        call_ensures(State::answer, (s, i, datagram), r) && (*s).wf() && datagram.wf() && i
            < (*s).clients@.len() implies answer_taken(*s, i, datagram, *final(s), r) by {
        let (before, after) = (*s, *final(s));
        assert(before.clients@[i as int].wf());
        assert(before@.clients[i as int] == before.clients@[i as int]@);
        assert(after@.clients.len() == before@.clients.len());
        assert(after@.clients.len() == after.clients@.len());
        assert(after@.clients[i as int] == after.clients@[i as int]@);
        assert forall|j: int| 0 <= j < before.clients@.len() && j != i implies same_slot(
            #[trigger] after.clients@[j],
            before.clients@[j],
        ) by {
            assert(before@.clients[j] == before.clients@[j]@);
            assert(after@.clients[j] == after.clients@[j]@);
            assert(after@.clients[j] == before@.clients[j]);
        }
    }
}

/// Forwarding a slot gives what waits in it for the server, if anything, and takes it out. The slot stays its
/// client's, and no other slot changes. It fails only where the events cannot be read, and then
/// nothing changes.
pub open spec fn slot_forwarded(
    before: State,
    i: usize,
    res: i32,
    after: State,
    r: Result<(Option<Command>, Option<Vec<u8>>), &'static str>,
) -> bool {
    let (then, client) = (before.clients@[i as int], after.clients@[i as int]);
    &&& after.wf()
    &&& after.clients@.len() == before.clients@.len()
    &&& bytes(after.buffer_in) == bytes(before.buffer_in)
    &&& match r {
        Ok((_, Some(payload))) => {
            &&& then.buffer_out.n > 0
            &&& payload@ == bytes(then.buffer_out)
            &&& client.buffer_out.n == 0
        },
        Ok((_, None)) => then.buffer_out.n == 0 && client.buffer_out.n == 0,
        Err(message) => {
            &&& res < 0
            &&& message@ == "Could not set events on IO event handler."@
            &&& bytes(client.buffer_out) == bytes(then.buffer_out)
        },
    }
    &&& client.id == then.id
    &&& client.addr == then.addr
    &&& client.last_activity == then.last_activity
    &&& bytes(client.buffer_in) == bytes(then.buffer_in)
    &&& forall|j: int|
        0 <= j < before.clients@.len() && j != i ==> same_slot(
            #[trigger] after.clients@[j],
            before.clients@[j],
        )
}

/// Every call of [`State::forward`] does what it is for.
pub proof fn law_forward()
    ensures
        forall|
            s: &mut State,
            event: &mut Event,
            source: EventSourceId,
            i: usize,
            res: i32,
            mask: u32,
            r: Result<(Option<Command>, Option<Vec<u8>>), &'static str>,
        | #[trigger]
            call_ensures(State::forward, (s, event, source, i, res, mask), r) && (*s).wf() && i
                < (*s).clients@.len() ==> slot_forwarded(*s, i, res, *final(s), r),
{
    assert forall|
        s: &mut State,
        event: &mut Event,
        source: EventSourceId,
        i: usize,
        res: i32,
        mask: u32,
        r: Result<(Option<Command>, Option<Vec<u8>>), &'static str>,
    | #[trigger]
        call_ensures(State::forward, (s, event, source, i, res, mask), r) && (*s).wf() && i
            < (*s).clients@.len() implies slot_forwarded(*s, i, res, *final(s), r) by {
        let (before, after) = (*s, *final(s));
        assert(before.clients@[i as int].wf());
        assert(before@.clients[i as int] == before.clients@[i as int]@);
        assert(after@.clients.len() == before@.clients.len());
        assert(after@.clients.len() == after.clients@.len());
        assert(after@.clients[i as int] == after.clients@[i as int]@);
        assert forall|j: int| 0 <= j < before.clients@.len() && j != i implies same_slot(
            #[trigger] after.clients@[j],
            before.clients@[j],
        ) by {
            assert(before@.clients[j] == before.clients@[j]@);
            assert(after@.clients[j] == after.clients@[j]@);
            assert(after@.clients[j] == before@.clients[j]);
        }
    }
}

/// What a client sent is what forwarding its slot gives, and only the first time.
pub proof fn law_receive_then_forward(
    before: State,
    now: u64,
    network_timeout: u64,
    between: State,
    slot: usize,
    new_client: bool,
    source: EventSourceId,
    res: i32,
    forwarded: State,
    command: Option<Command>,
    payload: Option<Vec<u8>>,
    later_res: i32,
    after: State,
    later_command: Option<Command>,
    rest: Option<Vec<u8>>,
)
    requires
        before.wf(),
        received(
            before,
            now,
            network_timeout,
            between,
            Received::Delivered { slot, new_client, source },
        ),
        slot_forwarded(between, slot, res, forwarded, Ok((command, payload))),
        slot_forwarded(forwarded, slot, later_res, after, Ok((later_command, rest))),
    ensures
        before.buffer_in.n > 0 ==> payload is Some,
        payload matches Some(sent) ==> sent@ == bytes(before.buffer_in),
        rest is None,
{
    assert(between.clients@[slot as int].wf());
    assert(bytes(between.clients@[slot as int].buffer_out).len()
        == between.clients@[slot as int].buffer_out.n);
    assert(bytes(before.buffer_in).len() == before.buffer_in.n);
}

/// Whether something waits in a slot for its client.
pub open spec fn waits(client: Client) -> bool {
    client.addr is Some && client.buffer_in.n > 0
}

/// Whether a datagram is what waits in a slot, for the client of the slot.
pub open spec fn is_for(datagram: Datagram, client: Client) -> bool {
    &&& waits(client)
    &&& client.addr == Some(datagram.to)
    &&& datagram.payload@ == bytes(client.buffer_in)
}

/// Whether a datagram is among those that are sent.
pub open spec fn is_sent(sent: Seq<Datagram>, client: Client) -> bool {
    exists|k: int| 0 <= k < sent.len() && is_for(#[trigger] sent[k], client)
}

/// Whether a datagram comes from a slot.
pub open spec fn comes_from(clients: Seq<Client>, datagram: Datagram) -> bool {
    exists|j: int| 0 <= j < clients.len() && is_for(datagram, #[trigger] clients[j])
}

/// Whether every datagram comes from a slot.
pub open spec fn all_come_from(clients: Seq<Client>, sent: Seq<Datagram>) -> bool {
    forall|k: int| 0 <= k < sent.len() ==> comes_from(clients, #[trigger] sent[k])
}

/// Flushing sends to the client of each slot what waits in the slot for it, in the order of the slots,
/// and nothing else, and takes it out. Every slot stays its client's, with what waits for the server. It fails only where the events
/// cannot be read, and then nothing changes.
pub open spec fn slots_flushed(
    before: State,
    res: i32,
    after: State,
    r: Result<(Option<Command>, Vec<Datagram>), &'static str>,
) -> bool {
    &&& after.wf()
    &&& after.clients@.len() == before.clients@.len()
    &&& bytes(after.buffer_in) == bytes(before.buffer_in)
    &&& match r {
        Ok((_, sent)) => {
            &&& forall|j: int|
                0 <= j < before.clients@.len() ==> {
                    let (then, client) = (before.clients@[j], #[trigger] after.clients@[j]);
                    &&& client.id == then.id
                    &&& client.addr == then.addr
                    &&& client.last_activity == then.last_activity
                    &&& bytes(client.buffer_out) == bytes(then.buffer_out)
                    &&& if then.addr is Some {
                        client.buffer_in.n == 0
                    } else {
                        bytes(client.buffer_in) == bytes(then.buffer_in)
                    }
                }
            &&& forall|j: int|
                0 <= j < before.clients@.len() && waits(#[trigger] before.clients@[j]) ==> is_sent(
                    sent@,
                    before.clients@[j],
                )
            &&& all_come_from(before.clients@, sent@)
            &&& sent@.map_values(|d: Datagram| d@) == replies(before@.clients)
        },
        Err(message) => {
            &&& res < 0
            &&& message@ == "Could not set events on IO event handler."@
            &&& forall|j: int|
                0 <= j < before.clients@.len() ==> same_slot(
                    #[trigger] after.clients@[j],
                    before.clients@[j],
                )
        },
    }
}

/// Every call of [`State::flush`] does what it is for.
pub proof fn law_flush()
    ensures
        forall|
            s: &mut State,
            event: &mut Event,
            source: EventSourceId,
            res: i32,
            mask: u32,
            r: Result<(Option<Command>, Vec<Datagram>), &'static str>,
        | #[trigger]
            call_ensures(State::flush, (s, event, source, res, mask), r) && (*s).wf()
                ==> slots_flushed(*s, res, *final(s), r),
{
    assert forall|
        s: &mut State,
        event: &mut Event,
        source: EventSourceId,
        res: i32,
        mask: u32,
        r: Result<(Option<Command>, Vec<Datagram>), &'static str>,
    | #[trigger]
        call_ensures(State::flush, (s, event, source, res, mask), r)
            && (*s).wf() implies slots_flushed(*s, res, *final(s), r) by {
        let (before, after) = (*s, *final(s));
        assert(after@.clients.len() == before@.clients.len());
        assert(after@.clients.len() == after.clients@.len());
        match r {
            Ok((_, sent)) => {
                let views = sent@.map_values(|d: Datagram| d@);
                assert forall|j: int| 0 <= j < before.clients@.len() implies {
                    let (then, client) = (before.clients@[j], #[trigger] after.clients@[j]);
                    &&& client.id == then.id
                    &&& client.addr == then.addr
                    &&& client.last_activity == then.last_activity
                    &&& bytes(client.buffer_out) == bytes(then.buffer_out)
                    &&& if then.addr is Some {
                        client.buffer_in.n == 0
                    } else {
                        bytes(client.buffer_in) == bytes(then.buffer_in)
                    }
                } by {
                    assert(before@.clients[j] == before.clients@[j]@);
                    assert(after@.clients[j] == after.clients@[j]@);
                    assert(after.clients@[j].wf());
                    law_flushing_keeps_every_client(before@, j);
                }
                assert forall|j: int|
                    0 <= j < before.clients@.len() && waits(
                        #[trigger] before.clients@[j],
                    ) implies is_sent(sent@, before.clients@[j]) by {
                    let client = before@.clients[j];
                    assert(client == before.clients@[j]@);
                    assert(before.clients@[j].wf());
                    lemma_reply_is_sent(before@.clients, j);
                    let k = choose|k: int|
                        0 <= k < views.len() && views[k] == (crate::udp::DatagramView {
                            payload: client.buffer_in.held(),
                            to: client.addr.unwrap(),
                        });
                    assert(views[k] == sent@[k]@);
                    assert(is_for(sent@[k], before.clients@[j]));
                }
                assert forall|k: int| 0 <= k < sent@.len() implies comes_from(
                    before.clients@,
                    #[trigger] sent@[k],
                ) by {
                    assert(views[k] == sent@[k]@);
                    law_replies_come_from_slots(before@.clients, k);
                    let j = choose|j: int|
                        0 <= j < before@.clients.len() && is_reply(
                            #[trigger] before@.clients[j],
                            views[k],
                        );
                    assert(before@.clients[j] == before.clients@[j]@);
                    assert(before.clients@[j].wf());
                    assert(is_for(sent@[k], before.clients@[j]));
                }
            },
            Err(_) => {
                assert forall|j: int| 0 <= j < before.clients@.len() implies same_slot(
                    #[trigger] after.clients@[j],
                    before.clients@[j],
                ) by {
                    assert(before@.clients[j] == before.clients@[j]@);
                    assert(after@.clients[j] == after.clients@[j]@);
                }
            },
        }
    }
}

/// What was sent to clients is not sent again.
pub proof fn law_flush_then_flush(
    before: State,
    res: i32,
    between: State,
    command: Option<Command>,
    sent: Vec<Datagram>,
    later_res: i32,
    after: State,
    later_command: Option<Command>,
    rest: Vec<Datagram>,
)
    requires
        slots_flushed(before, res, between, Ok((command, sent))),
        slots_flushed(between, later_res, after, Ok((later_command, rest))),
    ensures
        rest@.len() == 0,
{
    if rest@.len() > 0 {
        let datagram = rest@[0];
        assert(all_come_from(between.clients@, rest@));
        assert(comes_from(between.clients@, datagram));
        let j = choose|j: int|
            0 <= j < between.clients@.len() && is_for(datagram, #[trigger] between.clients@[j]);
        assert(waits(between.clients@[j]));
    }
}

/// What the server answers on the socket of a slot is sent to the client of the slot.
pub proof fn law_answer_then_flush(
    before: State,
    i: usize,
    datagram: Buffer,
    between: State,
    res: i32,
    after: State,
    command: Option<Command>,
    sent: Vec<Datagram>,
)
    requires
        i < before.clients@.len(),
        datagram.wf(),
        answer_taken(before, i, datagram, between, true),
        before.clients@[i as int].addr is Some,
        datagram.n > 0,
        slots_flushed(between, res, after, Ok((command, sent))),
    ensures
        exists|k: int|
            0 <= k < sent@.len() && (#[trigger] sent@[k]).payload@ == bytes(datagram) && Some(
                sent@[k].to,
            ) == before.clients@[i as int].addr,
        after.clients@[i as int].addr == before.clients@[i as int].addr,
{
    let client = between.clients@[i as int];
    assert(client.wf());
    assert(bytes(client.buffer_in).len() == client.buffer_in.n);
    assert(bytes(datagram).len() == datagram.n);
    assert(waits(client));
    assert(is_sent(sent@, client));
    let k = choose|k: int| 0 <= k < sent@.len() && is_for(#[trigger] sent@[k], client);
    assert(sent@[k].payload@ == bytes(datagram));
    assert(after.clients@[i as int].addr == client.addr);
}

/// Something is read from the listening socket, or from the socket of a slot, exactly when nothing that
/// was read before is still there.
pub proof fn law_readable(state: State, i: usize, next: Readable, room: bool)
    requires
        state.wf(),
        i < state.clients@.len(),
        call_ensures(State::readable, (&state,), next),
        call_ensures(State::slot_readable, (&state, i), room),
    ensures
        next == Readable::Receive <==> state.buffer_in.n == 0,
        next == Readable::Suspend <==> state.buffer_in.n > 0,
        room <==> state.clients@[i as int].buffer_in.n == 0,
{
    assert(state.clients@[i as int].wf());
    assert(state@.clients[i as int] == state.clients@[i as int]@);
}

/// Taking the data out of a buffer gives the bytes that were put in, with where they came from, and leaves the
/// buffer empty, as dropping them does; there is room in a buffer exactly when it is empty, and what is
/// put there is what it holds.
pub proof fn law_buffers()
    ensures
        forall|b: &mut Buffer, r: Option<(&[u8], SocketAddr)>| #[trigger]
            call_ensures(Buffer::take_slice, (b,), r) && (*b).wf() ==> {
                &&& (*final(b)).n == 0
                &&& match r {
                    Some((slice, src)) => {
                        &&& (*b).n > 0
                        &&& slice@ == bytes(*b)
                        &&& src == (*b).src
                    },
                    None => (*b).n == 0,
                }
            },
        forall|b: &mut Buffer, r: ()| #[trigger]
            call_ensures(Buffer::reset, (b,), r) && (*b).wf() ==> (*final(b)).n == 0,
        forall|b: &mut Buffer, r: Option<(&mut [u8], &mut usize, &mut SocketAddr)>| #[trigger]
            call_ensures(Buffer::get_slice_mut, (b,), r) && (*b).wf() ==> match r {
                Some((slice, n, src)) => {
                    &&& (*b).n == 0
                    &&& (*slice)@.len() == 65507
                    &&& (*final(b)).buffer@ == (*final(slice))@
                    &&& (*final(b)).n == *final(n)
                    &&& (*final(b)).src == *final(src)
                },
                None => (*b).n > 0 && *final(b) == *b,
            },
{
}

/// Every call of [`find_client`] gives the first slot that is the client's own, and otherwise the first
/// that no client has or whose client was not heard of since the threshold.
pub proof fn law_find_client(
    clients: &[Client],
    addr: SocketAddr,
    timeout_threshold: u64,
    r: Option<usize>,
)
    requires
        call_ensures(find_client, (clients, addr, timeout_threshold), r),
    ensures
        match r {
            Some(i) => {
                &&& i < clients@.len()
                &&& if clients@[i as int].addr == Some(addr) {
                    forall|j: int| 0 <= j < i ==> (#[trigger] clients@[j]).addr != Some(addr)
                } else {
                    &&& is_over(clients@[i as int], timeout_threshold)
                    &&& forall|j: int|
                        0 <= j < clients@.len() ==> (#[trigger] clients@[j]).addr != Some(addr)
                    &&& forall|j: int|
                        0 <= j < i ==> !is_over(#[trigger] clients@[j], timeout_threshold)
                }
            },
            None => forall|j: int|
                0 <= j < clients@.len() ==> (#[trigger] clients@[j]).addr != Some(addr) && !is_over(
                    clients@[j],
                    timeout_threshold,
                ),
        },
{
    let v = views(clients@);
    law_slot_choice(v, addr, timeout_threshold as int);
    assert forall|j: int| 0 <= j < clients@.len() implies v[j] == (#[trigger] clients@[j])@ by {}
}

/// Whether no client has a slot, or its client was not heard of since the threshold.
pub open spec fn is_over(client: Client, timeout_threshold: u64) -> bool {
    client.addr is None || client.last_activity < timeout_threshold
}

} // verus!
