//! What holds of a relay of datagrams across operations.
use vstd::prelude::*;
use crate::addr::SocketAddr;
use crate::event::{armed, waits_for, EventSource, Kind};
use crate::event_laws::{law_free_source_is_found, well_named};
use crate::events::{law_add_adds, Events};
use crate::search::{
    is_first_where, lemma_first_where, lemma_first_where_absent, lemma_first_where_exists,
    lemma_first_where_found,
};
use crate::udp::{
    answered, is_new, replies, server_sent, slot, BufferView, ClientView, Datagram, DatagramView,
    State, StateView,
};

verus! {

/// No client has two slots.
pub open spec fn one_slot_each(clients: Seq<ClientView>) -> bool {
    forall|i: int, j: int|
        0 <= i < j < clients.len() && (#[trigger] clients[i]).addr is Some ==> clients[i].addr != (
        #[trigger] clients[j]).addr
}

/// A slot that is chosen exists, and is the client's own, free, or its client timed out: no client
/// loses its slot while it is active.
pub proof fn law_active_clients_keep_their_slots(
    clients: Seq<ClientView>,
    addr: SocketAddr,
    timeout_threshold: int,
)
    ensures
        slot(clients, addr, timeout_threshold) matches Some(i) ==> 0 <= i < clients.len() && (
        clients[i].addr == Some(addr) || clients[i].addr is None || clients[i].last_activity
            < timeout_threshold),
{
    lemma_first_where(clients, |c: ClientView| c.addr == Some(addr));
    lemma_first_where(
        clients,
        |c: ClientView| c.addr is None || c.last_activity < timeout_threshold,
    );
}

/// A client is turned away exactly when every slot belongs to another client that is active.
pub proof fn law_rejected_only_when_full(
    clients: Seq<ClientView>,
    addr: SocketAddr,
    timeout_threshold: int,
)
    ensures
        slot(clients, addr, timeout_threshold) is None <==> forall|i: int|
            0 <= i < clients.len() ==> (#[trigger] clients[i]).addr is Some && clients[i].addr
                != Some(addr) && clients[i].last_activity >= timeout_threshold,
{
    let same = |c: ClientView| c.addr == Some(addr);
    let free = |c: ClientView| c.addr is None || c.last_activity < timeout_threshold;
    lemma_first_where(clients, same);
    lemma_first_where(clients, free);
    if slot(clients, addr, timeout_threshold) is None {
        assert forall|i: int| 0 <= i < clients.len() implies (#[trigger] clients[i]).addr is Some
            && clients[i].addr != Some(addr) && clients[i].last_activity >= timeout_threshold by {
            assert(!same(clients[i]) && !free(clients[i]));
        }
    }
}

/// Taking in a datagram gives no client a second slot.
pub proof fn law_receive_keeps_one_slot_each(
    state: StateView,
    i: int,
    now: u64,
    timeout_threshold: int,
)
    requires
        one_slot_each(state.clients),
        slot(state.clients, state.buffer_in.src, timeout_threshold) == Some(i),
    ensures
        one_slot_each(state.delivered(i, now).clients),
{
    let src = state.buffer_in.src;
    let same = |c: ClientView| c.addr == Some(src);
    lemma_first_where(state.clients, same);
    law_active_clients_keep_their_slots(state.clients, src, timeout_threshold);
    let after = state.delivered(i, now).clients;
    assert forall|j: int| 0 <= j < after.len() && j != i implies (#[trigger] after[j]).addr != Some(
        src,
    ) by {
        assert(after[j] == state.clients[j]);
        if same(state.clients[j]) {
            lemma_first_where_exists(state.clients, same, j);
        }
    }
}

/// Sending gives no client a second slot.
pub proof fn law_send_keeps_one_slot_each(state: StateView, i: int, datagram: BufferView)
    requires
        one_slot_each(state.clients),
        0 <= i < state.clients.len(),
    ensures
        one_slot_each(state.forwarded(i).clients),
        one_slot_each(state.flushed().clients),
        one_slot_each(server_sent(state, i, datagram).clients),
{
}

/// A client that was given a slot finds it again, and every other client still finds its own.
pub proof fn law_clients_find_their_slots_again(
    state: StateView,
    i: int,
    now: u64,
    timeout_threshold: int,
    k: int,
    later_threshold: int,
)
    requires
        one_slot_each(state.clients),
        slot(state.clients, state.buffer_in.src, timeout_threshold) == Some(i),
        0 <= k < state.clients.len(),
        k == i || state.clients[k].addr is Some,
    ensures
        ({
            let after = state.delivered(i, now).clients;
            &&& after[k].addr == if k == i { Some(state.buffer_in.src) } else { state.clients[k].addr }
            &&& slot(after, after[k].addr.unwrap(), later_threshold) == Some(k)
        }),
{
    law_receive_keeps_one_slot_each(state, i, now, timeout_threshold);
    law_active_clients_keep_their_slots(state.clients, state.buffer_in.src, timeout_threshold);
    let after = state.delivered(i, now).clients;
    let addr = after[k].addr.unwrap();
    let same = |c: ClientView| c.addr == Some(addr);
    assert(is_first_where(after, same, k));
    lemma_first_where_found(after, same, k);
}

/// What a client sends is what goes to the server, from the client's slot, and it goes once.
/// Nothing else changes for the other clients.
pub proof fn law_client_data_reaches_server(state: StateView, i: int, now: u64)
    requires
        0 <= i < state.clients.len(),
    ensures
        state.delivered(i, now).clients[i].buffer_out.held() == state.buffer_in.held(),
        state.delivered(i, now).forwarded(i).clients[i].buffer_out.held().len() == 0,
        state.delivered(i, now).clients.len() == state.clients.len(),
        forall|j: int|
            0 <= j < state.clients.len() && j != i ==> #[trigger] state.delivered(i, now).clients[j]
                == state.clients[j],
{
}

/// What the server answers on the socket of a slot goes to the client that the slot was given to.
pub proof fn law_server_data_reaches_client(
    state: StateView,
    i: int,
    now: u64,
    datagram: BufferView,
)
    requires
        0 <= i < state.clients.len(),
        datagram.held().len() > 0,
    ensures
        replies(server_sent(state.delivered(i, now), i, datagram).clients).contains(
            DatagramView { payload: datagram.held(), to: state.buffer_in.src },
        ),
{
    let clients = server_sent(state.delivered(i, now), i, datagram).clients;
    lemma_reply_is_sent(clients, i);
}

/// Only what the server sent is sent to clients, to the client of the slot where it arrived.
pub proof fn law_replies_come_from_slots(clients: Seq<ClientView>, k: int)
    requires
        0 <= k < replies(clients).len(),
    ensures
        exists|i: int|
            0 <= i < clients.len() && is_reply(#[trigger] clients[i], replies(clients)[k]),
    decreases clients.len(),
{
    if clients.len() > 0 {
        let front = clients.drop_last();
        if k < replies(front).len() {
            assert(replies(clients)[k] == replies(front)[k]);
            law_replies_come_from_slots(front, k);
            let i = choose|i: int|
                0 <= i < front.len() && is_reply(#[trigger] front[i], replies(front)[k]);
            assert(is_reply(clients[i], replies(clients)[k]));
        } else {
            let last = clients.len() - 1;
            assert(is_reply(clients[last], replies(clients)[k]));
        }
    }
}

/// Whether a datagram is what waits in a slot for its client.
pub open spec fn is_reply(client: ClientView, datagram: DatagramView) -> bool {
    &&& client.addr == Some(datagram.to)
    &&& client.buffer_in.held() == datagram.payload
    &&& datagram.payload.len() > 0
}

/// What was sent to clients is not sent again.
pub proof fn law_replies_are_sent_once(state: StateView)
    ensures
        replies(state.flushed().clients).len() == 0,
{
    let clients = state.flushed().clients;
    if replies(clients).len() > 0 {
        law_replies_come_from_slots(clients, 0);
        let i = choose|i: int|
            0 <= i < clients.len() && is_reply(#[trigger] clients[i], replies(clients)[0]);
        assert(clients[i] == answered(state.clients[i]));
    }
}

pub proof fn lemma_reply_is_sent(clients: Seq<ClientView>, i: int)
    requires
        0 <= i < clients.len(),
        clients[i].addr is Some,
        clients[i].buffer_in.held().len() > 0,
    ensures
        replies(clients).contains(
            DatagramView { payload: clients[i].buffer_in.held(), to: clients[i].addr.unwrap() },
        ),
    decreases clients.len(),
{
    let d = DatagramView { payload: clients[i].buffer_in.held(), to: clients[i].addr.unwrap() };
    let front = clients.drop_last();
    if i == clients.len() - 1 {
        assert(replies(clients) == replies(front).push(d));
        assert(replies(clients)[replies(front).len() as int] == d);
    } else {
        lemma_reply_is_sent(front, i);
        let k = choose|k: int| 0 <= k < replies(front).len() && replies(front)[k] == d;
        assert(replies(clients)[k] == d);
    }
}

/// Taking in a datagram makes the socket of its slot wait until it can be written to, without
/// giving up what it waited for. The event loop reports the events that were set last.
pub proof fn law_delivery_wakes_the_slot(
    state: StateView,
    i: int,
    sources: Seq<EventSource>,
    k: int,
    res: i32,
)
    requires
        0 <= i < state.clients.len(),
        res >= 0,
        well_named(sources),
        0 <= k < sources.len(),
        sources[k].source_id() == state.clients[i].id,
        sources[k].source_kind() == Kind::Io,
        !sources[k].is_borrowed(),
    ensures
        waits_for(
            armed(
                sources,
                state.clients[i].id,
                Events(Events::EPOLLOUT),
                res,
                waits_for(sources[k]).0,
            )[k],
        )@ == waits_for(sources[k])@.union(Events(Events::EPOLLOUT)@),
{
    law_free_source_is_found(sources, k);
    law_add_adds(waits_for(sources[k]), Events(Events::EPOLLOUT));
}

/// Something that happens to a relay.
pub enum Step {
    /// A datagram arrives on the listening socket.
    Receive { datagram: BufferView, now: u64, network_timeout: u64 },
    /// A datagram arrives on the socket of a slot.
    Answer { i: int, datagram: BufferView },
    /// The socket of a slot can be written to.
    Forward { i: int },
    /// The listening socket can be written to.
    Flush,
}

/// The relay after something happened.
pub open spec fn after(state: StateView, step: Step) -> StateView {
    match step {
        Step::Receive { datagram, now, network_timeout } => {
            let loaded = StateView { buffer_in: datagram, ..state };
            match slot(loaded.clients, datagram.src, now - network_timeout) {
                Some(i) => loaded.delivered(i, now),
                None => loaded.dropped(),
            }
        },
        Step::Answer { i, datagram } => if 0 <= i < state.clients.len()
            && state.clients[i].buffer_in.held().len() == 0 {
            server_sent(state, i, datagram)
        } else {
            state
        },
        Step::Forward { i } => if 0 <= i < state.clients.len() {
            state.forwarded(i)
        } else {
            state
        },
        Step::Flush => state.flushed(),
    }
}

/// The relay after several things happened, one after the other.
pub open spec fn run(state: StateView, steps: Seq<Step>) -> StateView
    decreases steps.len(),
{
    if steps.len() == 0 {
        state
    } else {
        after(run(state, steps.drop_last()), steps.last())
    }
}

/// A relay to which nothing has happened.
pub open spec fn fresh(state: StateView) -> bool {
    &&& state.buffer_in.held().len() == 0
    &&& forall|i: int|
        0 <= i < state.clients.len() ==> {
            &&& (#[trigger] state.clients[i]).addr is None
            &&& state.clients[i].buffer_in.held().len() == 0
            &&& state.clients[i].buffer_out.held().len() == 0
        }
}

/// No client has two slots, there is room for the next datagram, and what waits in a slot to be
/// sent to the server is from the client that has the slot.
pub open spec fn consistent(state: StateView) -> bool {
    &&& one_slot_each(state.clients)
    &&& state.buffer_in.held().len() == 0
    &&& forall|i: int|
        0 <= i < state.clients.len() && (#[trigger] state.clients[i]).buffer_out.held().len() > 0
            ==> state.clients[i].addr == Some(state.clients[i].buffer_out.src)
}

/// Whatever happens to a relay, it stays consistent and the number of slots stays the same.
pub proof fn law_relay_stays_consistent(state: StateView, steps: Seq<Step>)
    requires
        fresh(state) || consistent(state),
    ensures
        consistent(run(state, steps)),
        run(state, steps).clients.len() == state.clients.len(),
    decreases steps.len(),
{
    if steps.len() > 0 {
        law_relay_stays_consistent(state, steps.drop_last());
        lemma_step_keeps_consistent(run(state, steps.drop_last()), steps.last());
    }
}

proof fn lemma_step_keeps_consistent(state: StateView, step: Step)
    requires
        consistent(state),
    ensures
        consistent(after(state, step)),
        after(state, step).clients.len() == state.clients.len(),
{
    match step {
        Step::Receive { datagram, now, network_timeout } => {
            let loaded = StateView { buffer_in: datagram, ..state };
            let threshold = now - network_timeout;
            law_active_clients_keep_their_slots(loaded.clients, datagram.src, threshold);
            if let Some(i) = slot(loaded.clients, datagram.src, threshold) {
                law_receive_keeps_one_slot_each(loaded, i, now, threshold);
            }
        },
        Step::Answer { i, datagram } => {},
        Step::Forward { i } => {},
        Step::Flush => {
            assert forall|j: int| 0 <= j < state.clients.len() implies #[trigger] after(
                state,
                step,
            ).clients[j] == answered(state.clients[j]) by {}
        },
    }
}

/// Whether a step is the arrival of a datagram from a client.
pub open spec fn brings(step: Step, datagram: BufferView) -> bool {
    step matches Step::Receive { datagram: d, .. } && d == datagram
}

/// Whether a step is the arrival of data from the server in a slot.
pub open spec fn answers(step: Step, i: int, payload: Seq<u8>) -> bool {
    step matches Step::Answer { i: k, datagram } && k == i && datagram.held() == payload
}

/// What waits to be sent to the server is a datagram that a client sent, unchanged; what waits to
/// be sent to a client is a datagram that the server sent to the socket of that slot, unchanged.
pub proof fn law_relay_makes_nothing_up(state: StateView, steps: Seq<Step>, i: int)
    requires
        fresh(state),
        0 <= i < state.clients.len(),
    ensures
        ({
            let client = run(state, steps).clients[i];
            &&& client.buffer_out.held().len() > 0 ==> exists|j: int|
                0 <= j < steps.len() && brings(#[trigger] steps[j], client.buffer_out)
            &&& client.buffer_in.held().len() > 0 ==> exists|j: int|
                0 <= j < steps.len() && answers(#[trigger] steps[j], i, client.buffer_in.held())
        }),
    decreases steps.len(),
{
    if steps.len() > 0 {
        let earlier = steps.drop_last();
        let step = steps.last();
        let last = steps.len() - 1;
        let before = run(state, earlier);
        law_relay_makes_nothing_up(state, earlier, i);
        law_relay_stays_consistent(state, earlier);
        let old_client = before.clients[i];
        let client = after(before, step).clients[i];
        assert(steps[last] == step);
        if let Step::Receive { datagram, now, network_timeout } = step {
            law_active_clients_keep_their_slots(
                before.clients,
                datagram.src,
                now - network_timeout,
            );
        }
        if client.buffer_out.held().len() > 0 && !brings(step, client.buffer_out) {
            assert(client.buffer_out == old_client.buffer_out);
            let j = choose|j: int|
                0 <= j < earlier.len() && brings(#[trigger] earlier[j], old_client.buffer_out);
            assert(brings(steps[j], client.buffer_out));
        }
        if client.buffer_in.held().len() > 0 && !answers(step, i, client.buffer_in.held()) {
            assert(client.buffer_in.held() == old_client.buffer_in.held());
            let j = choose|j: int|
                0 <= j < earlier.len() && answers(
                    #[trigger] earlier[j],
                    i,
                    old_client.buffer_in.held(),
                );
            assert(answers(steps[j], i, client.buffer_in.held()));
        }
    }
}

/// A buffer holds the first bytes of its room, as many as it says. Without its data it holds nothing, and
/// is otherwise the same.
pub proof fn law_buffers_hold_their_first_bytes(buffer: BufferView)
    requires
        0 <= buffer.n <= buffer.room.len(),
    ensures
        buffer.held().len() == buffer.n,
        forall|k: int| 0 <= k < buffer.n ==> #[trigger] buffer.held()[k] == buffer.room[k],
        buffer.emptied().n == 0,
        buffer.emptied().held().len() == 0,
        buffer.emptied().room == buffer.room,
        buffer.emptied().src == buffer.src,
{
}

/// What is said of a relay as plain values is what the relay holds.
pub proof fn law_nothing_of_a_relay_is_hidden(state: State, i: int)
    requires
        0 <= i < state.clients@.len(),
    ensures
        state@.clients.len() == state.clients@.len(),
        state@.clients[i].id == state.clients@[i].id,
        state@.clients[i].addr == state.clients@[i].addr,
        state@.clients[i].last_activity == state.clients@[i].last_activity,
        state@.clients[i].buffer_in.room == state.clients@[i].buffer_in.buffer@,
        state@.clients[i].buffer_in.n == state.clients@[i].buffer_in.n,
        state@.clients[i].buffer_in.src == state.clients@[i].buffer_in.src,
        state@.clients[i].buffer_out.room == state.clients@[i].buffer_out.buffer@,
        state@.clients[i].buffer_out.n == state.clients@[i].buffer_out.n,
        state@.clients[i].buffer_out.src == state.clients@[i].buffer_out.src,
        state@.buffer_in.room == state.buffer_in.buffer@,
        state@.buffer_in.n == state.buffer_in.n,
        state@.buffer_in.src == state.buffer_in.src,
{
}

/// A relay is in order exactly when no buffer holds more than there is room for.
pub proof fn law_relays_in_order(state: State)
    ensures
        state.wf() <==> state.buffer_in.n <= 65507 && forall|i: int|
            0 <= i < state.clients@.len() ==> (#[trigger] state.clients@[i]).buffer_in.n <= 65507
                && state.clients@[i].buffer_out.n <= 65507,
{
    if state.buffer_in.n <= 65507 && forall|i: int|
        0 <= i < state.clients@.len() ==> (#[trigger] state.clients@[i]).buffer_in.n <= 65507
            && state.clients@[i].buffer_out.n <= 65507 {
        assert(state.wf());
    }
    if state.wf() {
        assert forall|i: int| 0 <= i < state.clients@.len() implies (
        #[trigger] state.clients@[i]).buffer_in.n <= 65507 && state.clients@[i].buffer_out.n
            <= 65507 by {
            assert(state.clients@[i].wf());
        }
    }
}

/// What is said of a datagram as plain values is what the datagram holds.
pub proof fn law_nothing_of_a_datagram_is_hidden(datagram: Datagram)
    ensures
        datagram@.payload == datagram.payload@,
        datagram@.to == datagram.to,
{
}

/// A slot that no client has yet holds no data.
pub proof fn law_blank_buffers_hold_nothing(buffer: BufferView)
    requires
        buffer.is_blank(),
    ensures
        buffer.n == 0,
        buffer.held().len() == 0,
        buffer.room.len() == 65507,
        forall|k: int| 0 <= k < buffer.room.len() ==> #[trigger] buffer.room[k] == 0,
        buffer.src == (SocketAddr::V4 { ip: 0, port: 0 }),
{
}

/// A client gets the first slot that is its own. Only where it has none it gets the first that no client
/// has or whose client was not heard of since the threshold.
pub proof fn law_slot_choice(clients: Seq<ClientView>, addr: SocketAddr, timeout_threshold: int)
    ensures
        match slot(clients, addr, timeout_threshold) {
            Some(i) => {
                &&& 0 <= i < clients.len()
                &&& if clients[i].addr == Some(addr) {
                    forall|j: int| 0 <= j < i ==> (#[trigger] clients[j]).addr != Some(addr)
                } else {
                    &&& clients[i].addr is None || clients[i].last_activity < timeout_threshold
                    &&& forall|j: int|
                        0 <= j < clients.len() ==> (#[trigger] clients[j]).addr != Some(addr)
                    &&& forall|j: int|
                        0 <= j < i ==> (#[trigger] clients[j]).addr is Some
                            && clients[j].last_activity >= timeout_threshold
                }
            },
            None => forall|j: int|
                0 <= j < clients.len() ==> (#[trigger] clients[j]).addr is Some && clients[j].addr
                    != Some(addr) && clients[j].last_activity >= timeout_threshold,
        },
{
    let same = |c: ClientView| c.addr == Some(addr);
    let free = |c: ClientView| c.addr is None || c.last_activity < timeout_threshold;
    law_rejected_only_when_full(clients, addr, timeout_threshold);
    lemma_first_where(clients, same);
    lemma_first_where(clients, free);
    if let Some(i) = slot(clients, addr, timeout_threshold) {
        if clients[i].addr == Some(addr) {
            assert(same(clients[i]));
            assert forall|j: int| 0 <= j < i implies (#[trigger] clients[j]).addr != Some(addr) by {
                assert(!same(clients[j]));
            }
        } else {
            assert forall|j: int| 0 <= j < clients.len() implies (#[trigger] clients[j]).addr != Some(
                addr,
            ) by {
                assert(!same(clients[j]));
            }
            assert forall|j: int| 0 <= j < i implies (#[trigger] clients[j]).addr is Some
                && clients[j].last_activity >= timeout_threshold by {
                assert(!free(clients[j]));
            }
        }
    }
}

/// A client counts as new exactly when the slot that it gets was not its own, or it was not heard of since
/// the threshold.
pub proof fn law_new_clients_are_noticed(
    clients: Seq<ClientView>,
    addr: SocketAddr,
    timeout_threshold: int,
    i: int,
)
    requires
        slot(clients, addr, timeout_threshold) == Some(i),
    ensures
        is_new(clients[i], timeout_threshold) <==> clients[i].addr != Some(addr)
            || clients[i].last_activity < timeout_threshold,
{
    law_slot_choice(clients, addr, timeout_threshold);
}

/// Whatever a slot held before, a datagram that is put in it makes the slot its client's, heard of now,
/// and waits there to be sent. Nothing else of the slot changes, and nothing of another slot; and
/// there is room for the next datagram.
pub proof fn law_delivery_touches_one_slot(state: StateView, i: int, now: u64)
    requires
        0 <= i < state.clients.len(),
    ensures
        ({
            let after = state.delivered(i, now);
            &&& after.clients.len() == state.clients.len()
            &&& forall|j: int|
                0 <= j < state.clients.len() && j != i ==> #[trigger] after.clients[j]
                    == state.clients[j]
            &&& after.clients[i].addr == Some(state.buffer_in.src)
            &&& after.clients[i].last_activity == now
            &&& after.clients[i].buffer_out.held() == state.buffer_in.held()
            &&& after.clients[i].buffer_out.src == state.buffer_in.src
            &&& after.clients[i].id == state.clients[i].id
            &&& after.clients[i].buffer_in == state.clients[i].buffer_in
            &&& after.buffer_in.held().len() == 0
        }),
{
}

/// A datagram that is dropped changes nothing for any client, and leaves room for the next one.
pub proof fn law_dropping_touches_no_slot(state: StateView)
    ensures
        state.dropped().clients == state.clients,
        state.dropped().buffer_in.held().len() == 0,
{
}

/// Forwarding takes what waits for the server out of one slot, and that alone: the slot stays its client's,
/// with when it was heard of and what waits for it, and every other slot is as it was.
pub proof fn law_forwarding_touches_one_slot(state: StateView, i: int)
    requires
        0 <= i < state.clients.len(),
    ensures
        ({
            let after = state.forwarded(i);
            &&& after.clients.len() == state.clients.len()
            &&& forall|j: int|
                0 <= j < state.clients.len() && j != i ==> #[trigger] after.clients[j]
                    == state.clients[j]
            &&& after.clients[i].buffer_out.held().len() == 0
            &&& after.clients[i].id == state.clients[i].id
            &&& after.clients[i].addr == state.clients[i].addr
            &&& after.clients[i].last_activity == state.clients[i].last_activity
            &&& after.clients[i].buffer_in == state.clients[i].buffer_in
            &&& after.buffer_in == state.buffer_in
        }),
{
}

/// Flushing takes what waits for its client out of each slot that a client has, and that alone: every slot
/// stays its client's, with when it was heard of and what waits for the server.
pub proof fn law_flushing_keeps_every_client(state: StateView, j: int)
    requires
        0 <= j < state.clients.len(),
    ensures
        ({
            let after = state.flushed();
            &&& after.clients.len() == state.clients.len()
            &&& after.clients[j].id == state.clients[j].id
            &&& after.clients[j].addr == state.clients[j].addr
            &&& after.clients[j].last_activity == state.clients[j].last_activity
            &&& after.clients[j].buffer_out == state.clients[j].buffer_out
            &&& state.clients[j].addr is Some ==> after.clients[j].buffer_in.held().len() == 0
            &&& state.clients[j].addr is None ==> after.clients[j].buffer_in
                == state.clients[j].buffer_in
            &&& after.buffer_in == state.buffer_in
        }),
{
}

/// A datagram of the server waits, unchanged, in the slot on whose socket it arrived. Nothing else changes.
pub proof fn law_answer_touches_one_slot(state: StateView, i: int, datagram: BufferView)
    requires
        0 <= i < state.clients.len(),
    ensures
        ({
            let after = server_sent(state, i, datagram);
            &&& after.clients.len() == state.clients.len()
            &&& forall|j: int|
                0 <= j < state.clients.len() && j != i ==> #[trigger] after.clients[j]
                    == state.clients[j]
            &&& after.clients[i].buffer_in == datagram
            &&& after.clients[i].id == state.clients[i].id
            &&& after.clients[i].addr == state.clients[i].addr
            &&& after.clients[i].last_activity == state.clients[i].last_activity
            &&& after.clients[i].buffer_out == state.clients[i].buffer_out
            &&& after.buffer_in == state.buffer_in
        }),
{
}

/// What is sent to clients is what is sent to those of the first slots, followed by what is sent to those
/// of the others: each slot counts for itself, in order.
pub proof fn law_replies_go_slot_by_slot(first: Seq<ClientView>, others: Seq<ClientView>)
    ensures
        replies(first + others) == replies(first) + replies(others),
    decreases others.len(),
{
    if others.len() == 0 {
        assert(first + others =~= first);
        assert(replies(first) + replies(others) =~= replies(first));
    } else {
        law_replies_go_slot_by_slot(first, others.drop_last());
        assert((first + others).drop_last() =~= first + others.drop_last());
        assert((first + others).last() == others.last());
        assert(replies(first + others) =~= replies(first) + replies(others));
    }
}

/// A slot whose client something waits for has it sent to that client, once and unchanged. Otherwise
/// nothing is sent.
pub proof fn law_replies_of_one_slot(client: ClientView)
    ensures
        match client.addr {
            Some(addr) => if client.buffer_in.held().len() > 0 {
                replies(seq![client]) == seq![
                    DatagramView { payload: client.buffer_in.held(), to: addr },
                ]
            } else {
                replies(seq![client]).len() == 0
            },
            None => replies(seq![client]).len() == 0,
        },
{
    reveal_with_fuel(replies, 2);
    assert(seq![client].drop_last() =~= Seq::empty());
    assert(seq![client].last() == client);
    if let Some(addr) = client.addr {
        if client.buffer_in.held().len() > 0 {
            assert(replies(seq![client]) =~= seq![
                DatagramView { payload: client.buffer_in.held(), to: addr },
            ]);
        }
    }
}

/// Whether a step is the arrival of a datagram from a client at a time.
pub open spec fn heard(step: Step, addr: SocketAddr, at: u64) -> bool {
    step matches Step::Receive { datagram, now, .. } && datagram.src == addr && now == at
}

/// Whether a step is no arrival of a datagram from a client.
pub open spec fn not_heard(step: Step, addr: SocketAddr) -> bool {
    step matches Step::Receive { datagram, .. } ==> datagram.src != addr
}

/// Whether a client was last heard of in a step, at a time.
pub open spec fn last_heard(steps: Seq<Step>, j: int, addr: SocketAddr, at: u64) -> bool {
    &&& 0 <= j < steps.len()
    &&& heard(steps[j], addr, at)
    &&& forall|k: int| j < k < steps.len() ==> not_heard(#[trigger] steps[k], addr)
}

/// Whatever happens to a relay, a slot knows when its client was last heard of: the time of the latest
/// datagram of that client.
pub proof fn law_slots_know_when_their_client_was_heard(state: StateView, steps: Seq<Step>, i: int)
    requires
        fresh(state),
        0 <= i < state.clients.len(),
    ensures
        run(state, steps).clients[i].addr matches Some(addr) ==> exists|j: int| #[trigger]
            last_heard(steps, j, addr, run(state, steps).clients[i].last_activity),
    decreases steps.len(),
{
    if steps.len() > 0 {
        let earlier = steps.drop_last();
        let step = steps.last();
        let last = steps.len() - 1;
        let before = run(state, earlier);
        law_slots_know_when_their_client_was_heard(state, earlier, i);
        law_relay_stays_consistent(state, earlier);
        let now_client = run(state, steps).clients[i];
        if let Some(addr) = now_client.addr {
            let chosen = match step {
                Step::Receive { datagram, now, network_timeout } => {
                    law_slot_choice(before.clients, datagram.src, now - network_timeout);
                    slot(before.clients, datagram.src, now - network_timeout)
                },
                _ => None,
            };
            if chosen == Some(i) {
                assert(heard(steps[last], addr, now_client.last_activity));
                assert(last_heard(steps, last, addr, now_client.last_activity));
            } else {
                assert(now_client.addr == before.clients[i].addr);
                assert(now_client.last_activity == before.clients[i].last_activity);
                let j = choose|j: int| #[trigger]
                    last_heard(earlier, j, addr, now_client.last_activity);
                assert(not_heard(step, addr)) by {
                    if let Step::Receive { datagram, .. } = step {
                        if datagram.src == addr {
                            assert(before.clients[i].addr == Some(datagram.src));
                            let k = chosen.unwrap();
                            assert(before.clients[k].addr == before.clients[i].addr);
                        }
                    }
                }
                assert forall|k: int| j < k < steps.len() implies not_heard(
                    #[trigger] steps[k],
                    addr,
                ) by {
                    if k < last {
                        assert(steps[k] == earlier[k]);
                    }
                }
                assert(steps[j] == earlier[j]);
                assert(last_heard(steps, j, addr, now_client.last_activity));
            }
        }
    }
}

/// Whether a step is not from a client, nor so late that a client last heard of at `at` counts as timed out.
pub open spec fn spares(step: Step, addr: SocketAddr, at: u64) -> bool {
    step matches Step::Receive { datagram, now, network_timeout } ==> datagram.src != addr && now
        - network_timeout <= at
}

/// A client that was heard of within the timeout is not displaced, whatever else happens: the slot stays
/// its own, and what it sent waits there until its slot is forwarded.
pub proof fn law_active_client_is_not_displaced(
    state: StateView,
    steps: Seq<Step>,
    i: int,
    addr: SocketAddr,
)
    requires
        0 <= i < state.clients.len(),
        state.clients[i].addr == Some(addr),
        forall|k: int|
            0 <= k < steps.len() ==> spares(
                #[trigger] steps[k],
                addr,
                state.clients[i].last_activity,
            ),
    ensures
        ({
            let before = state.clients[i];
            let after = run(state, steps).clients[i];
            &&& run(state, steps).clients.len() == state.clients.len()
            &&& after.id == before.id
            &&& after.addr == Some(addr)
            &&& after.last_activity == before.last_activity
            &&& (forall|k: int| 0 <= k < steps.len() ==> #[trigger] steps[k] != (Step::Forward { i }))
                ==> after.buffer_out == before.buffer_out
            &&& before.buffer_out.held().len() == 0 ==> after.buffer_out.held().len() == 0
            &&& (forall|k: int| 0 <= k < steps.len() ==> #[trigger] steps[k] != Step::Flush)
                && before.buffer_in.held().len() > 0 ==> after.buffer_in == before.buffer_in
        }),
    decreases steps.len(),
{
    if steps.len() > 0 {
        let earlier = steps.drop_last();
        let step = steps.last();
        let last = steps.len() - 1;
        assert forall|k: int| 0 <= k < earlier.len() implies earlier[k] == #[trigger] steps[k] by {}
        assert forall|k: int| 0 <= k < earlier.len() implies spares(
            #[trigger] earlier[k],
            addr,
            state.clients[i].last_activity,
        ) by {
            assert(earlier[k] == steps[k]);
        }
        law_active_client_is_not_displaced(state, earlier, i, addr);
        let before = run(state, earlier);
        assert(steps[last] == step);
        assert(spares(steps[last], addr, state.clients[i].last_activity));
        if let Step::Receive { datagram, now, network_timeout } = step {
            law_slot_choice(before.clients, datagram.src, now - network_timeout);
            if let Some(k) = slot(before.clients, datagram.src, now - network_timeout) {
                assert(k != i);
            }
        }
        if forall|k: int| 0 <= k < steps.len() ==> #[trigger] steps[k] != (Step::Forward { i }) {
            assert forall|k: int| 0 <= k < earlier.len() implies #[trigger] earlier[k] != (
            Step::Forward { i }) by {
                assert(earlier[k] == steps[k]);
            }
        }
        if forall|k: int| 0 <= k < steps.len() ==> #[trigger] steps[k] != Step::Flush {
            assert forall|k: int| 0 <= k < earlier.len() implies #[trigger] earlier[k]
                != Step::Flush by {
                assert(earlier[k] == steps[k]);
            }
        }
    }
}

/// What a client sends is what goes to the server when its slot is forwarded next, whatever happens in
/// between, as long as the client sends nothing newer and does not time out.
pub proof fn law_what_was_received_is_forwarded(
    state: StateView,
    datagram: BufferView,
    now: u64,
    network_timeout: u64,
    i: int,
    steps: Seq<Step>,
)
    requires
        slot(state.clients, datagram.src, now - network_timeout) == Some(i),
        forall|k: int| 0 <= k < steps.len() ==> spares(#[trigger] steps[k], datagram.src, now),
        forall|k: int| 0 <= k < steps.len() ==> #[trigger] steps[k] != (Step::Forward { i }),
    ensures
        ({
            let received = after(state, Step::Receive { datagram, now, network_timeout });
            let client = run(received, steps).clients[i];
            &&& client.buffer_out.held() == datagram.held()
            &&& client.addr == Some(datagram.src)
            &&& client.last_activity == now
        }),
{
    law_slot_choice(state.clients, datagram.src, now - network_timeout);
    let received = after(state, Step::Receive { datagram, now, network_timeout });
    law_active_client_is_not_displaced(received, steps, i, datagram.src);
}

/// Once a client has a slot, and as long as it does not time out, what the server sends on the socket of
/// that slot is sent to that client the next time that datagrams are sent to clients, however often
/// the slot was forwarded and datagrams were sent before.
pub proof fn law_what_was_answered_is_sent(
    state: StateView,
    i: int,
    addr: SocketAddr,
    earlier: Seq<Step>,
    datagram: BufferView,
    later: Seq<Step>,
)
    requires
        0 <= i < state.clients.len(),
        state.clients[i].addr == Some(addr),
        forall|k: int|
            0 <= k < earlier.len() ==> spares(
                #[trigger] earlier[k],
                addr,
                state.clients[i].last_activity,
            ),
        run(state, earlier).clients[i].buffer_in.held().len() == 0,
        datagram.held().len() > 0,
        forall|k: int|
            0 <= k < later.len() ==> spares(
                #[trigger] later[k],
                addr,
                state.clients[i].last_activity,
            ),
        forall|k: int| 0 <= k < later.len() ==> #[trigger] later[k] != Step::Flush,
    ensures
        replies(
            run(after(run(state, earlier), Step::Answer { i, datagram }), later).clients,
        ).contains(DatagramView { payload: datagram.held(), to: addr }),
{
    law_active_client_is_not_displaced(state, earlier, i, addr);
    let answered_state = after(run(state, earlier), Step::Answer { i, datagram });
    law_active_client_is_not_displaced(answered_state, later, i, addr);
    lemma_reply_is_sent(run(answered_state, later).clients, i);
}

} // verus!
