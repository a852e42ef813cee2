use socket_proxy::addr::SocketAddr;
use socket_proxy::event::{Command, Event};
use socket_proxy::events::Events;
use socket_proxy::fd::IoSetup;
use socket_proxy::pipe::{Pipe, Shovel, Splice, SpliceError, PIPE_SIZE};
use socket_proxy::tcp;
use socket_proxy::udp::{
    find_client, Buffer, Client, Readable, Received, State, BUFFER_SIZE,
};

const LISTENER: u64 = 100;

const READ_FAILED: &str = "Could not set events on IO event handler.";

/// Waiting for what can be read.
const IN: u32 = Events::EPOLLIN;

/// Waiting for what can be read or written to.
const BOTH: u32 = Events::EPOLLIN | Events::EPOLLOUT;

fn addr(port: u16) -> SocketAddr {
    SocketAddr::V4 {
        ip: 0x7f00_0001,
        port,
    }
}

fn fill(buffer: &mut Buffer, payload: &[u8], from: SocketAddr) {
    let (slice, n, src) = buffer.get_slice_mut().unwrap();
    slice[..payload.len()].copy_from_slice(payload);
    *n = payload.len();
    *src = from;
}

fn relay(slots: u64) -> (State, Event) {
    let mut event = Event::new();
    let mut state = State::default();
    let mut ids = vec![LISTENER];
    for i in 0..slots {
        state.clients.push(Client::new(i + 1));
        ids.push(i + 1);
    }
    for id in ids {
        let (fd, events) = (id as i32, Events(Events::EPOLLIN));
        let mut setup = IoSetup::new(fd, events).unwrap();
        assert_eq!(setup.advance(0o4000), Ok(()));
        match event.add_io(fd, events).registered(setup, 0, id) {
            Ok(handle) => handle.release(),
            Err(_) => panic!("refused"),
        }
    }
    (state, event)
}

fn send(
    state: &mut State,
    payload: &[u8],
    port: u16,
    now: u64,
    timeout: u64,
) -> Option<(usize, bool, u64)> {
    fill(&mut state.buffer_in, payload, addr(port));
    match state.receive(now, timeout) {
        Received::Delivered {
            slot,
            new_client,
            source,
        } => Some((slot, new_client, source)),
        Received::Rejected => None,
    }
}

fn waits_for(event: &mut Event, id: u64) -> Events {
    event.dispatched_io(id).unwrap().as_ref().events
}

#[test]
fn buffers_hold_one_datagram() {
    let mut buffer = Buffer::default();
    assert!(buffer.take_slice().is_none());
    assert_eq!(buffer.get_slice_mut().unwrap().0.len(), 65507);
    assert_eq!(BUFFER_SIZE, 65507);
    fill(&mut buffer, b"abc", addr(1));
    assert!(buffer.get_slice_mut().is_none());
    match buffer.take_slice() {
        Some((slice, src)) => {
            assert_eq!(slice.to_vec(), b"abc".to_vec());
            assert_eq!(src, addr(1));
        }
        None => panic!("empty"),
    }
    assert!(buffer.take_slice().is_none());
    fill(&mut buffer, b"abc", addr(1));
    buffer.reset();
    assert!(buffer.take_slice().is_none());
    assert!(buffer.get_slice_mut().is_some());
}

#[test]
fn slots_are_found() {
    let mut a = Client::new(1);
    a.addr = Some(addr(1));
    a.last_activity = 50;
    let mut b = Client::new(2);
    b.addr = Some(addr(2));
    b.last_activity = 10;
    let c = Client::new(3);
    let clients = vec![a, b, c];
    // a client's own slot, even behind one that could be used
    assert_eq!(find_client(&clients, addr(2), 60), Some(1));
    assert_eq!(find_client(&clients, addr(1), 0), Some(0));
    // the first slot that timed out or is free
    assert_eq!(find_client(&clients, addr(9), 60), Some(0));
    assert_eq!(find_client(&clients, addr(9), 50), Some(1));
    assert_eq!(find_client(&clients, addr(9), 10), Some(2));
    assert_eq!(find_client(&clients[..2], addr(9), 10), None);
    assert_eq!(find_client(&[], addr(9), 10), None);
}

#[test]
fn addresses_differ_in_every_part() {
    let v6 = SocketAddr::V6 {
        ipv6: 1,
        port: 2,
        flowinfo: 3,
        scope_id: 4,
    };
    let other = SocketAddr::V6 {
        ipv6: 1,
        port: 2,
        flowinfo: 3,
        scope_id: 5,
    };
    assert!(v6 != other);
    assert!(v6 == v6);
    assert!(addr(1) != addr(2));
    assert!(SocketAddr::unspecified() == SocketAddr::V4 { ip: 0, port: 0 });
}

#[test]
fn client_data_reaches_the_server_once() {
    let (mut state, mut event) = relay(2);
    assert_eq!(
        send(&mut state, b"hello", 40, 1000, 100),
        Some((0, true, 1))
    );
    assert_eq!(
        state.await_writable(&mut event, 1, 0, IN),
        Ok(Some(Command::SetIoEvents {
            event_source: 1,
            events: BOTH
        }))
    );
    match state.forward(&mut event, 1, 0, 0, BOTH) {
        Ok((command, payload)) => {
            assert_eq!(
                command,
                Some(Command::SetIoEvents {
                    event_source: 1,
                    events: IN
                })
            );
            assert_eq!(payload, Some(b"hello".to_vec()));
        }
        Err(message) => panic!("{}", message),
    }
    let (_, payload) = state.forward(&mut event, 1, 0, 0, BOTH).unwrap();
    assert_eq!(payload, None);
}

fn flushed(state: &mut State, event: &mut Event) -> Vec<(Vec<u8>, SocketAddr)> {
    match state.flush(event, LISTENER, 0, BOTH) {
        Ok((command, datagrams)) => {
            assert_eq!(
                command,
                Some(Command::SetIoEvents {
                    event_source: LISTENER,
                    events: IN
                })
            );
            datagrams.into_iter().map(|d| (d.payload, d.to)).collect()
        }
        Err(message) => panic!("{}", message),
    }
}

#[test]
fn server_data_reaches_the_client_once() {
    let (mut state, mut event) = relay(2);
    send(&mut state, b"a", 40, 1000, 100);
    send(&mut state, b"b", 41, 1000, 100);
    let server = addr(53);
    fill(&mut state.clients[1].buffer_in, b"to 41", server);
    assert_eq!(
        state.await_writable(&mut event, LISTENER, 0, IN),
        Ok(Some(Command::SetIoEvents {
            event_source: LISTENER,
            events: BOTH
        }))
    );
    fill(&mut state.clients[0].buffer_in, b"to 40", server);
    assert_eq!(
        flushed(&mut state, &mut event),
        vec![
            (b"to 40".to_vec(), addr(40)),
            (b"to 41".to_vec(), addr(41))
        ]
    );
    assert_eq!(flushed(&mut state, &mut event), Vec::new());
}

#[test]
fn nothing_is_sent_where_the_loop_cannot_be_read() {
    let (mut state, mut event) = relay(1);
    send(&mut state, b"up", 40, 1000, 100);
    fill(&mut state.clients[0].buffer_in, b"down", addr(53));
    assert_eq!(
        state.await_writable(&mut event, 1, -5, 0),
        Err(READ_FAILED)
    );
    assert!(matches!(
        state.forward(&mut event, 1, 0, -5, BOTH),
        Err(READ_FAILED)
    ));
    assert!(matches!(
        state.flush(&mut event, LISTENER, -5, BOTH),
        Err(READ_FAILED)
    ));
    assert_eq!(state.suspend(&mut event, LISTENER, -5, IN), Err(READ_FAILED));
    assert_eq!(waits_for(&mut event, 1), Events(IN));
    assert_eq!(waits_for(&mut event, LISTENER), Events(IN));
    // it is all still there
    let (_, payload) = state.forward(&mut event, 1, 0, 0, BOTH).unwrap();
    assert_eq!(payload, Some(b"up".to_vec()));
    assert_eq!(
        flushed(&mut state, &mut event),
        vec![(b"down".to_vec(), addr(40))]
    );
}

fn datagram(payload: &[u8], from: SocketAddr) -> Buffer {
    let mut buffer = Buffer::default();
    fill(&mut buffer, payload, from);
    buffer
}

#[test]
fn datagrams_are_read_when_there_is_room() {
    let (mut state, mut event) = relay(2);
    assert_eq!(state.readable(), Readable::Receive);
    fill(&mut state.buffer_in, b"a", addr(40));
    assert_eq!(state.readable(), Readable::Suspend);
    assert!(matches!(
        state.receive(1000, 100),
        Received::Delivered { slot: 0, .. }
    ));
    assert_eq!(state.readable(), Readable::Receive);

    assert!(state.slot_readable(0));
    assert!(state.answer(0, datagram(b"first", addr(53))));
    assert!(!state.slot_readable(0));
    assert!(state.slot_readable(1));
    // there is no room for a second one, and the first one stays
    assert!(!state.answer(0, datagram(b"second", addr(53))));
    assert_eq!(
        flushed(&mut state, &mut event),
        vec![(b"first".to_vec(), addr(40))]
    );
    assert!(state.slot_readable(0));
}

#[test]
fn data_for_nobody_is_kept() {
    let (mut state, mut event) = relay(1);
    fill(&mut state.clients[0].buffer_in, b"early", addr(53));
    assert_eq!(flushed(&mut state, &mut event), Vec::new());
    send(&mut state, b"a", 40, 1000, 100);
    assert_eq!(
        flushed(&mut state, &mut event),
        vec![(b"early".to_vec(), addr(40))]
    );
}

#[test]
fn clients_keep_their_slots() {
    let (mut state, _) = relay(2);
    assert_eq!(
        send(&mut state, b"a", 40, 1000, 100).map(|r| (r.0, r.1)),
        Some((0, true))
    );
    assert_eq!(
        send(&mut state, b"b", 41, 1010, 100).map(|r| (r.0, r.1)),
        Some((1, true))
    );
    assert_eq!(
        send(&mut state, b"c", 40, 1050, 100).map(|r| (r.0, r.1)),
        Some((0, false))
    );
    // both are active: there is no slot for another
    assert_eq!(send(&mut state, b"d", 42, 1110, 100), None);
    assert!(state.buffer_in.get_slice_mut().is_some());
    // the second timed out
    assert_eq!(
        send(&mut state, b"d", 42, 1111, 100).map(|r| (r.0, r.1)),
        Some((1, true))
    );
    assert_eq!(state.clients[1].addr, Some(addr(42)));
    assert_eq!(state.clients[1].last_activity, 1111);
    // a client that timed out counts as new, in its own slot
    assert_eq!(
        send(&mut state, b"e", 40, 5000, 100).map(|r| (r.0, r.1)),
        Some((0, true))
    );
}

#[test]
fn newer_data_replaces_what_was_not_sent() {
    let (mut state, mut event) = relay(1);
    send(&mut state, b"old", 40, 1000, 100);
    send(&mut state, b"new", 40, 1001, 100);
    assert!(state.buffer_in.get_slice_mut().is_some());
    let (_, payload) = state.forward(&mut event, 1, 0, 0, BOTH).unwrap();
    assert_eq!(payload, Some(b"new".to_vec()));
    send(&mut state, b"", 40, 1002, 100);
    let (_, payload) = state.forward(&mut event, 1, 0, 0, BOTH).unwrap();
    assert_eq!(payload, None);
}

#[test]
fn a_full_buffer_suspends_reading() {
    let (state, mut event) = relay(1);
    assert_eq!(
        state.suspend(&mut event, LISTENER, 0, IN),
        Ok(Some(Command::SetIoEvents {
            event_source: LISTENER,
            events: 0
        }))
    );
}

#[test]
fn pipes_are_made() {
    assert_eq!(PIPE_SIZE, 262144);
    match Pipe::new(0, 5, 6, 65536, 0) {
        Ok(pipe) => {
            assert_eq!(pipe.fd_r, 5);
            assert_eq!(pipe.fd_w, 6);
            assert_eq!(pipe.size, 65536);
        }
        Err(_) => panic!("failed"),
    }
    assert!(matches!(Pipe::new(-1, 0, 0, 0, 24), Err(24)));
    assert!(matches!(Pipe::new(0, 5, 6, -1, 9), Err(9)));
}

fn shovel(size: usize, full: usize) -> Shovel {
    Pipe {
        fd_r: 5,
        fd_w: 6,
        size,
    }
    .shovel(full)
}

#[test]
fn bytes_go_through_the_pipe() {
    let mut s = shovel(10, 3);
    assert_eq!(s.next(), Some(Splice::In(7)));
    assert_eq!(s.spliced(4), Ok(()));
    assert_eq!(s.full, 7);
    assert_eq!(s.next(), Some(Splice::Out(7)));
    assert_eq!(s.spliced(7), Ok(()));
    assert_eq!(s.full, 0);
    // something moved: there is another round
    assert_eq!(s.next(), Some(Splice::In(10)));
    assert_eq!(s.spliced(0), Ok(()));
    assert_eq!(s.next(), None);
    assert_eq!(s.next(), None);
    assert_eq!(s.full, 0);
}

#[test]
fn a_full_pipe_is_drained_first() {
    let mut s = shovel(10, 10);
    assert_eq!(s.next(), Some(Splice::Out(10)));
    assert_eq!(s.spliced(0), Ok(()));
    assert_eq!(s.next(), None);
    assert_eq!(s.full, 10);
    let mut s = shovel(0, 0);
    assert_eq!(s.next(), None);
}

/// Moves bytes as the answers say. Returns how many went in and out, in how many moves, and what is
/// left in the pipe.
fn run(mut s: Shovel, answers: &[isize]) -> (isize, isize, usize, usize) {
    let (mut into, mut out, mut moves) = (0, 0, 0);
    while let Some(splice) = s.next() {
        let n = answers[moves];
        match splice {
            Splice::In(len) => {
                assert!(n <= len as isize);
                into += n;
            }
            Splice::Out(len) => {
                assert!(n <= len as isize);
                out += n;
            }
        }
        assert_eq!(s.spliced(n), Ok(()));
        moves += 1;
    }
    assert_eq!(moves, answers.len());
    (into, out, moves, s.full)
}

#[test]
fn an_overfull_pipe_is_drained_first() {
    // more bytes than the pipe is said to hold
    let (into, out, _, left) = run(shovel(10, 25), &[8, 9, 2, 4, 0, 0]);
    assert_eq!((into, out, left), (2, 21, 6));
    assert_eq!(25 + into - out, left as isize);
}

#[test]
fn every_round_but_the_last_moves_something() {
    // as many rounds as there can be: one byte in each
    let (into, out, moves, left) = run(shovel(4, 0), &[1, 0, 0, 1, 1, 0, 0, 0]);
    assert_eq!((into, out, left), (2, 1, 1));
    assert!(moves as isize <= 2 * (into + out + 1));
    // nothing moves at all
    assert_eq!(run(shovel(4, 2), &[0, 0]), (0, 0, 2, 2));
    assert_eq!(run(shovel(4, 0), &[0]), (0, 0, 1, 0));
}

#[test]
fn shoveling_can_fail() {
    let mut s = shovel(10, 0);
    assert_eq!(s.next(), Some(Splice::In(10)));
    assert_eq!(s.spliced(-1), Err(SpliceError));
    assert_eq!(s.full, 0);
    assert_eq!(SpliceError.message(), "Failed to splice");
    let mut s = shovel(10, 10);
    assert_eq!(s.next(), Some(Splice::Out(10)));
    assert_eq!(s.spliced(-11), Err(SpliceError));
    assert_eq!(s.full, 10);
}

fn pipe() -> Option<Pipe> {
    Pipe::new(0, 5, 6, 10, 0).ok()
}

fn connection(closed: bool) -> tcp::Client {
    tcp::Client {
        source_in: 1,
        source_out: 2,
        pipe_in: pipe().unwrap(),
        pipe_out: pipe().unwrap(),
        closed,
    }
}

#[test]
fn closed_connections_leave_room() {
    let mut state = tcp::State::default();
    assert!(state.has_room(1));
    assert!(!state.has_room(0));
    state.clients.push(connection(false));
    state.clients.push(connection(true));
    state.clients.push(connection(false));
    assert!(state.has_room(3));
    assert!(!state.has_room(2));
    state.clients.push(connection(false));
    assert!(!state.has_room(3));
}

#[test]
fn a_connection_ends_listening() {
    let (_, mut event) = relay(1);
    let state = tcp::State::default();
    assert_eq!(
        state.open(&mut event, LISTENER, None, pipe()),
        tcp::Opened::NoPipes
    );
    assert_eq!(
        state.open(&mut event, LISTENER, pipe(), None),
        tcp::Opened::NoPipes
    );
    assert_eq!(event.event_sources.len(), 2);
    assert_eq!(
        state.open(&mut event, LISTENER, pipe(), pipe()),
        tcp::Opened::Closed {
            forget: Some(LISTENER)
        }
    );
    assert_eq!(event.event_sources.len(), 1);
    assert!(event.get_event_source_io(LISTENER).is_none());
    assert!(event.get_event_source_io(1).is_some());
}
