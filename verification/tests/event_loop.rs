use socket_proxy::event::{
    AddError, Clock, Command, Event, EventSource, Usec, SD_EVENT_OFF, SD_EVENT_ON,
    SD_EVENT_ONESHOT,
};
use socket_proxy::events::Events;
use socket_proxy::fd::{fd_nonblock, IoSetup, IoStep, NonblockError};
use socket_proxy::firing::{
    IoFiring, IoFiringStep, SignalFiring, SignalFiringStep, TimeFiring, TimeStep,
};
use socket_proxy::signal::{Signal, SignalSetup, SignalStep};
use socket_proxy::userdata::Userdata;

const READ_FAILED: &str = "Could not set events on IO event handler.";

fn prepared_io(fd: i32, events: Events) -> IoSetup {
    let mut setup = IoSetup::new(fd, events).unwrap();
    assert_eq!(setup.advance(0o4000), Ok(()));
    setup
}

fn prepared_signal(signal: Signal, handled: bool) -> SignalSetup {
    let mut setup = SignalSetup::new(signal, handled);
    assert_eq!(setup.advance(0), Ok(()));
    setup
}

fn io(event: &mut Event, id: u64) {
    let events = Events(Events::EPOLLIN);
    let setup = prepared_io(10, events);
    match event.add_io(10, events).registered(setup, 0, id) {
        Ok(handle) => handle.release(),
        Err(_) => panic!("refused"),
    }
}

#[test]
fn requests_for_sources() {
    assert_eq!(
        Event::time_request(Clock::Boottime, Usec::Absolute(99), 5),
        Command::AddTime {
            clock: 7,
            usec: 99,
            accuracy: 5
        }
    );
    assert_eq!(
        Event::io_request(4, Events(5)),
        Command::AddIo { fd: 4, events: 5 }
    );
    assert_eq!(
        Event::signal_request(Signal(Signal::INT)),
        Command::AddSignal {
            signal: 2,
            handled: true
        }
    );
    assert_eq!(
        Event::signal_default_request(Signal(Signal::TERM)),
        Command::AddSignal {
            signal: 15,
            handled: false
        }
    );
}

#[test]
fn refused_sources() {
    let mut event = Event::new();
    assert!(matches!(
        event.add_time(Usec::Absolute(1), -1, 5),
        Err(AddError::Refused)
    ));
    assert!(matches!(
        event
            .add_io(1, Events(1))
            .registered(prepared_io(1, Events(1)), 0, 0),
        Err(AddError::Unnamed)
    ));
    assert!(matches!(
        event
            .add_signal(Signal(2))
            .registered(prepared_signal(Signal(2), true), -22, 0),
        Err(AddError::Refused)
    ));
    assert!(matches!(
        event
            .add_signal_default(Signal(15))
            .registered(prepared_signal(Signal(15), false), 0, 0),
        Err(AddError::Unnamed)
    ));
    // they stay, in use and without a name
    assert_eq!(event.event_sources.len(), 4);
    assert!(matches!(&event.event_sources[0], EventSource::Time(x)
        if x.event_source == 0 && x.usec == Usec::Absolute(1) && x.borrowed));
    assert!(matches!(&event.event_sources[1], EventSource::Io(x)
        if x.event_source == 0 && x.fd == 1 && x.events == Events(1) && x.borrowed));
    assert!(matches!(&event.event_sources[2], EventSource::Signal(x)
        if x.event_source == 0 && x.signal == Signal(2) && x.handled && x.borrowed));
    assert!(matches!(&event.event_sources[3], EventSource::Signal(x)
        if x.event_source == 0 && x.signal == Signal(15) && !x.handled && x.borrowed));
    assert!(event.get_event_source_time(0).is_none());
    assert!(event.get_event_source_io(0).is_none());
    assert!(event.get_event_source_signal(0).is_none());
    // the event loop has nothing to forget
    assert_eq!(event.clear(), Vec::new());
}

#[test]
fn sources_are_entered_before_they_are_prepared() {
    let mut event = Event::new();
    let handle = event.add_io(-5, Events(1));
    assert_eq!(handle.id(), 0);
    assert_eq!(handle.raw_fd(), -5);
    // the descriptor cannot be prepared, so there is nothing to register
    assert!(IoSetup::new(-5, Events(1)).is_err());
    let unprepared = IoSetup::new(5, Events(1)).unwrap();
    assert!(matches!(
        event.add_io(5, Events(1)).registered(unprepared, 0, 7),
        Err(AddError::Unprepared)
    ));
    let other = prepared_io(6, Events(1));
    assert!(matches!(
        event.add_io(5, Events(1)).registered(other, 0, 7),
        Err(AddError::Unprepared)
    ));
    let mut unblocked = SignalSetup::new(Signal(2), true);
    assert!(unblocked.advance(-1).is_err());
    assert!(matches!(
        event.add_signal(Signal(2)).registered(unblocked, 0, 7),
        Err(AddError::Unprepared)
    ));
    let unhandled = prepared_signal(Signal(2), false);
    assert!(matches!(
        event.add_signal(Signal(2)).registered(unhandled, 0, 7),
        Err(AddError::Unprepared)
    ));
    assert_eq!(event.event_sources.len(), 5);
    assert_eq!(event.clear(), Vec::new());
}

#[test]
fn signals_are_blocked_first() {
    let mut setup = SignalSetup::new(Signal(Signal::INT), true);
    assert_eq!(setup.step(), SignalStep::Block(2));
    assert!(!setup.ready(Signal(2), true));
    assert_eq!(setup.advance(-1), Err("Could not block signal."));
    assert_eq!(setup.step(), SignalStep::Block(2));
    assert_eq!(setup.advance(0), Ok(()));
    let request = Command::AddSignal {
        signal: 2,
        handled: true,
    };
    assert_eq!(setup.step(), SignalStep::Register(request));
    assert!(setup.ready(Signal(2), true));
    assert!(!setup.ready(Signal(2), false));
    assert!(!setup.ready(Signal(15), true));
    assert_eq!(
        prepared_signal(Signal(Signal::TERM), false).step(),
        SignalStep::Register(Command::AddSignal {
            signal: 15,
            handled: false
        })
    );
}

#[test]
fn complaints() {
    let checked = vec![
        (
            Command::AddTime {
                clock: 1,
                usec: 1,
                accuracy: 0,
            },
            "Could not add time event handler to the event loop.",
        ),
        (
            Command::AddIo { fd: 1, events: 1 },
            "Could not add io event handler to the event loop.",
        ),
        (
            Command::AddSignal {
                signal: 2,
                handled: true,
            },
            "Could not add signal event handler to the event loop.",
        ),
        (
            Command::SetIoEvents {
                event_source: 1,
                events: 1,
            },
            "Could not set events on IO event handler.",
        ),
        (
            Command::SetIoFd {
                event_source: 1,
                fd: 1,
            },
            "Failed to set the event handler's file descriptor.",
        ),
        (Command::Exit { code: 0 }, "Event loop exit failure."),
    ];
    for (command, message) in checked {
        assert_eq!(command.failure(-1), Some(message));
        assert_eq!(command.failure(0), None);
    }
    let unchecked = vec![
        Command::SetTime {
            event_source: 1,
            usec: 1,
        },
        Command::SetEnabled {
            event_source: 1,
            enabled: 1,
        },
    ];
    for command in unchecked {
        assert_eq!(command.failure(-1), None);
    }
    assert!(Event::instantiate(0).is_ok());
    match Event::instantiate(-1) {
        Err(message) => assert_eq!(message, "Cannot instantiate the event loop."),
        Ok(_) => panic!("instantiated"),
    }
}

#[test]
fn one_handle_at_a_time() {
    let mut event = Event::new();
    io(&mut event, 7);
    assert!(event.has_io(7));
    assert!(event.get_event_source_io(7).is_some());
    // the handle was not released
    assert!(event.get_event_source_io(7).is_none());
    assert!(!event.has_io(7));
    assert_eq!(event.arm(7, Events(Events::EPOLLOUT), 0, 1), Ok(None));
    match &mut event.event_sources[0] {
        EventSource::Io(x) => x.borrowed = false,
        _ => panic!("not an I/O source"),
    }
    match event.get_event_source_io(7) {
        Some(handle) => handle.release(),
        None => panic!("not found"),
    }
    assert!(event.get_event_source_io(7).is_some());
}

#[test]
fn a_fresh_source_is_in_use() {
    let mut event = Event::new();
    assert!(event.add_time(Usec::Absolute(1), 0, 3).is_ok());
    assert!(event.get_event_source_time(3).is_none());
}

#[test]
fn sources_are_found_by_kind_and_id() {
    let mut event = Event::new();
    io(&mut event, 7);
    match event.add_time(Usec::Absolute(50), 0, 8) {
        Ok(handle) => handle.release(),
        Err(_) => panic!("refused"),
    }
    let int = prepared_signal(Signal(Signal::INT), true);
    match event.add_signal(Signal(Signal::INT)).registered(int, 0, 9) {
        Ok(handle) => handle.release(),
        Err(_) => panic!("refused"),
    }
    let term = prepared_signal(Signal(Signal::TERM), false);
    match event
        .add_signal_default(Signal(Signal::TERM))
        .registered(term, 1, 10)
    {
        Ok(handle) => handle.release(),
        Err(_) => panic!("refused"),
    }
    assert!(event.get_event_source_time(7).is_none());
    assert!(event.get_event_source_signal(8).is_none());
    assert!(event.get_event_source_io(9).is_none());
    assert_eq!(event.get_event_source_io(7).unwrap().id(), 7);
    assert_eq!(event.get_event_source_time(8).unwrap().id(), 8);
    let handle = event.get_event_source_signal(9).unwrap();
    assert!(handle.as_ref().handled);
    let handle = event.get_event_source_signal(10).unwrap();
    assert!(!handle.as_ref().handled);
    assert_eq!(handle.as_ref().signal, Signal(15));
    assert_eq!(event.event_sources[2].id(), 9);
}

#[test]
fn handles_reconfigure_their_source() {
    let mut event = Event::new();
    io(&mut event, 7);
    let mut handle = event.get_event_source_io(7).unwrap();
    assert_eq!(
        handle.enable(),
        Command::SetEnabled {
            event_source: 7,
            enabled: SD_EVENT_ON
        }
    );
    assert_eq!(
        handle.disable(),
        Command::SetEnabled {
            event_source: 7,
            enabled: SD_EVENT_OFF
        }
    );
    assert_eq!(
        handle.oneshot(),
        Command::SetEnabled {
            event_source: 7,
            enabled: SD_EVENT_ONESHOT
        }
    );
    let out = Events(Events::EPOLLOUT);
    assert_eq!(
        handle.add_events(0, 1, out),
        Ok(Command::SetIoEvents {
            event_source: 7,
            events: 5
        })
    );
    assert_eq!(handle.as_ref().events, Events(5));
    assert_eq!(handle.get_events(0, 5), Ok(Events(5)));
    assert_eq!(handle.get_events(1, 9), Ok(Events(9)));
    assert_eq!(handle.get_events(-1, 5), Err(READ_FAILED));
    assert_eq!(
        handle.remove_events(0, 5, out),
        Ok(Command::SetIoEvents {
            event_source: 7,
            events: 1
        })
    );
    // a second removal adds the event
    assert_eq!(
        handle.remove_events(0, 1, out),
        Ok(Command::SetIoEvents {
            event_source: 7,
            events: 5
        })
    );
    // what the event loop says counts
    assert_eq!(
        handle.add_events(0, 8, out),
        Ok(Command::SetIoEvents {
            event_source: 7,
            events: 12
        })
    );
    assert_eq!(handle.add_events(-9, 1, out), Err(READ_FAILED));
    assert_eq!(handle.remove_events(-9, 1, out), Err(READ_FAILED));
    assert_eq!(handle.as_ref().events, Events(12));
    assert_eq!(
        handle.set_events(Events(Events::EPOLLPRI)),
        Command::SetIoEvents {
            event_source: 7,
            events: 2
        }
    );
    assert_eq!(handle.raw_fd(), 10);
    assert_eq!(
        handle.replace(11),
        Command::SetIoFd {
            event_source: 7,
            fd: 11
        }
    );
    assert_eq!(handle.raw_fd(), 11);
    handle.as_mut().fd = 12;
    assert_eq!(handle.raw_fd(), 12);
    handle.release();
    let mut handle = event.dispatched_io(7).unwrap();
    assert_eq!(handle.as_mut().events, Events(2));
}

#[test]
fn arming_and_toggling() {
    let mut event = Event::new();
    io(&mut event, 7);
    io(&mut event, 8);
    let out = Events(Events::EPOLLOUT);
    assert_eq!(
        event.arm(8, out, 0, 1),
        Ok(Some(Command::SetIoEvents {
            event_source: 8,
            events: 5
        }))
    );
    assert_eq!(
        event.arm(8, out, 0, 5),
        Ok(Some(Command::SetIoEvents {
            event_source: 8,
            events: 5
        }))
    );
    assert_eq!(event.toggle(8, out, -1, 5), Err(READ_FAILED));
    assert_eq!(event.arm(8, out, -1, 0), Err(READ_FAILED));
    assert_eq!(
        event.dispatched_io(8).unwrap().as_ref().events,
        Events(Events::EPOLLIN | Events::EPOLLOUT)
    );
    assert_eq!(
        event.toggle(8, out, 0, 5),
        Ok(Some(Command::SetIoEvents {
            event_source: 8,
            events: 1
        }))
    );
    // where there is no source, nothing was read
    assert_eq!(event.arm(9, out, -1, 0), Ok(None));
    assert_eq!(event.toggle(9, out, -1, 0), Ok(None));
    assert_eq!(event.dispatched_io(7).unwrap().as_ref().events, Events(1));
}

#[test]
fn removed_sources_are_gone() {
    let mut event = Event::new();
    io(&mut event, 7);
    io(&mut event, 8);
    io(&mut event, 9);
    assert_eq!(event.remove_event_source(8), Some(8));
    assert_eq!(event.remove_event_source(8), None);
    assert!(event.get_event_source_io(8).is_none());
    assert_eq!(event.clear(), vec![7, 9]);
    assert_eq!(event.event_sources.len(), 0);
    assert_eq!(event.clear(), Vec::new());
}

#[test]
fn time_sources_fire_again() {
    let mut event = Event::new();
    match event.add_time(Usec::Absolute(50), 0, 8) {
        Ok(mut handle) => {
            assert_eq!(
                handle.set_time(Usec::Absolute(60)),
                Command::SetTime {
                    event_source: 8,
                    usec: 60
                }
            );
        }
        Err(_) => panic!("refused"),
    }
    // the handle of a firing source is not subject to other handles
    assert_eq!(
        event.rearm(8, Usec::Absolute(70)),
        Command::SetTime {
            event_source: 8,
            usec: 70
        }
    );
    // a source that its handler removed is told all the same
    assert_eq!(
        event.rearm(9, Usec::Absolute(71)),
        Command::SetTime {
            event_source: 9,
            usec: 71
        }
    );
    assert_eq!(
        event.dispatched_time(8).unwrap().as_ref().usec,
        Usec::Absolute(70)
    );
}

#[test]
fn a_firing_time_source_is_set_again() {
    let mut event = Event::new();
    assert!(event.add_time(Usec::Absolute(50), 0, 8).is_ok());
    let mut firing = TimeFiring::new(8, 55);
    assert_eq!(
        firing.step,
        TimeStep::Call {
            event_source: 8,
            usec: 55
        }
    );
    // nothing was told yet
    firing.told(0);
    assert_eq!(
        firing.step,
        TimeStep::Call {
            event_source: 8,
            usec: 55
        }
    );
    firing.called(&mut event, Usec::Absolute(90));
    let told = TimeStep::Tell(Command::SetTime {
        event_source: 8,
        usec: 90,
    });
    assert_eq!(firing.step, told);
    assert_eq!(
        event.dispatched_time(8).unwrap().as_ref().usec,
        Usec::Absolute(90)
    );
    // the handler is called once
    firing.called(&mut event, Usec::Absolute(91));
    assert_eq!(firing.step, told);
    assert_eq!(
        event.dispatched_time(8).unwrap().as_ref().usec,
        Usec::Absolute(90)
    );
    // whatever the event loop answers
    firing.told(-22);
    assert_eq!(firing.step, TimeStep::Return(0));
}

#[test]
fn a_firing_io_source_is_handled_once() {
    let mut firing = IoFiring::new(7, Events::EPOLLIN | Events::EPOLLHUP);
    assert_eq!(
        firing.step,
        IoFiringStep::Call {
            event_source: 7,
            events: Events(0x11)
        }
    );
    firing.called();
    assert_eq!(firing.step, IoFiringStep::Return(0));
    firing.called();
    assert_eq!(firing.step, IoFiringStep::Return(0));
}

#[test]
fn a_firing_signal_source_is_handled_once() {
    let mut firing = SignalFiring::new(9, true, "info");
    assert_eq!(
        firing.step,
        SignalFiringStep::Call {
            event_source: 9,
            info: "info"
        }
    );
    firing.called();
    assert_eq!(firing.step, SignalFiringStep::Return(0));
    firing.called();
    assert_eq!(firing.step, SignalFiringStep::Return(0));
    // there is nothing to call without a handler
    assert_eq!(
        SignalFiring::new(9, false, "info").step,
        SignalFiringStep::Return(0)
    );
}

#[test]
fn a_time_source_gets_the_time_that_was_asked_for() {
    let mut event = Event::new();
    let request = Event::time_request(Clock::Monotonic, Usec::Absolute(1234), 5);
    match event.add_requested_time(request, 0, 8) {
        Ok(handle) => {
            assert_eq!(handle.id(), 8);
            assert_eq!(handle.as_ref().usec, Usec::Absolute(1234));
            handle.release();
        }
        Err(_) => panic!("refused"),
    }
    assert!(matches!(
        event.add_requested_time(request, -1, 9),
        Err(AddError::Refused)
    ));
    assert!(matches!(&event.event_sources[1], EventSource::Time(x)
        if x.event_source == 0 && x.usec == Usec::Absolute(1234) && x.borrowed));
    // something else was asked for
    assert!(matches!(
        event.add_requested_time(Event::io_request(3, Events(1)), 0, 9),
        Err(AddError::Unprepared)
    ));
    assert_eq!(event.event_sources.len(), 2);
}

#[test]
fn no_source_fires() {
    assert_eq!(IoFiring::new(0, 1).step, IoFiringStep::Return(0));
    assert_eq!(
        SignalFiring::new(0, true, 2).step,
        SignalFiringStep::Return(0)
    );
    let mut event = Event::new();
    let mut firing = TimeFiring::new(0, 55);
    assert_eq!(firing.step, TimeStep::Return(0));
    firing.called(&mut event, Usec::Absolute(90));
    firing.told(0);
    assert_eq!(firing.step, TimeStep::Return(0));
    assert_eq!(event.event_sources.len(), 0);
}

#[test]
fn descriptors_do_not_block() {
    assert_eq!(fd_nonblock(3, 2, true), Ok(Some(0o4002)));
    assert_eq!(fd_nonblock(3, 0o4002, true), Ok(None));
    assert_eq!(fd_nonblock(3, 0o4002, false), Ok(Some(2)));
    // a descriptor that blocks already is changed all the same
    assert_eq!(fd_nonblock(3, 2, false), Ok(Some(0o4002)));
    assert_eq!(fd_nonblock(-1, 2, true), Err(NonblockError::BadDescriptor));
    assert_eq!(fd_nonblock(3, -1, true), Err(NonblockError::NoFlags));
}

#[test]
fn descriptors_are_prepared() {
    let registered = IoStep::Register(Command::AddIo { fd: 5, events: 1 });
    let mut setup = IoSetup::new(5, Events(1)).unwrap();
    assert_eq!(setup.step(), IoStep::ReadFlags);
    assert!(!setup.ready(5, Events(1)));
    assert_eq!(setup.advance(2), Ok(()));
    assert_eq!(setup.step(), IoStep::WriteFlags(0o4002));
    assert!(!setup.ready(5, Events(1)));
    assert_eq!(setup.advance(0), Ok(()));
    assert_eq!(setup.step(), registered);
    assert!(setup.ready(5, Events(1)));
    assert!(!setup.ready(6, Events(1)));
    assert!(!setup.ready(5, Events(4)));

    let mut setup = IoSetup::new(5, Events(1)).unwrap();
    assert_eq!(setup.advance(0o4002), Ok(()));
    assert_eq!(setup.step(), registered);

    let mut setup = IoSetup::new(5, Events(1)).unwrap();
    assert_eq!(
        setup.advance(-1),
        Err("Could not retrieve flag from file descriptor.")
    );
    // the flags of a negative descriptor are not read
    assert_eq!(
        IoSetup::new(-5, Events(1)),
        Err("assertion failed: fd >= 0")
    );
    assert!(IoSetup::new(0, Events(1)).is_ok());
    let mut setup = IoSetup::new(5, Events(1)).unwrap();
    assert_eq!(setup.advance(2), Ok(()));
    assert_eq!(
        setup.advance(-1),
        Err("Could not set the file descriptor to nonblocking.")
    );
}

#[test]
fn userdata_is_made_once() {
    let mut data: Userdata<u64, Vec<u32>> = Userdata::new();
    let mut made = 0;
    data.userdata(1, || {
        made += 1;
        vec![1]
    })
    .push(2);
    assert_eq!(
        *data.userdata(1, || {
            made += 1;
            Vec::new()
        }),
        vec![1, 2]
    );
    assert_eq!(*data.userdata(2, || vec![9]), vec![9]);
    assert_eq!(*data.userdata(1, || Vec::new()), vec![1, 2]);
    assert_eq!(made, 1);
}
