use socket_proxy::activity::{exit_status, interrupted, seconds_to_usec, ActivityMonitor};
use socket_proxy::daemon::{
    listen_fds, notify, notify_monotonic_usec, notify_ready, notify_reloading, notify_status,
    notify_stopping, unset_flag, ListenError, ListenObject, Notification, SocketType,
};
use socket_proxy::event::{AddError, Command, Event, EventSource, Usec, SD_EVENT_ON};
use socket_proxy::journal::{
    log_alert, log_crit, log_debug, log_emerg, log_err, log_info, log_notice, log_warning,
};
use socket_proxy::proxy::pair;
use socket_proxy::text::to_decimal;

fn text(message: Option<Notification>) -> Vec<u8> {
    let message = message.unwrap();
    assert_eq!(message.unset_environment, 0);
    message.state
}

#[test]
fn notifications_have_their_text() {
    assert_eq!(text(notify_ready()), b"READY=1\0".to_vec());
    assert_eq!(text(notify_reloading()), b"RELOADING=1\0".to_vec());
    assert_eq!(text(notify_stopping()), b"STOPPING=1\0".to_vec());
    assert_eq!(
        text(notify_monotonic_usec(18446744073709551615)),
        b"MONOTONIC_USEC=18446744073709551615\0".to_vec()
    );
    assert_eq!(
        text(notify_monotonic_usec(0)),
        b"MONOTONIC_USEC=0\0".to_vec()
    );
    assert_eq!(
        text(notify_status("caf\u{e9}")),
        b"STATUS=caf\xc3\xa9\0".to_vec()
    );
}

#[test]
fn a_nul_cannot_be_notified() {
    assert!(notify_status("a\0b").is_none());
    match notify(true, "\u{e9}\0b\0") {
        Err(e) => {
            assert_eq!(e.position, 2);
            assert_eq!(e.bytes, b"\xc3\xa9\0b\0".to_vec());
        }
        Ok(_) => panic!("accepted"),
    }
    match notify(true, "X=1") {
        Ok(message) => {
            assert_eq!(message.unset_environment, 1);
            assert_eq!(message.state, b"X=1\0".to_vec());
            assert_eq!(message.failure(-5), Some("failed to notify"));
            assert_eq!(message.failure(0), None);
            assert_eq!(message.failure(1), None);
        }
        Err(_) => panic!("refused"),
    }
}

#[test]
fn decimal_numbers() {
    assert_eq!(to_decimal(0), "0");
    assert_eq!(to_decimal(9), "9");
    assert_eq!(to_decimal(10), "10");
    assert_eq!(to_decimal(1234567890), "1234567890");
    assert_eq!(to_decimal(u64::MAX), format!("{}", u64::MAX));
}

#[test]
fn journal_entries_have_their_priority() {
    let entries = vec![
        log_emerg("m"),
        log_alert("m"),
        log_crit("m"),
        log_err("m"),
        log_warning("m"),
        log_notice("m"),
        log_info("m"),
        log_debug("m"),
    ];
    let mut i = 0;
    for entry in &entries {
        assert_eq!(entry.priority, format!("PRIORITY={}", i));
        assert_eq!(entry.message, "MESSAGE=m");
        assert!(entry.sent(0));
        assert!(!entry.sent(-1));
        i += 1;
    }
    assert_eq!(i, 8);
}

#[test]
fn sockets_are_told_apart() {
    let mut scan = listen_fds(2);
    assert_eq!(scan.query(), Some((3, SocketType::Datagram)));
    assert_eq!(scan.answer(1), Ok(()));
    assert_eq!(scan.query(), Some((4, SocketType::Datagram)));
    assert_eq!(scan.answer(0), Ok(()));
    assert_eq!(scan.query(), Some((4, SocketType::Stream)));
    assert_eq!(scan.answer(1), Ok(()));
    assert_eq!(scan.query(), None);
    assert_eq!(
        scan.found,
        vec![ListenObject::UdpSocket(3), ListenObject::TcpListener(4)]
    );
    assert_eq!(scan.found[0].as_raw_fd(), 3);
    assert_eq!(scan.found[1].as_raw_fd(), 4);
}

#[test]
fn sockets_that_cannot_be_told_apart() {
    let mut scan = listen_fds(1);
    assert_eq!(scan.answer(-1), Err(ListenError::UnknownType));
    let mut scan = listen_fds(1);
    assert_eq!(scan.answer(0), Ok(()));
    assert_eq!(scan.answer(-22), Err(ListenError::UnknownType));
    let mut scan = listen_fds(1);
    assert_eq!(scan.answer(0), Ok(()));
    assert_eq!(scan.answer(0), Err(ListenError::NotRecognized));
    assert_eq!(
        ListenError::UnknownType.message(),
        "Failed to determine socket type."
    );
    assert_eq!(
        ListenError::NotRecognized.message(),
        "file descriptor not recognized"
    );
}

#[test]
fn no_sockets() {
    assert_eq!(listen_fds(0).query(), None);
    assert_eq!(listen_fds(-2).query(), None);
    assert_eq!(unset_flag(true), 1);
    assert_eq!(unset_flag(false), 0);
}

#[test]
fn sockets_are_paired_with_servers() {
    let objects = vec![ListenObject::UdpSocket(3), ListenObject::TcpListener(4)];
    let one = vec!["10.0.0.1:53".to_owned()];
    let proxies = pair(&objects, &one);
    assert_eq!(proxies.len(), 1);
    assert_eq!(proxies[0].object, ListenObject::UdpSocket(3));
    assert_eq!(proxies[0].addr_out, "10.0.0.1:53");
    let three = vec!["a".to_owned(), "b".to_owned(), "c".to_owned()];
    let proxies = pair(&objects, &three);
    assert_eq!(proxies.len(), 2);
    assert_eq!(proxies[1].object, ListenObject::TcpListener(4));
    assert_eq!(proxies[1].addr_out, "b");
}

#[test]
fn activity_postpones_the_end() {
    let mut event = Event::new();
    let usec = seconds_to_usec(60);
    assert_eq!(usec, 60_000_000);
    assert_eq!(
        ActivityMonitor::request(1000, usec),
        Command::AddTime {
            clock: 1,
            usec: 60_001_000,
            accuracy: 0
        }
    );
    let (mut monitor, command) = match ActivityMonitor::start(&mut event, 1000, usec, 0, 8) {
        Ok(started) => started,
        Err(_) => panic!("refused"),
    };
    assert_eq!(
        command,
        Command::SetEnabled {
            event_source: 8,
            enabled: SD_EVENT_ON
        }
    );
    assert_eq!(
        monitor.ping(&mut event, 5000),
        Some(Command::SetTime {
            event_source: 8,
            usec: 60_005_000
        })
    );
    assert_eq!(
        monitor.ping(&mut event, 7000),
        Some(Command::SetTime {
            event_source: 8,
            usec: 60_007_000
        })
    );
    match &event.event_sources[0] {
        EventSource::Time(x) => {
            assert_eq!(x.usec, Usec::Absolute(60_007_000));
            assert!(!x.borrowed);
        }
        _ => panic!("not a time source"),
    }
    let idle = ActivityMonitor::expired(&event);
    assert_eq!(idle.command, Command::Exit { code: 0 });
    assert_eq!(idle.rearm, Usec::Absolute(0));
    assert_eq!(
        event.rearm(8, idle.rearm),
        Command::SetTime {
            event_source: 8,
            usec: 0
        }
    );
}

#[test]
fn activity_without_a_time_source() {
    let mut event = Event::new();
    let mut monitor = ActivityMonitor { id: 8, usec: 10 };
    assert_eq!(monitor.ping(&mut event, 5), None);
    assert!(matches!(
        ActivityMonitor::start(&mut event, 0, 1, -12, 0),
        Err(AddError::Refused)
    ));
    assert!(matches!(
        ActivityMonitor::start(&mut event, 0, 1, 0, 0),
        Err(AddError::Unnamed)
    ));
    // what was refused stays, in use and without a name
    assert_eq!(event.event_sources.len(), 2);
    for source in &event.event_sources {
        assert!(matches!(source, EventSource::Time(x)
            if x.event_source == 0 && x.usec == Usec::Absolute(1) && x.borrowed));
    }
}

#[test]
fn exit_codes() {
    let event = Event::new();
    assert_eq!(interrupted(&event), Command::Exit { code: 240 });
    assert_eq!(exit_status(0), 0);
    assert_eq!(exit_status(240), 240);
    assert_eq!(exit_status(256), 0);
    assert_eq!(exit_status(-1), 255);
}
