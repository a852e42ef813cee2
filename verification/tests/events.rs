use socket_proxy::event::{Clock, SD_EVENT_OFF, SD_EVENT_ON, SD_EVENT_ONESHOT};
use socket_proxy::events::Events;
use socket_proxy::fd::O_NONBLOCK;
use socket_proxy::signal::Signal;

#[test]
fn bits_come_out_in_ascending_order() {
    let set = Events(0x8000_2005);
    assert_eq!(
        set.bits(),
        vec![Events(0x1), Events(0x4), Events(0x2000), Events(0x8000_0000)]
    );
    assert_eq!(Events(0).bits(), Vec::new());
    assert_eq!(Events(u32::MAX).bits().len(), 32);
}

#[test]
fn next_takes_the_lowest_event() {
    let mut set = Events(Events::EPOLLOUT | Events::EPOLLHUP);
    assert_eq!(set.next(), Some(Events(Events::EPOLLOUT)));
    assert_eq!(set, Events(Events::EPOLLHUP));
    assert_eq!(set.next(), Some(Events(Events::EPOLLHUP)));
    assert_eq!(set.next(), None);
    assert_eq!(set, Events(0));
}

#[test]
fn operators_work_on_bits() {
    let a = Events(0b0110);
    let b = Events(0b0011);
    assert_eq!(a | b, Events(0b0111));
    assert_eq!(a & b, Events(0b0010));
    assert_eq!(a ^ b, Events(0b0101));
    assert!(a == Events(6));
    assert!(a != b);
}

#[test]
fn toggling_undoes_adding() {
    let set = Events(Events::EPOLLIN);
    let out = Events(Events::EPOLLOUT);
    assert_eq!((set | out) ^ out, set);
    // toggling what is not there adds it
    assert_eq!(set ^ out, Events(Events::EPOLLIN | Events::EPOLLOUT));
}

#[test]
fn handle_runs_the_matching_callbacks() {
    let mut calls: Vec<u32> = Vec::new();
    let mut set = Events(Events::EPOLLIN | Events::EPOLLHUP);
    let mut inputs = 0;
    let mut outputs = 0;
    set.handle(Events(Events::EPOLLIN), || inputs += 1)
        .handle(Events(Events::EPOLLOUT), || outputs += 1)
        .handle(Events(Events::EPOLLHUP | Events::EPOLLERR), || {
            calls.push(3)
        })
        .end();
    assert_eq!(inputs, 1);
    assert_eq!(outputs, 0);
    assert_eq!(calls, vec![3]);
    assert_eq!(set, Events(Events::EPOLLIN | Events::EPOLLHUP));
}

#[test]
fn a_callback_can_give_away_what_it_holds() {
    let mut set = Events(Events::EPOLLIN);
    let name = String::from("in");
    let mut taken: Option<String> = None;
    set.handle(Events(Events::EPOLLIN | Events::EPOLLOUT), || {
        taken = Some(name)
    })
    .end();
    assert_eq!(taken, Some("in".to_owned()));
}

#[test]
fn intersects_needs_a_shared_event() {
    assert!(Events(6).intersects(Events(2)));
    assert!(!Events(6).intersects(Events(9)));
    assert!(!Events(0).intersects(Events(u32::MAX)));
}

#[test]
fn event_numbers_are_those_of_the_kernel() {
    assert_eq!(Events::EPOLLIN, libc::EPOLLIN as u32);
    assert_eq!(Events::EPOLLOUT, libc::EPOLLOUT as u32);
    assert_eq!(Events::EPOLLRDHUP, libc::EPOLLRDHUP as u32);
    assert_eq!(Events::EPOLLPRI, libc::EPOLLPRI as u32);
    assert_eq!(Events::EPOLLET, libc::EPOLLET as u32);
    assert_eq!(Events::EPOLLERR, libc::EPOLLERR as u32);
    assert_eq!(Events::EPOLLHUP, libc::EPOLLHUP as u32);
}

#[test]
fn signal_numbers_are_those_of_the_kernel() {
    assert_eq!(Signal::HUP, libc::SIGHUP);
    assert_eq!(Signal::INT, libc::SIGINT);
    assert_eq!(Signal::QUIT, libc::SIGQUIT);
    assert_eq!(Signal::ILL, libc::SIGILL);
    assert_eq!(Signal::TRAP, libc::SIGTRAP);
    assert_eq!(Signal::ABRT, libc::SIGABRT);
    assert_eq!(Signal::IOT, libc::SIGIOT);
    assert_eq!(Signal::BUS, libc::SIGBUS);
    assert_eq!(Signal::FPE, libc::SIGFPE);
    assert_eq!(Signal::KILL, libc::SIGKILL);
    assert_eq!(Signal::USR1, libc::SIGUSR1);
    assert_eq!(Signal::SEGV, libc::SIGSEGV);
    assert_eq!(Signal::USR2, libc::SIGUSR2);
    assert_eq!(Signal::PIPE, libc::SIGPIPE);
    assert_eq!(Signal::ALRM, libc::SIGALRM);
    assert_eq!(Signal::TERM, libc::SIGTERM);
    assert_eq!(Signal::STKFLT, libc::SIGSTKFLT);
    assert_eq!(Signal::CHLD, libc::SIGCHLD);
    assert_eq!(Signal::CONT, libc::SIGCONT);
    assert_eq!(Signal::STOP, libc::SIGSTOP);
    assert_eq!(Signal::TSTP, libc::SIGTSTP);
    assert_eq!(Signal::TTIN, libc::SIGTTIN);
    assert_eq!(Signal::TTOU, libc::SIGTTOU);
    assert_eq!(Signal::URG, libc::SIGURG);
    assert_eq!(Signal::XCPU, libc::SIGXCPU);
    assert_eq!(Signal::XFSZ, libc::SIGXFSZ);
    assert_eq!(Signal::VTALRM, libc::SIGVTALRM);
    assert_eq!(Signal::PROF, libc::SIGPROF);
    assert_eq!(Signal::WINCH, libc::SIGWINCH);
    assert_eq!(Signal::IO, libc::SIGIO);
    assert_eq!(Signal::POLL, libc::SIGPOLL);
    assert_eq!(Signal::PWR, libc::SIGPWR);
    assert_eq!(Signal::SYS, libc::SIGSYS);
}

#[test]
fn clock_numbers_are_those_of_the_kernel() {
    assert_eq!(Clock::Realtime.as_raw(), libc::CLOCK_REALTIME);
    assert_eq!(Clock::RealtimeAlarm.as_raw(), libc::CLOCK_REALTIME_ALARM);
    assert_eq!(Clock::Monotonic.as_raw(), libc::CLOCK_MONOTONIC);
    assert_eq!(Clock::Boottime.as_raw(), libc::CLOCK_BOOTTIME);
    assert_eq!(Clock::BoottimeAlarm.as_raw(), libc::CLOCK_BOOTTIME_ALARM);
}

#[test]
fn other_numbers() {
    assert_eq!(O_NONBLOCK, libc::O_NONBLOCK);
    assert_eq!(SD_EVENT_OFF, 0);
    assert_eq!(SD_EVENT_ON, 1);
    assert_eq!(SD_EVENT_ONESHOT, -1);
}
