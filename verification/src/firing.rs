//! What is done when a source of the event loop fires: its handler is called, and the event loop gets
//! an answer.
use vstd::prelude::*;
use crate::event::{
    kind_position, Command, Event, EventSource, EventSourceId, EventSourceTime, Kind, Usec,
};
use crate::events::Events;

verus! {

/// What is to be done while a time source fires.
#[derive(Clone, Copy, Debug, PartialEq, Eq, Structural)]
pub enum TimeStep {
    /// The handler of the source is to be called, with the time at which the source fired.
    Call { event_source: EventSourceId, usec: u64 },
    /// The event loop is to be told.
    Tell(Command),
    /// The event loop gets its answer.
    Return(i32),
}

/// A time source that fires.
#[derive(Clone, Copy, Debug, PartialEq, Eq, Structural)]
pub struct TimeFiring {
    pub step: TimeStep,
}

impl TimeFiring {
    /// A firing before anything was done. The source is 0 where there is none.
    pub open spec fn start(event_source: EventSourceId, usec: u64) -> TimeFiring {
        TimeFiring {
            step: if event_source == 0 {
                TimeStep::Return(0)
            } else {
                TimeStep::Call { event_source, usec }
            },
        }
    }

    /// The firing after the handler returned.
    pub open spec fn after_call(self, next: Usec) -> TimeFiring {
        match (self.step, next) {
            (TimeStep::Call { event_source, .. }, Usec::Absolute(at)) => TimeFiring {
                step: TimeStep::Tell(Command::SetTime { event_source, usec: at }),
            },
            _ => self,
        }
    }

    /// The firing after the event loop was told.
    pub open spec fn after_tell(self) -> TimeFiring {
        match self.step {
            TimeStep::Tell(_) => TimeFiring { step: TimeStep::Return(0) },
            _ => self,
        }
    }

    pub fn new(event_source: EventSourceId, usec: u64) -> (r: TimeFiring)
        ensures
            r == TimeFiring::start(event_source, usec),
    {
        if event_source == 0 {
            TimeFiring { step: TimeStep::Return(0) }
        } else {
            TimeFiring { step: TimeStep::Call { event_source, usec } }
        }
    }

    /// The handler returned when the source is to fire next.
    pub fn called(&mut self, event: &mut Event, next: Usec)
        ensures
            *final(self) == old(self).after_call(next),
            match old(self).step {
                TimeStep::Call { event_source, .. } => match kind_position(
                    old(event)@,
                    Kind::Time,
                    event_source,
                ) {
                    Some(k) => {
                        &&& old(event)@[k] matches EventSource::Time(x)
                        &&& final(event)@ == old(event)@.update(
                            k,
                            EventSource::Time(EventSourceTime { usec: next, ..x }),
                        )
                    },
                    None => final(event)@ == old(event)@,
                },
                _ => final(event)@ == old(event)@,
            },
    {
        match self.step {
            TimeStep::Call { event_source, .. } => {
                self.step = TimeStep::Tell(event.rearm(event_source, next));
            },
            _ => {},
        }
    }

    /// The event loop was told. What came back is passed over.
    pub fn told(&mut self, res: i32)
        ensures
            *final(self) == old(self).after_tell(),
    {
        match self.step {
            TimeStep::Tell(_) => {
                self.step = TimeStep::Return(0);
            },
            _ => {},
        }
    }
}

/// What is to be done while an I/O source fires.
#[derive(Clone, Copy, Debug, PartialEq, Eq, Structural)]
pub enum IoFiringStep {
    /// The handler of the source is to be called, with the events that happened.
    Call { event_source: EventSourceId, events: Events },
    /// The event loop gets its answer.
    Return(i32),
}

/// An I/O source that fires.
#[derive(Clone, Copy, Debug, PartialEq, Eq, Structural)]
pub struct IoFiring {
    pub step: IoFiringStep,
}

impl IoFiring {
    /// A firing before anything was done. The source is 0 where there is none.
    pub open spec fn start(event_source: EventSourceId, revents: u32) -> IoFiring {
        IoFiring {
            step: if event_source == 0 {
                IoFiringStep::Return(0)
            } else {
                IoFiringStep::Call { event_source, events: Events(revents) }
            },
        }
    }

    /// The firing after the handler returned.
    pub open spec fn after_call(self) -> IoFiring {
        match self.step {
            IoFiringStep::Call { .. } => IoFiring { step: IoFiringStep::Return(0) },
            IoFiringStep::Return(_) => self,
        }
    }

    pub fn new(event_source: EventSourceId, revents: u32) -> (r: IoFiring)
        ensures
            r == IoFiring::start(event_source, revents),
    {
        if event_source == 0 {
            IoFiring { step: IoFiringStep::Return(0) }
        } else {
            IoFiring { step: IoFiringStep::Call { event_source, events: Events(revents) } }
        }
    }

    /// The handler returned.
    pub fn called(&mut self)
        ensures
            *final(self) == old(self).after_call(),
    {
        match self.step {
            IoFiringStep::Call { .. } => {
                self.step = IoFiringStep::Return(0);
            },
            IoFiringStep::Return(_) => {},
        }
    }
}

/// What is to be done while a signal source fires. `I` is what the event loop tells of the signal.
#[derive(Clone, Copy, Debug, PartialEq, Eq)]
pub enum SignalFiringStep<I> {
    /// The handler of the source is to be called, with what the event loop told.
    Call { event_source: EventSourceId, info: I },
    /// The event loop gets its answer.
    Return(i32),
}

/// A signal source that fires.
#[derive(Clone, Copy, Debug, PartialEq, Eq)]
pub struct SignalFiring<I> {
    pub step: SignalFiringStep<I>,
}

impl<I> SignalFiring<I> {
    /// A firing before anything was done. The source is 0 where there is none; `handled` tells
    /// whether it has a handler.
    pub open spec fn start(event_source: EventSourceId, handled: bool, info: I) -> SignalFiring<I> {
        SignalFiring {
            step: if event_source == 0 || !handled {
                SignalFiringStep::Return(0)
            } else {
                SignalFiringStep::Call { event_source, info }
            },
        }
    }

    /// The firing after the handler returned.
    pub open spec fn after_call(self) -> SignalFiring<I> {
        match self.step {
            SignalFiringStep::Call { .. } => SignalFiring { step: SignalFiringStep::Return(0) },
            SignalFiringStep::Return(_) => self,
        }
    }

    pub fn new(event_source: EventSourceId, handled: bool, info: I) -> (r: SignalFiring<I>)
        ensures
            r == SignalFiring::start(event_source, handled, info),
    {
        if event_source == 0 || !handled {
            SignalFiring { step: SignalFiringStep::Return(0) }
        } else {
            SignalFiring { step: SignalFiringStep::Call { event_source, info } }
        }
    }

    /// The handler returned.
    pub fn called(&mut self)
        ensures
            *final(self) == old(self).after_call(),
    {
        match self.step {
            SignalFiringStep::Call { .. } => {
                self.step = SignalFiringStep::Return(0);
            },
            SignalFiringStep::Return(_) => {},
        }
    }
}

/// A time source that fires has its handler called once, with the source and the time; then the event
/// loop is told once to make it fire when the handler said, whatever comes back; then the event loop
/// gets 0. Where there is no source, the event loop gets 0 at once.
pub proof fn law_time_source_fires(event_source: EventSourceId, usec: u64, next: u64)
    ensures
        ({
            let first = TimeFiring::start(event_source, usec);
            let second = first.after_call(Usec::Absolute(next));
            let third = second.after_tell();
            if event_source == 0 {
                &&& first.step == TimeStep::Return(0)
                &&& second == first
                &&& third == first
            } else {
                &&& first.step == (TimeStep::Call { event_source, usec })
                &&& first.after_tell() == first
                &&& second.step == TimeStep::Tell(Command::SetTime { event_source, usec: next })
                &&& second.after_call(Usec::Absolute(next)) == second
                &&& third.step == TimeStep::Return(0)
                &&& third.after_call(Usec::Absolute(next)) == third
                &&& third.after_tell() == third
            }
        }),
{
}

/// An I/O source that fires has its handler called once, with the source and the events as they were
/// reported; then the event loop gets 0. Where there is no source, the event loop gets 0 at once.
pub proof fn law_io_source_fires(event_source: EventSourceId, revents: u32)
    ensures
        ({
            let first = IoFiring::start(event_source, revents);
            let second = first.after_call();
            if event_source == 0 {
                first.step == IoFiringStep::Return(0) && second == first
            } else {
                &&& first.step == (IoFiringStep::Call { event_source, events: Events(revents) })
                &&& second.step == IoFiringStep::Return(0)
                &&& second.after_call() == second
            }
        }),
{
}

/// A signal source that fires has its handler, if any, called once, with the source and what the
/// event loop told of the signal; then the event loop gets 0. Where there is no source or no
/// handler, the event loop gets 0 at once.
pub proof fn law_signal_source_fires<I>(event_source: EventSourceId, handled: bool, info: I)
    ensures
        ({
            let first = SignalFiring::start(event_source, handled, info);
            let second = first.after_call();
            if event_source == 0 || !handled {
                first.step == SignalFiringStep::<I>::Return(0) && second == first
            } else {
                &&& first.step == (SignalFiringStep::Call { event_source, info })
                &&& second.step == SignalFiringStep::<I>::Return(0)
                &&& second.after_call() == second
            }
        }),
{
}

/// Every firing starts with the call of the handler, where there is a source and a handler, with what the event
/// loop reported; every call of [`IoFiring::called`] and [`SignalFiring::called`] then ends it with 0.
pub proof fn law_firings<I>()
    ensures
        forall|id: EventSourceId, usec: u64, r: TimeFiring| #[trigger]
            call_ensures(TimeFiring::new, (id, usec), r) ==> r.step == if id == 0 {
                TimeStep::Return(0)
            } else {
                TimeStep::Call { event_source: id, usec }
            },
        forall|id: EventSourceId, revents: u32, r: IoFiring| #[trigger]
            call_ensures(IoFiring::new, (id, revents), r) ==> r.step == if id == 0 {
                IoFiringStep::Return(0)
            } else {
                IoFiringStep::Call { event_source: id, events: Events(revents) }
            },
        forall|id: EventSourceId, handled: bool, info: I, r: SignalFiring<I>| #[trigger]
            call_ensures(SignalFiring::<I>::new, (id, handled, info), r) ==> r.step == if id == 0
                || !handled {
                SignalFiringStep::Return(0)
            } else {
                SignalFiringStep::Call { event_source: id, info }
            },
        forall|s: &mut IoFiring, r: ()| #[trigger]
            call_ensures(IoFiring::called, (s,), r) ==> match (*s).step {
                IoFiringStep::Call { .. } => (*final(s)).step == IoFiringStep::Return(0),
                IoFiringStep::Return(_) => (*final(s)).step == (*s).step,
            },
        forall|s: &mut SignalFiring<I>, r: ()| #[trigger]
            call_ensures(SignalFiring::<I>::called, (s,), r) ==> match (*s).step {
                SignalFiringStep::Call { .. } => (*final(s)).step == SignalFiringStep::<I>::Return(
                    0,
                ),
                SignalFiringStep::Return(_) => (*final(s)).step == (*s).step,
            },
        forall|s: &mut TimeFiring, res: i32, r: ()| #[trigger]
            call_ensures(TimeFiring::told, (s, res), r) ==> match (*s).step {
                TimeStep::Tell(_) => (*final(s)).step == TimeStep::Return(0),
                _ => (*final(s)).step == (*s).step,
            },
        forall|s: &mut TimeFiring, e: &mut Event, at: u64, r: ()| #[trigger]
            call_ensures(TimeFiring::called, (s, e, Usec::Absolute(at)), r) ==> match (*s).step {
                TimeStep::Call { event_source, .. } => (*final(s)).step == TimeStep::Tell(
                    Command::SetTime { event_source, usec: at },
                ),
                _ => (*final(s)).step == (*s).step && (*final(e)).event_sources@
                    == (*e).event_sources@,
            },
{
}

} // verus!
