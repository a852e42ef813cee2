//! The sources of an event loop: their registration, lookup and reconfiguration.
//!
//! The loop itself belongs to systemd. [`Event`] keeps what the program knows of each source of
//! the loop; whatever is to be changed in the loop is returned as a [`Command`].
use vstd::prelude::*;
use crate::events::Events;
use crate::fd::IoSetup;
use crate::search::{
    first_where, is_first_where, lemma_first_where_absent, lemma_first_where_found,
};
use crate::signal::{Signal, SignalSetup};

verus! {

/// Identifies a source of the event loop. Never zero for a registered source.
pub type EventSourceId = u64;

/// A point in time, in microseconds.
#[derive(Clone, Copy, Debug, PartialEq, Eq, Structural)]
pub enum Usec {
    Absolute(u64),
}

/// The clocks that a time source can run on.
#[derive(Clone, Copy, Debug, PartialEq, Eq, Structural)]
pub enum Clock {
    Realtime,
    RealtimeAlarm,
    Monotonic,
    Boottime,
    BoottimeAlarm,
}

impl Clock {
    /// The number of the clock, as the kernel knows it.
    pub open spec fn number(self) -> i32 {
        match self {
            Clock::Realtime => 0,
            Clock::RealtimeAlarm => 8,
            Clock::Monotonic => 1,
            Clock::Boottime => 7,
            Clock::BoottimeAlarm => 9,
        }
    }

    pub fn as_raw(self) -> (r: i32)
        ensures
            r == self.number(),
    {
        match self {
            Clock::Realtime => 0,
            Clock::RealtimeAlarm => 8,
            Clock::Monotonic => 1,
            Clock::Boottime => 7,
            Clock::BoottimeAlarm => 9,
        }
    }
}

/// The source is not watched.
pub const SD_EVENT_OFF: i32 = 0;

/// The source is watched.
pub const SD_EVENT_ON: i32 = 1;

/// The source is watched until it fires.
pub const SD_EVENT_ONESHOT: i32 = -1;

/// A change to be made in the event loop.
#[derive(Clone, Copy, Debug, PartialEq, Eq, Structural)]
pub enum Command {
    AddTime { clock: i32, usec: u64, accuracy: u64 },
    AddIo { fd: i32, events: u32 },
    AddSignal { signal: i32, handled: bool },
    SetTime { event_source: EventSourceId, usec: u64 },
    SetEnabled { event_source: EventSourceId, enabled: i32 },
    SetIoEvents { event_source: EventSourceId, events: u32 },
    SetIoFd { event_source: EventSourceId, fd: i32 },
    Exit { code: i32 },
}

impl Command {
    /// What is reported when the change fails; `None` where a failure is passed over.
    pub open spec fn complaint(self) -> Option<Seq<char>> {
        match self {
            Command::AddTime { .. } => Some(
                "Could not add time event handler to the event loop."@,
            ),
            Command::AddIo { .. } => Some("Could not add io event handler to the event loop."@),
            Command::AddSignal { .. } => Some(
                "Could not add signal event handler to the event loop."@,
            ),
            Command::SetTime { .. } => None,
            Command::SetEnabled { .. } => None,
            Command::SetIoEvents { .. } => Some("Could not set events on IO event handler."@),
            Command::SetIoFd { .. } => Some("Failed to set the event handler's file descriptor."@),
            Command::Exit { .. } => Some("Event loop exit failure."@),
        }
    }

    /// The complaint to be made when the change came back with `res`, if any.
    pub fn failure(&self, res: i32) -> (r: Option<&'static str>)
        ensures
            r is Some <==> res < 0 && self.complaint() is Some,
            r matches Some(message) ==> self.complaint() == Some(message@),
    {
        if res >= 0 {
            return None;
        }
        match self {
            Command::AddTime { .. } => Some("Could not add time event handler to the event loop."),
            Command::AddIo { .. } => Some("Could not add io event handler to the event loop."),
            Command::AddSignal { .. } => Some(
                "Could not add signal event handler to the event loop.",
            ),
            Command::SetTime { .. } => None,
            Command::SetEnabled { .. } => None,
            Command::SetIoEvents { .. } => Some("Could not set events on IO event handler."),
            Command::SetIoFd { .. } => Some("Failed to set the event handler's file descriptor."),
            Command::Exit { .. } => Some("Event loop exit failure."),
        }
    }
}

/// A source that fires at a point in time.
pub struct EventSourceTime {
    pub event_source: EventSourceId,
    pub usec: Usec,
    pub borrowed: bool,
}

/// A source that fires when a file descriptor is ready.
pub struct EventSourceIo {
    pub event_source: EventSourceId,
    pub fd: i32,
    pub events: Events,
    pub borrowed: bool,
}

/// A source that fires when the process gets a signal. Without a handler, the signal ends the loop.
pub struct EventSourceSignal {
    pub event_source: EventSourceId,
    pub signal: Signal,
    pub handled: bool,
    pub borrowed: bool,
}

/// What the three kinds of source have in common.
pub trait Source: Sized {
    spec fn source_id(&self) -> EventSourceId;

    spec fn is_borrowed(&self) -> bool;

    spec fn with_borrowed(self, borrowed: bool) -> Self;

    spec fn with_source_id(self, id: EventSourceId) -> Self;

    fn event_source(&self) -> (r: EventSourceId)
        ensures
            r == self.source_id(),
    ;

    fn borrowed(&self) -> (r: bool)
        ensures
            r == self.is_borrowed(),
    ;

    fn set_borrowed(&mut self, borrowed: bool)
        ensures
            *final(self) == old(self).with_borrowed(borrowed),
    ;

    fn set_event_source(&mut self, id: EventSourceId)
        ensures
            *final(self) == old(self).with_source_id(id),
    ;

    /// A handle to the source, unless there is one already.
    fn try_borrow(&mut self) -> (r: Option<EventSourceHandle<&mut Self>>)
        ensures
            match r {
                Some(handle) => {
                    &&& !old(self).is_borrowed()
                    &&& *handle.0 == old(self).with_borrowed(true)
                    &&& *final(handle.0) == *final(self)
                },
                None => old(self).is_borrowed() && *final(self) == *old(self),
            },
    {
        if self.borrowed() {
            None
        } else {
            self.set_borrowed(true);
            Some(EventSourceHandle(self))
        }
    }

    /// Allows a new handle to the source.
    fn free_borrow(&mut self)
        ensures
            *final(self) == old(self).with_borrowed(false),
    {
        self.set_borrowed(false);
    }
}

impl Source for EventSourceTime {
    open spec fn source_id(&self) -> EventSourceId {
        self.event_source
    }

    open spec fn is_borrowed(&self) -> bool {
        self.borrowed
    }

    open spec fn with_borrowed(self, borrowed: bool) -> Self {
        EventSourceTime { borrowed, ..self }
    }

    open spec fn with_source_id(self, id: EventSourceId) -> Self {
        EventSourceTime { event_source: id, ..self }
    }

    fn event_source(&self) -> EventSourceId {
        self.event_source
    }

    fn borrowed(&self) -> bool {
        self.borrowed
    }

    fn set_borrowed(&mut self, borrowed: bool) {
        self.borrowed = borrowed;
    }

    fn set_event_source(&mut self, id: EventSourceId) {
        self.event_source = id;
    }
}

impl Source for EventSourceIo {
    open spec fn source_id(&self) -> EventSourceId {
        self.event_source
    }

    open spec fn is_borrowed(&self) -> bool {
        self.borrowed
    }

    open spec fn with_borrowed(self, borrowed: bool) -> Self {
        EventSourceIo { borrowed, ..self }
    }

    open spec fn with_source_id(self, id: EventSourceId) -> Self {
        EventSourceIo { event_source: id, ..self }
    }

    fn event_source(&self) -> EventSourceId {
        self.event_source
    }

    fn borrowed(&self) -> bool {
        self.borrowed
    }

    fn set_borrowed(&mut self, borrowed: bool) {
        self.borrowed = borrowed;
    }

    fn set_event_source(&mut self, id: EventSourceId) {
        self.event_source = id;
    }
}

impl Source for EventSourceSignal {
    open spec fn source_id(&self) -> EventSourceId {
        self.event_source
    }

    open spec fn is_borrowed(&self) -> bool {
        self.borrowed
    }

    open spec fn with_borrowed(self, borrowed: bool) -> Self {
        EventSourceSignal { borrowed, ..self }
    }

    open spec fn with_source_id(self, id: EventSourceId) -> Self {
        EventSourceSignal { event_source: id, ..self }
    }

    fn event_source(&self) -> EventSourceId {
        self.event_source
    }

    fn borrowed(&self) -> bool {
        self.borrowed
    }

    fn set_borrowed(&mut self, borrowed: bool) {
        self.borrowed = borrowed;
    }

    fn set_event_source(&mut self, id: EventSourceId) {
        self.event_source = id;
    }
}

/// Whether an outcome is the given one, with the given complaint where it is a failure.
pub open spec fn agrees<T>(r: Result<T, &'static str>, outcome: Result<T, Seq<char>>) -> bool {
    match outcome {
        Ok(value) => r == Ok::<T, &'static str>(value),
        Err(complaint) => r matches Err(message) && message@ == complaint,
    }
}

/// What reading the events of an I/O source from the event loop comes to, given what came back.
pub open spec fn mask_read(res: i32, mask: u32) -> Result<Events, Seq<char>> {
    if res < 0 {
        Err("Could not set events on IO event handler."@)
    } else {
        Ok(Events(mask))
    }
}

/// Exclusive access to a source.
pub struct EventSourceHandle<T>(pub T);

impl<'a, T: Source> EventSourceHandle<&'a mut T> {
    /// The source as it is now.
    pub open spec fn source(&self) -> T {
        *self.0
    }

    pub fn as_mut(&mut self) -> (r: &mut T)
        ensures
            *r == old(self).source(),
            final(self).source() == *final(r),
            *final(final(self).0) == *final(old(self).0),
    {
        &mut *self.0
    }

    pub fn as_ref(&self) -> (r: &T)
        ensures
            *r == self.source(),
    {
        &*self.0
    }

    /// Makes the loop watch the source.
    pub fn enable(&mut self) -> (r: Command)
        ensures
            r == (Command::SetEnabled {
                event_source: old(self).source().source_id(),
                enabled: SD_EVENT_ON,
            }),
            *final(self) == *old(self),
    {
        Command::SetEnabled { event_source: self.id(), enabled: SD_EVENT_ON }
    }

    /// Makes the loop ignore the source.
    pub fn disable(&mut self) -> (r: Command)
        ensures
            r == (Command::SetEnabled {
                event_source: old(self).source().source_id(),
                enabled: SD_EVENT_OFF,
            }),
            *final(self) == *old(self),
    {
        Command::SetEnabled { event_source: self.id(), enabled: SD_EVENT_OFF }
    }

    /// Makes the loop watch the source until it fires.
    pub fn oneshot(&mut self) -> (r: Command)
        ensures
            r == (Command::SetEnabled {
                event_source: old(self).source().source_id(),
                enabled: SD_EVENT_ONESHOT,
            }),
            *final(self) == *old(self),
    {
        Command::SetEnabled { event_source: self.id(), enabled: SD_EVENT_ONESHOT }
    }

    pub fn id(&self) -> (r: EventSourceId)
        ensures
            r == self.source().source_id(),
    {
        self.as_ref().event_source()
    }

    /// Names the source, given what the event loop answered when it was asked to add it and the name
    /// that it gave to it. Without a name the source stays as it is.
    fn named(self, res: i32, event_source: EventSourceId) -> (r: Result<
        EventSourceHandle<&'a mut T>,
        AddError,
    >)
        ensures
            match r {
                Ok(handle) => {
                    &&& acceptance(res, event_source) is Ok
                    &&& *handle.0 == self.source().with_source_id(event_source)
                    &&& *final(handle.0) == *final(self.0)
                },
                Err(e) => {
                    &&& acceptance(res, event_source) == Err::<(), AddError>(e)
                    &&& *final(self.0) == self.source()
                },
            },
    {
        match accept(res, event_source) {
            Ok(()) => {
                let EventSourceHandle(source) = self;
                source.set_event_source(event_source);
                Ok(EventSourceHandle(source))
            },
            Err(e) => Err(e),
        }
    }

    /// Gives the handle up: from then on the source can be looked up again.
    pub fn release(self)
        ensures
            *final(self.0) == self.source().with_borrowed(false),
    {
        self.0.free_borrow();
    }
}

impl<'a> EventSourceHandle<&'a mut EventSourceTime> {
    /// Moves the point in time at which the source fires.
    pub fn set_time(&mut self, usec: Usec) -> (r: Command)
        ensures
            match usec {
                Usec::Absolute(x) => r == (Command::SetTime {
                    event_source: old(self).source().event_source,
                    usec: x,
                }),
            },
            final(self).source() == (EventSourceTime { usec, ..old(self).source() }),
            *final(final(self).0) == *final(old(self).0),
    {
        let id = self.id();
        self.as_mut().usec = usec;
        match usec {
            Usec::Absolute(x) => Command::SetTime { event_source: id, usec: x },
        }
    }
}

impl<'a> EventSourceHandle<&'a mut EventSourceSignal> {
    /// Names the source, given what the event loop answered to the request that `setup` came to and
    /// the name that it gave to the source. Otherwise the source stays in the list without a name.
    pub fn registered(self, setup: SignalSetup, res: i32, event_source: EventSourceId) -> (r:
        Result<EventSourceHandle<&'a mut EventSourceSignal>, AddError>)
        ensures
            match r {
                Ok(handle) => {
                    &&& setup@.is_ready(self.source().signal, self.source().handled)
                    &&& acceptance(res, event_source) is Ok
                    &&& *handle.0 == self.source().with_source_id(event_source)
                    &&& *final(handle.0) == *final(self.0)
                },
                Err(e) => {
                    &&& Err::<(), AddError>(e) == if setup@.is_ready(
                        self.source().signal,
                        self.source().handled,
                    ) {
                        acceptance(res, event_source)
                    } else {
                        Err(AddError::Unprepared)
                    }
                    &&& *final(self.0) == self.source()
                },
            },
    {
        if setup.ready(self.as_ref().signal, self.as_ref().handled) {
            self.named(res, event_source)
        } else {
            Err(AddError::Unprepared)
        }
    }
}

impl<'a> EventSourceHandle<&'a mut EventSourceIo> {
    /// Names the source, given what the event loop answered to the request that `setup` came to and
    /// the name that it gave to the source. Otherwise the source stays in the list without a name.
    pub fn registered(self, setup: IoSetup, res: i32, event_source: EventSourceId) -> (r: Result<
        EventSourceHandle<&'a mut EventSourceIo>,
        AddError,
    >)
        ensures
            match r {
                Ok(handle) => {
                    &&& setup@.is_ready(self.source().fd, self.source().events)
                    &&& acceptance(res, event_source) is Ok
                    &&& *handle.0 == self.source().with_source_id(event_source)
                    &&& *final(handle.0) == *final(self.0)
                },
                Err(e) => {
                    &&& Err::<(), AddError>(e) == if setup@.is_ready(
                        self.source().fd,
                        self.source().events,
                    ) {
                        acceptance(res, event_source)
                    } else {
                        Err(AddError::Unprepared)
                    }
                    &&& *final(self.0) == self.source()
                },
            },
    {
        if setup.ready(self.as_ref().fd, self.as_ref().events) {
            self.named(res, event_source)
        } else {
            Err(AddError::Unprepared)
        }
    }

    /// The events that the source waits for, given what came back when they were read from the
    /// event loop.
    pub fn get_events(&self, res: i32, mask: u32) -> (r: Result<Events, &'static str>)
        ensures
            agrees(r, mask_read(res, mask)),
    {
        if res < 0 {
            return Err("Could not set events on IO event handler.");
        }
        Ok(Events(mask))
    }

    /// Replaces the events that the source waits for.
    pub fn set_events(&mut self, events: Events) -> (r: Command)
        ensures
            r == (Command::SetIoEvents {
                event_source: old(self).source().event_source,
                events: events.0,
            }),
            final(self).source() == (EventSourceIo { events, ..old(self).source() }),
            *final(final(self).0) == *final(old(self).0),
    {
        let id = self.id();
        self.as_mut().events = events;
        Command::SetIoEvents { event_source: id, events: events.0 }
    }

    /// Makes the source wait for `new_events` too, besides those that were read from the event loop.
    pub fn add_events(&mut self, res: i32, mask: u32, new_events: Events) -> (r: Result<
        Command,
        &'static str,
    >)
        ensures
            match mask_read(res, mask) {
                Ok(existing) => {
                    &&& r == Ok::<Command, &'static str>(
                        Command::SetIoEvents {
                            event_source: old(self).source().event_source,
                            events: existing.0 | new_events.0,
                        },
                    )
                    &&& final(self).source() == (EventSourceIo {
                        events: Events(existing.0 | new_events.0),
                        ..old(self).source()
                    })
                    &&& final(self).source().events@ == existing@.union(new_events@)
                },
                Err(complaint) => {
                    &&& r matches Err(message) && message@ == complaint
                    &&& final(self).source() == old(self).source()
                },
            },
            *final(final(self).0) == *final(old(self).0),
    {
        match self.get_events(res, mask) {
            Ok(existing_events) => Ok(self.set_events(existing_events | new_events)),
            Err(message) => Err(message),
        }
    }

    /// Toggles `events` among those that were read from the event loop: those that the source waits
    /// for are removed, the others are added.
    pub fn remove_events(&mut self, res: i32, mask: u32, events: Events) -> (r: Result<
        Command,
        &'static str,
    >)
        ensures
            match mask_read(res, mask) {
                Ok(existing) => {
                    &&& r == Ok::<Command, &'static str>(
                        Command::SetIoEvents {
                            event_source: old(self).source().event_source,
                            events: existing.0 ^ events.0,
                        },
                    )
                    &&& final(self).source() == (EventSourceIo {
                        events: Events(existing.0 ^ events.0),
                        ..old(self).source()
                    })
                },
                Err(complaint) => {
                    &&& r matches Err(message) && message@ == complaint
                    &&& final(self).source() == old(self).source()
                },
            },
            *final(final(self).0) == *final(old(self).0),
    {
        match self.get_events(res, mask) {
            Ok(existing_events) => Ok(self.set_events(existing_events ^ events)),
            Err(message) => Err(message),
        }
    }

    /// The file descriptor that the source watches.
    pub fn raw_fd(&self) -> (r: i32)
        ensures
            r == self.source().fd,
    {
        self.as_ref().fd
    }

    /// Makes the source watch another file descriptor.
    pub fn replace(&mut self, fd: i32) -> (r: Command)
        ensures
            r == (Command::SetIoFd { event_source: old(self).source().event_source, fd }),
            final(self).source() == (EventSourceIo { fd, ..old(self).source() }),
            *final(final(self).0) == *final(old(self).0),
    {
        let id = self.id();
        self.as_mut().fd = fd;
        Command::SetIoFd { event_source: id, fd }
    }
}

/// The kinds of source.
#[derive(Clone, Copy, Debug, PartialEq, Eq, Structural)]
pub enum Kind {
    Time,
    Io,
    Signal,
}

/// A source of the event loop.
pub enum EventSource {
    Time(EventSourceTime),
    Io(EventSourceIo),
    Signal(EventSourceSignal),
}

impl From<EventSourceTime> for EventSource {
    fn from(event_source: EventSourceTime) -> EventSource {
        EventSource::Time(event_source)
    }
}

impl vstd::std_specs::convert::FromSpecImpl<EventSourceTime> for EventSource {
    open spec fn obeys_from_spec() -> bool {
        true
    }

    open spec fn from_spec(event_source: EventSourceTime) -> EventSource {
        EventSource::Time(event_source)
    }
}

impl From<EventSourceIo> for EventSource {
    fn from(event_source: EventSourceIo) -> EventSource {
        EventSource::Io(event_source)
    }
}

impl vstd::std_specs::convert::FromSpecImpl<EventSourceIo> for EventSource {
    open spec fn obeys_from_spec() -> bool {
        true
    }

    open spec fn from_spec(event_source: EventSourceIo) -> EventSource {
        EventSource::Io(event_source)
    }
}

impl From<EventSourceSignal> for EventSource {
    fn from(event_source: EventSourceSignal) -> EventSource {
        EventSource::Signal(event_source)
    }
}

impl vstd::std_specs::convert::FromSpecImpl<EventSourceSignal> for EventSource {
    open spec fn obeys_from_spec() -> bool {
        true
    }

    open spec fn from_spec(event_source: EventSourceSignal) -> EventSource {
        EventSource::Signal(event_source)
    }
}

impl EventSource {
    pub open spec fn source_kind(self) -> Kind {
        match self {
            EventSource::Time(_) => Kind::Time,
            EventSource::Io(_) => Kind::Io,
            EventSource::Signal(_) => Kind::Signal,
        }
    }

    pub open spec fn source_id(self) -> EventSourceId {
        match self {
            EventSource::Time(x) => x.event_source,
            EventSource::Io(x) => x.event_source,
            EventSource::Signal(x) => x.event_source,
        }
    }

    pub open spec fn is_borrowed(self) -> bool {
        match self {
            EventSource::Time(x) => x.borrowed,
            EventSource::Io(x) => x.borrowed,
            EventSource::Signal(x) => x.borrowed,
        }
    }

    /// Whether the source is of a kind, has an id and can be borrowed.
    pub open spec fn is_available(self, kind: Kind, id: EventSourceId) -> bool {
        self.source_kind() == kind && self.source_id() == id && !self.is_borrowed()
    }

    pub fn event_source(&self) -> (r: EventSourceId)
        ensures
            r == self.source_id(),
    {
        match self {
            EventSource::Time(EventSourceTime { event_source, .. }) => *event_source,
            EventSource::Io(EventSourceIo { event_source, .. }) => *event_source,
            EventSource::Signal(EventSourceSignal { event_source, .. }) => *event_source,
        }
    }

    pub fn id(&self) -> (r: EventSourceId)
        ensures
            r == self.source_id(),
    {
        self.event_source()
    }

    fn kind(&self) -> (r: Kind)
        ensures
            r == self.source_kind(),
    {
        match self {
            EventSource::Time(_) => Kind::Time,
            EventSource::Io(_) => Kind::Io,
            EventSource::Signal(_) => Kind::Signal,
        }
    }

    fn borrowed(&self) -> (r: bool)
        ensures
            r == self.is_borrowed(),
    {
        match self {
            EventSource::Time(x) => x.borrowed,
            EventSource::Io(x) => x.borrowed,
            EventSource::Signal(x) => x.borrowed,
        }
    }

    fn available(&self, kind: Kind, id: EventSourceId) -> (r: bool)
        ensures
            r == self.is_available(kind, id),
    {
        self.kind() == kind && self.id() == id && !self.borrowed()
    }

    /// A handle to a time source, unless the source is of another kind or there is a handle
    /// already.
    pub fn as_time(&mut self) -> (r: Option<EventSourceHandle<&mut EventSourceTime>>)
        ensures
            match r {
                Some(handle) => {
                    &&& *old(self) matches EventSource::Time(x)
                    &&& !x.borrowed
                    &&& *handle.0 == x.with_borrowed(true)
                    &&& *final(self) == EventSource::Time(*final(handle.0))
                },
                None => {
                    &&& !(*old(self) matches EventSource::Time(x) && !x.borrowed)
                    &&& *final(self) == *old(self)
                },
            },
    {
        match self {
            EventSource::Time(x) => x.try_borrow(),
            _ => None,
        }
    }

    /// A handle to an I/O source, unless the source is of another kind or there is a handle
    /// already.
    pub fn as_io(&mut self) -> (r: Option<EventSourceHandle<&mut EventSourceIo>>)
        ensures
            match r {
                Some(handle) => {
                    &&& *old(self) matches EventSource::Io(x)
                    &&& !x.borrowed
                    &&& *handle.0 == x.with_borrowed(true)
                    &&& *final(self) == EventSource::Io(*final(handle.0))
                },
                None => {
                    &&& !(*old(self) matches EventSource::Io(x) && !x.borrowed)
                    &&& *final(self) == *old(self)
                },
            },
    {
        match self {
            EventSource::Io(x) => x.try_borrow(),
            _ => None,
        }
    }

    /// A handle to a signal source, unless the source is of another kind or there is a handle
    /// already.
    pub fn as_signal(&mut self) -> (r: Option<EventSourceHandle<&mut EventSourceSignal>>)
        ensures
            match r {
                Some(handle) => {
                    &&& *old(self) matches EventSource::Signal(x)
                    &&& !x.borrowed
                    &&& *handle.0 == x.with_borrowed(true)
                    &&& *final(self) == EventSource::Signal(*final(handle.0))
                },
                None => {
                    &&& !(*old(self) matches EventSource::Signal(x) && !x.borrowed)
                    &&& *final(self) == *old(self)
                },
            },
    {
        match self {
            EventSource::Signal(x) => x.try_borrow(),
            _ => None,
        }
    }
}

/// Where the first source stands that is of a kind, has an id and can be borrowed.
pub open spec fn lookup(sources: Seq<EventSource>, kind: Kind, id: EventSourceId) -> Option<int> {
    first_where(sources, |s: EventSource| s.is_available(kind, id))
}

/// Where the first source with an id stands.
pub open spec fn position(sources: Seq<EventSource>, id: EventSourceId) -> Option<int> {
    first_where(sources, |s: EventSource| s.source_id() == id)
}

/// The sources of an event loop, in the order in which they were added.
pub struct Event {
    pub event_sources: Vec<EventSource>,
}

impl View for Event {
    type V = Seq<EventSource>;

    open spec fn view(&self) -> Seq<EventSource> {
        self.event_sources@
    }
}

/// Why a source could not be added.
#[derive(Clone, Copy, Debug, PartialEq, Eq, Structural)]
pub enum AddError {
    /// The event loop was not to be asked yet, or not for this.
    Unprepared,
    /// The event loop refused the source.
    Refused,
    /// The event loop accepted the source but did not name it.
    Unnamed,
}

/// Whether a source was added, given what the event loop answered and the name that it gave to the
/// source.
pub open spec fn acceptance(res: i32, event_source: EventSourceId) -> Result<(), AddError> {
    if res < 0 {
        Err(AddError::Refused)
    } else if event_source == 0 {
        Err(AddError::Unnamed)
    } else {
        Ok(())
    }
}

fn accept(res: i32, event_source: EventSourceId) -> (r: Result<(), AddError>)
    ensures
        r == acceptance(res, event_source),
{
    if res < 0 {
        Err(AddError::Refused)
    } else if event_source == 0 {
        Err(AddError::Unnamed)
    } else {
        Ok(())
    }
}

impl Default for Event {
    fn default() -> (r: Self)
        ensures
            r@.len() == 0,
    {
        Event { event_sources: Vec::new() }
    }
}

impl Event {
    /// An event loop without sources.
    pub fn new() -> (r: Self)
        ensures
            r@.len() == 0,
    {
        Event::default()
    }

    /// An event loop without sources, given what came back when it was made.
    pub fn instantiate(res: i32) -> (r: Result<Event, &'static str>)
        ensures
            match r {
                Ok(event) => res >= 0 && event@.len() == 0,
                Err(message) => res < 0 && message@ == "Cannot instantiate the event loop."@,
            },
    {
        if res < 0 {
            return Err("Cannot instantiate the event loop.");
        }
        Ok(Event::default())
    }

    /// Ends the event loop.
    pub fn exit(&self, code: i32) -> (r: Command)
        ensures
            r == (Command::Exit { code }),
    {
        Command::Exit { code }
    }

    fn add_event_source(&mut self, event_source: EventSource) -> (r: &mut EventSource)
        ensures
            *r == event_source,
            final(self)@ == old(self)@.push(*final(r)),
    {
        self.event_sources.push(event_source);
        let i = self.event_sources.len() - 1;
        &mut self.event_sources[i]
    }

    /// Takes the first source with the given id out, and returns the name by which the event loop
    /// has to forget it, if any.
    pub fn remove_event_source(&mut self, id: EventSourceId) -> (r: Option<EventSourceId>)
        ensures
            match position(old(self)@, id) {
                Some(k) => {
                    &&& final(self)@ == old(self)@.remove(k)
                    &&& r == if id != 0 { Some(id) } else { None }
                },
                None => final(self)@ == old(self)@ && r is None,
            },
    {
        let ghost p = |s: EventSource| s.source_id() == id;
        let mut i: usize = 0;
        while i < self.event_sources.len()
            invariant
                i <= self@.len(),
                self@ == old(self)@,
                p == (|s: EventSource| s.source_id() == id),
                forall|j: int| 0 <= j < i ==> !p(#[trigger] self@[j]),
            decreases self@.len() - i,
        {
            if self.event_sources[i].id() == id {
                proof {
                    assert(is_first_where(self@, p, i as int));
                    lemma_first_where_found(self@, p, i as int);
                }
                let source = self.event_sources.remove(i);
                return if source.event_source() != 0 {
                    Some(source.event_source())
                } else {
                    None
                };
            }
            i = i + 1;
        }
        proof {
            lemma_first_where_absent(self@, p);
        }
        None
    }

    /// Takes all sources out, and returns the names by which the event loop has to forget them.
    pub fn clear(&mut self) -> (r: Vec<EventSourceId>)
        ensures
            final(self)@.len() == 0,
            r@ == named(old(self)@),
    {
        let mut out: Vec<EventSourceId> = Vec::new();
        let mut i: usize = 0;
        assert(self@.take(0) =~= Seq::empty());
        while i < self.event_sources.len()
            invariant
                i <= self@.len(),
                self@ == old(self)@,
                out@ == named(self@.take(i as int)),
            decreases self@.len() - i,
        {
            let id = self.event_sources[i].event_source();
            if id != 0 {
                out.push(id);
            }
            assert(self@.take(i + 1).drop_last() =~= self@.take(i as int));
            assert(self@.take(i + 1).last() == self@[i as int]);
            i = i + 1;
        }
        assert(self@.take(i as int) =~= self@);
        self.event_sources.clear();
        out
    }
}

/// The names of the sources that have one, in order.
pub open spec fn named(sources: Seq<EventSource>) -> Seq<EventSourceId>
    decreases sources.len(),
{
    if sources.len() == 0 {
        Seq::empty()
    } else if sources.last().source_id() != 0 {
        named(sources.drop_last()).push(sources.last().source_id())
    } else {
        named(sources.drop_last())
    }
}

impl Event {
    /// What is asked of the event loop to add a time source.
    pub fn time_request(clock: Clock, usec: Usec, accuracy: u64) -> (r: Command)
        ensures
            match usec {
                Usec::Absolute(x) => r == (Command::AddTime {
                    clock: clock.number(),
                    usec: x,
                    accuracy,
                }),
            },
    {
        match usec {
            Usec::Absolute(x) => Command::AddTime { clock: clock.as_raw(), usec: x, accuracy },
        }
    }

    /// Enters a time source in the list and names it, given what the event loop answered to the
    /// request and the name that it gave to the source. Without a name the source stays in the list
    /// all the same, in use.
    pub fn add_time(&mut self, usec: Usec, res: i32, event_source: EventSourceId) -> (r: Result<
        EventSourceHandle<&mut EventSourceTime>,
        AddError,
    >)
        ensures
            match r {
                Ok(handle) => {
                    &&& acceptance(res, event_source) is Ok
                    &&& *handle.0 == (EventSourceTime { event_source, usec, borrowed: true })
                    &&& final(self)@ == old(self)@.push(EventSource::Time(*final(handle.0)))
                },
                Err(e) => {
                    &&& acceptance(res, event_source) == Err::<(), AddError>(e)
                    &&& final(self)@ == old(self)@.push(
                        EventSource::Time(
                            EventSourceTime { event_source: 0, usec, borrowed: true },
                        ),
                    )
                },
            },
    {
        let source = self.add_event_source(
            EventSource::from(EventSourceTime { event_source: 0, usec, borrowed: false }),
        );
        source.as_time().unwrap().named(res, event_source)
    }

    /// Enters the time source that `request` asked for, with the time that it asked for. All else is
    /// as for [`Event::add_time`]. What did not ask for a time source is turned away, and nothing is
    /// entered.
    pub fn add_requested_time(
        &mut self,
        request: Command,
        res: i32,
        event_source: EventSourceId,
    ) -> (r: Result<EventSourceHandle<&mut EventSourceTime>, AddError>)
        ensures
            match (request, r) {
                (Command::AddTime { usec, .. }, Ok(handle)) => {
                    &&& acceptance(res, event_source) is Ok
                    &&& *handle.0 == (EventSourceTime {
                        event_source,
                        usec: Usec::Absolute(usec),
                        borrowed: true,
                    })
                    &&& final(self)@ == old(self)@.push(EventSource::Time(*final(handle.0)))
                },
                (Command::AddTime { usec, .. }, Err(e)) => {
                    &&& acceptance(res, event_source) == Err::<(), AddError>(e)
                    &&& final(self)@ == old(self)@.push(
                        EventSource::Time(
                            EventSourceTime {
                                event_source: 0,
                                usec: Usec::Absolute(usec),
                                borrowed: true,
                            },
                        ),
                    )
                },
                (_, Ok(_)) => false,
                (_, Err(e)) => e == AddError::Unprepared && final(self)@ == old(self)@,
            },
    {
        match request {
            Command::AddTime { usec, .. } => self.add_time(
                Usec::Absolute(usec),
                res,
                event_source,
            ),
            _ => Err(AddError::Unprepared),
        }
    }

    /// What is asked of the event loop to add an I/O source.
    pub fn io_request(fd: i32, events: Events) -> (r: Command)
        ensures
            r == (Command::AddIo { fd, events: events.0 }),
    {
        Command::AddIo { fd, events: events.0 }
    }

    /// Enters an I/O source in the list, in use and without a name. Next the file descriptor is
    /// prepared and the event loop is asked ([`IoSetup`]), and the source gets its name
    /// ([`EventSourceHandle::registered`]). Where any of this fails, the source stays in the list as
    /// it is.
    pub fn add_io(&mut self, fd: i32, events: Events) -> (r: EventSourceHandle<&mut EventSourceIo>)
        ensures
            *r.0 == (EventSourceIo { event_source: 0, fd, events, borrowed: true }),
            final(self)@ == old(self)@.push(EventSource::Io(*final(r.0))),
    {
        let source = self.add_event_source(
            EventSource::from(EventSourceIo { event_source: 0, fd, events, borrowed: false }),
        );
        source.as_io().unwrap()
    }

    /// What is asked of the event loop to add a signal source with a handler.
    pub fn signal_request(signal: Signal) -> (r: Command)
        ensures
            r == (Command::AddSignal { signal: signal.0, handled: true }),
    {
        Command::AddSignal { signal: signal.0, handled: true }
    }

    /// Enters a signal source with a handler in the list, in use and without a name. Next the signal
    /// is blocked and the event loop is asked ([`SignalSetup`]), and the source gets its name
    /// ([`EventSourceHandle::registered`]). Where any of this fails, the source stays in the list as
    /// it is.
    pub fn add_signal(&mut self, signal: Signal) -> (r: EventSourceHandle<&mut EventSourceSignal>)
        ensures
            *r.0 == (EventSourceSignal { event_source: 0, signal, handled: true, borrowed: true }),
            final(self)@ == old(self)@.push(EventSource::Signal(*final(r.0))),
    {
        let source = self.add_event_source(
            EventSource::from(
                EventSourceSignal { event_source: 0, signal, handled: true, borrowed: false },
            ),
        );
        source.as_signal().unwrap()
    }

    /// What is asked of the event loop to add a signal source without a handler.
    pub fn signal_default_request(signal: Signal) -> (r: Command)
        ensures
            r == (Command::AddSignal { signal: signal.0, handled: false }),
    {
        Command::AddSignal { signal: signal.0, handled: false }
    }

    /// Enters a signal source without a handler in the list, in use and without a name. What comes
    /// next is as for [`Event::add_signal`].
    pub fn add_signal_default(&mut self, signal: Signal) -> (r: EventSourceHandle<
        &mut EventSourceSignal,
    >)
        ensures
            *r.0 == (EventSourceSignal { event_source: 0, signal, handled: false, borrowed: true }),
            final(self)@ == old(self)@.push(EventSource::Signal(*final(r.0))),
    {
        let source = self.add_event_source(
            EventSource::from(
                EventSourceSignal { event_source: 0, signal, handled: false, borrowed: false },
            ),
        );
        source.as_signal().unwrap()
    }

    fn find(&self, kind: Kind, id: EventSourceId) -> (r: Option<usize>)
        ensures
            match r {
                Some(i) => {
                    &&& lookup(self@, kind, id) == Some(i as int)
                    &&& i < self@.len()
                    &&& self@[i as int].is_available(kind, id)
                },
                None => lookup(self@, kind, id) is None,
            },
    {
        let ghost p = |s: EventSource| s.is_available(kind, id);
        let mut i: usize = 0;
        while i < self.event_sources.len()
            invariant
                i <= self@.len(),
                p == (|s: EventSource| s.is_available(kind, id)),
                forall|j: int| 0 <= j < i ==> !p(#[trigger] self@[j]),
            decreases self@.len() - i,
        {
            if self.event_sources[i].available(kind, id) {
                proof {
                    assert(is_first_where(self@, p, i as int));
                    lemma_first_where_found(self@, p, i as int);
                }
                return Some(i);
            }
            i = i + 1;
        }
        proof {
            lemma_first_where_absent(self@, p);
        }
        None
    }

    /// A handle to the time source with the given id. There is none while another handle to the
    /// source is in use.
    pub fn get_event_source_time(&mut self, id: EventSourceId) -> (r: Option<
        EventSourceHandle<&mut EventSourceTime>,
    >)
        ensures
            match r {
                Some(handle) => {
                    &&& lookup(old(self)@, Kind::Time, id) matches Some(k)
                    &&& old(self)@[k] matches EventSource::Time(x)
                    &&& *handle.0 == x.with_borrowed(true)
                    &&& final(self)@ == old(self)@.update(k, EventSource::Time(*final(handle.0)))
                },
                None => lookup(old(self)@, Kind::Time, id) is None && final(self)@ == old(self)@,
            },
    {
        match self.find(Kind::Time, id) {
            Some(i) => self.event_sources[i].as_time(),
            None => None,
        }
    }

    /// A handle to the I/O source with the given id. There is none while another handle to the
    /// source is in use.
    pub fn get_event_source_io(&mut self, id: EventSourceId) -> (r: Option<
        EventSourceHandle<&mut EventSourceIo>,
    >)
        ensures
            match r {
                Some(handle) => {
                    &&& lookup(old(self)@, Kind::Io, id) matches Some(k)
                    &&& old(self)@[k] matches EventSource::Io(x)
                    &&& *handle.0 == x.with_borrowed(true)
                    &&& final(self)@ == old(self)@.update(k, EventSource::Io(*final(handle.0)))
                },
                None => lookup(old(self)@, Kind::Io, id) is None && final(self)@ == old(self)@,
            },
    {
        match self.find(Kind::Io, id) {
            Some(i) => self.event_sources[i].as_io(),
            None => None,
        }
    }

    /// A handle to the signal source with the given id. There is none while another handle to the
    /// source is in use.
    pub fn get_event_source_signal(&mut self, id: EventSourceId) -> (r: Option<
        EventSourceHandle<&mut EventSourceSignal>,
    >)
        ensures
            match r {
                Some(handle) => {
                    &&& lookup(old(self)@, Kind::Signal, id) matches Some(k)
                    &&& old(self)@[k] matches EventSource::Signal(x)
                    &&& *handle.0 == x.with_borrowed(true)
                    &&& final(self)@ == old(self)@.update(k, EventSource::Signal(*final(handle.0)))
                },
                None => lookup(old(self)@, Kind::Signal, id) is None && final(self)@ == old(self)@,
            },
    {
        match self.find(Kind::Signal, id) {
            Some(i) => self.event_sources[i].as_signal(),
            None => None,
        }
    }

    /// Whether an I/O source with the given id can be looked up.
    pub fn has_io(&self, id: EventSourceId) -> (r: bool)
        ensures
            r == lookup(self@, Kind::Io, id) is Some,
    {
        self.find(Kind::Io, id).is_some()
    }

    /// Makes the I/O source with the given id wait for `events` too, if it can be looked up. `res` and
    /// `mask` are what came back when its events were read from the event loop.
    pub fn arm(&mut self, id: EventSourceId, events: Events, res: i32, mask: u32) -> (r: Result<
        Option<Command>,
        &'static str,
    >)
        ensures
            final(self)@ == armed(old(self)@, id, events, res, mask),
            agrees(r, arming(old(self)@, id, events, res, mask)),
    {
        match self.get_event_source_io(id) {
            Some(mut source) => {
                let r = source.add_events(res, mask, events);
                source.release();
                assert(res < 0 ==> self@ =~= old(self)@);
                match r {
                    Ok(command) => Ok(Some(command)),
                    Err(message) => Err(message),
                }
            },
            None => Ok(None),
        }
    }

    fn find_firing(&self, kind: Kind, id: EventSourceId) -> (r: Option<usize>)
        ensures
            match r {
                Some(i) => {
                    &&& kind_position(self@, kind, id) == Some(i as int)
                    &&& i < self@.len()
                    &&& self@[i as int].source_kind() == kind
                    &&& self@[i as int].source_id() == id
                },
                None => kind_position(self@, kind, id) is None,
            },
    {
        let ghost p = |s: EventSource| s.source_kind() == kind && s.source_id() == id;
        let mut i: usize = 0;
        while i < self.event_sources.len()
            invariant
                i <= self@.len(),
                p == (|s: EventSource| s.source_kind() == kind && s.source_id() == id),
                forall|j: int| 0 <= j < i ==> !p(#[trigger] self@[j]),
            decreases self@.len() - i,
        {
            let source = &self.event_sources[i];
            if source.id() == id && source.kind() == kind {
                proof {
                    assert(is_first_where(self@, p, i as int));
                    lemma_first_where_found(self@, p, i as int);
                }
                return Some(i);
            }
            i = i + 1;
        }
        proof {
            lemma_first_where_absent(self@, p);
        }
        None
    }

    /// The handle that a firing I/O source gets to itself. It does not count as a handle in use.
    pub fn dispatched_io(&mut self, id: EventSourceId) -> (r: Option<
        EventSourceHandle<&mut EventSourceIo>,
    >)
        ensures
            match r {
                Some(handle) => {
                    &&& kind_position(old(self)@, Kind::Io, id) matches Some(k)
                    &&& old(self)@[k] == EventSource::Io(*handle.0)
                    &&& final(self)@ == old(self)@.update(k, EventSource::Io(*final(handle.0)))
                },
                None => kind_position(old(self)@, Kind::Io, id) is None && final(self)@ == old(self)@,
            },
    {
        match self.find_firing(Kind::Io, id) {
            Some(i) => match &mut self.event_sources[i] {
                EventSource::Io(x) => Some(EventSourceHandle(x)),
                _ => None,
            },
            None => None,
        }
    }

    /// The handle that a firing time source gets to itself. It does not count as a handle in use.
    pub fn dispatched_time(&mut self, id: EventSourceId) -> (r: Option<
        EventSourceHandle<&mut EventSourceTime>,
    >)
        ensures
            match r {
                Some(handle) => {
                    &&& kind_position(old(self)@, Kind::Time, id) matches Some(k)
                    &&& old(self)@[k] == EventSource::Time(*handle.0)
                    &&& final(self)@ == old(self)@.update(k, EventSource::Time(*final(handle.0)))
                },
                None => kind_position(old(self)@, Kind::Time, id) is None && final(self)@ == old(
                    self,
                )@,
            },
    {
        match self.find_firing(Kind::Time, id) {
            Some(i) => match &mut self.event_sources[i] {
                EventSource::Time(x) => Some(EventSourceHandle(x)),
                _ => None,
            },
            None => None,
        }
    }

    /// Makes the time source with the given id fire again, at the time that its handler returned.
    pub fn rearm(&mut self, id: EventSourceId, usec: Usec) -> (r: Command)
        ensures
            match usec {
                Usec::Absolute(at) => r == (Command::SetTime { event_source: id, usec: at }),
            },
            match kind_position(old(self)@, Kind::Time, id) {
                Some(k) => {
                    &&& old(self)@[k] matches EventSource::Time(x)
                    &&& final(self)@ == old(self)@.update(
                        k,
                        EventSource::Time(EventSourceTime { usec, ..x }),
                    )
                },
                None => final(self)@ == old(self)@,
            },
    {
        match self.dispatched_time(id) {
            Some(mut source) => source.set_time(usec),
            None => match usec {
                Usec::Absolute(at) => Command::SetTime { event_source: id, usec: at },
            },
        }
    }

    /// Toggles `events` on the I/O source with the given id, while it fires. `res` and `mask` are what
    /// came back when its events were read from the event loop.
    pub fn toggle(&mut self, id: EventSourceId, events: Events, res: i32, mask: u32) -> (r: Result<
        Option<Command>,
        &'static str,
    >)
        ensures
            final(self)@ == toggled(old(self)@, id, events, res, mask),
            agrees(r, toggling(old(self)@, id, events, res, mask)),
    {
        match self.dispatched_io(id) {
            Some(mut source) => match source.remove_events(res, mask, events) {
                Ok(command) => Ok(Some(command)),
                Err(message) => Err(message),
            },
            None => Ok(None),
        }
    }
}

/// Where the first source of a kind with an id stands.
pub open spec fn kind_position(sources: Seq<EventSource>, kind: Kind, id: EventSourceId) -> Option<
    int,
> {
    first_where(sources, |s: EventSource| s.source_kind() == kind && s.source_id() == id)
}

/// The events that an I/O source waits for.
pub open spec fn waits_for(source: EventSource) -> Events {
    match source {
        EventSource::Io(x) => x.events,
        _ => Events(0),
    }
}

/// An I/O source that waits for other events and can be borrowed.
pub open spec fn waiting_for(source: EventSource, events: Events) -> EventSource {
    match source {
        EventSource::Io(x) => EventSource::Io(EventSourceIo { events, borrowed: false, ..x }),
        _ => source,
    }
}

/// The sources after the I/O source with an id was made to wait for `events` too, besides those
/// that were read from the event loop.
pub open spec fn armed(
    sources: Seq<EventSource>,
    id: EventSourceId,
    events: Events,
    res: i32,
    mask: u32,
) -> Seq<EventSource> {
    match lookup(sources, Kind::Io, id) {
        Some(k) => match mask_read(res, mask) {
            Ok(existing) => sources.update(
                k,
                waiting_for(sources[k], Events(existing.0 | events.0)),
            ),
            Err(_) => sources,
        },
        None => sources,
    }
}

/// What the event loop is told when the I/O source with an id is made to wait for `events` too.
pub open spec fn arming(
    sources: Seq<EventSource>,
    id: EventSourceId,
    events: Events,
    res: i32,
    mask: u32,
) -> Result<Option<Command>, Seq<char>> {
    match lookup(sources, Kind::Io, id) {
        Some(k) => match mask_read(res, mask) {
            Ok(existing) => Ok(
                Some(Command::SetIoEvents { event_source: id, events: existing.0 | events.0 }),
            ),
            Err(complaint) => Err(complaint),
        },
        None => Ok(None),
    }
}

/// The sources after `events` was toggled on the I/O source with an id, among those that were read
/// from the event loop.
pub open spec fn toggled(
    sources: Seq<EventSource>,
    id: EventSourceId,
    events: Events,
    res: i32,
    mask: u32,
) -> Seq<EventSource> {
    match kind_position(sources, Kind::Io, id) {
        Some(k) => match (sources[k], mask_read(res, mask)) {
            (EventSource::Io(x), Ok(existing)) => sources.update(
                k,
                EventSource::Io(EventSourceIo { events: Events(existing.0 ^ events.0), ..x }),
            ),
            _ => sources,
        },
        None => sources,
    }
}

/// What the event loop is told when `events` is toggled on the I/O source with an id.
pub open spec fn toggling(
    sources: Seq<EventSource>,
    id: EventSourceId,
    events: Events,
    res: i32,
    mask: u32,
) -> Result<Option<Command>, Seq<char>> {
    match kind_position(sources, Kind::Io, id) {
        Some(_) => match mask_read(res, mask) {
            Ok(existing) => Ok(
                Some(Command::SetIoEvents { event_source: id, events: existing.0 ^ events.0 }),
            ),
            Err(complaint) => Err(complaint),
        },
        None => Ok(None),
    }
}

} // verus!
