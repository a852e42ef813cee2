//! What holds of calls that change the sources of an event loop or that tell what to ask of it.
//!
//! As in [`crate::call_laws`], a predicate over plain values tells what an operation is for, and a law
//! says that every call meets it.
use vstd::prelude::*;
use crate::activity::{exit_status, interrupted, seconds_to_usec, ActivityMonitor, Idle};
use crate::event::{
    AddError, Clock, Command, Event, EventSource, EventSourceHandle, EventSourceId, EventSourceIo,
    EventSourceSignal, EventSourceTime, Kind, Usec,
};
use crate::event_laws::{
    has_name, is_like, law_arming_tells_what_is_waited_for, law_lookup_finds_what_is_not_in_use,
    law_sources_are_found_in_use_or_not, law_toggling_tells_what_is_waited_for,
};
use crate::events::Events;
use crate::fd::{IoSetup, IoStep};
use crate::signal::{Signal, SignalSetup, SignalStep};
use crate::tcp;
use crate::udp;

verus! {

/// Whether a source is the I/O source with an id.
pub open spec fn is_io(source: EventSource, id: EventSourceId) -> bool {
    source matches EventSource::Io(x) && x.event_source == id
}

/// Whether a source is the I/O source with an id, and not in use.
pub open spec fn is_free_io(source: EventSource, id: EventSourceId) -> bool {
    source matches EventSource::Io(x) && x.event_source == id && !x.borrowed
}

/// Whether a source is the time source with an id.
pub open spec fn is_time(source: EventSource, id: EventSourceId) -> bool {
    source matches EventSource::Time(x) && x.event_source == id
}

/// Whether a source is the time source with an id, and not in use.
pub open spec fn is_free_time(source: EventSource, id: EventSourceId) -> bool {
    source matches EventSource::Time(x) && x.event_source == id && !x.borrowed
}

/// Whether the source at `k` waits for other events afterwards, as the event loop is told, and nothing else
/// changed.
pub open spec fn waits_as_told(
    before: Seq<EventSource>,
    k: int,
    id: EventSourceId,
    now: Set<u32>,
    after: Seq<EventSource>,
    command: Command,
) -> bool {
    &&& 0 <= k < before.len()
    &&& after.len() == before.len()
    &&& before[k] matches EventSource::Io(x)
    &&& after[k] matches EventSource::Io(y)
    &&& x.event_source == id
    &&& y.event_source == id
    &&& y.fd == x.fd
    &&& y.borrowed == x.borrowed
    &&& y.events@ == now
    &&& command == (Command::SetIoEvents { event_source: id, events: y.events.0 })
    &&& forall|j: int| 0 <= j < before.len() && j != k ==> #[trigger] after[j] == before[j]
}

/// Whether it is the first free I/O source with the id that waits for other events afterwards.
pub open spec fn first_free_waits(
    before: Seq<EventSource>,
    id: EventSourceId,
    now: Set<u32>,
    after: Seq<EventSource>,
    command: Command,
) -> bool {
    exists|k: int|
        {
            &&& #[trigger] waits_as_told(before, k, id, now, after, command)
            &&& is_free_io(before[k], id)
            &&& forall|j: int| 0 <= j < k ==> !is_free_io(#[trigger] before[j], id)
        }
}

/// Whether it is the first I/O source with the id, in use or not, that waits for other events afterwards.
pub open spec fn first_waits(
    before: Seq<EventSource>,
    id: EventSourceId,
    now: Set<u32>,
    after: Seq<EventSource>,
    command: Command,
) -> bool {
    exists|k: int|
        {
            &&& #[trigger] waits_as_told(before, k, id, now, after, command)
            &&& forall|j: int| 0 <= j < k ==> !is_io(#[trigger] before[j], id)
        }
}

/// Arming makes the first free I/O source with the id wait for the new events besides those that the
/// event loop reported, and the event loop is told just that. Without such a source nothing is told,
/// and where the event loop cannot report the events there is a complaint; nothing changes then.
pub open spec fn source_armed(
    before: Event,
    id: EventSourceId,
    events: Events,
    res: i32,
    mask: u32,
    after: Event,
    r: Result<Option<Command>, &'static str>,
) -> bool {
    let (sources, changed) = (before.event_sources@, after.event_sources@);
    match r {
        Ok(Some(command)) => {
            &&& res >= 0
            &&& first_free_waits(sources, id, Events(mask)@.union(events@), changed, command)
        },
        Ok(None) => {
            &&& changed == sources
            &&& forall|j: int| 0 <= j < sources.len() ==> !is_free_io(#[trigger] sources[j], id)
        },
        Err(message) => {
            &&& res < 0
            &&& message@ == "Could not set events on IO event handler."@
            &&& changed == sources
        },
    }
}

/// Toggling turns round whether the first I/O source with the id, in use or not, waits for each of the
/// given events, as the event loop reported it, and the event loop is told just that.
pub open spec fn source_toggled(
    before: Event,
    id: EventSourceId,
    events: Events,
    res: i32,
    mask: u32,
    after: Event,
    r: Result<Option<Command>, &'static str>,
) -> bool {
    let (sources, changed) = (before.event_sources@, after.event_sources@);
    let reported = Events(mask)@;
    match r {
        Ok(Some(command)) => {
            &&& res >= 0
            &&& first_waits(
                sources,
                id,
                reported.difference(events@).union(events@.difference(reported)),
                changed,
                command,
            )
        },
        Ok(None) => {
            &&& changed == sources
            &&& forall|j: int| 0 <= j < sources.len() ==> !is_io(#[trigger] sources[j], id)
        },
        Err(message) => {
            &&& res < 0
            &&& message@ == "Could not set events on IO event handler."@
            &&& changed == sources
        },
    }
}

proof fn lemma_armed(
    before: Event,
    id: EventSourceId,
    events: Events,
    res: i32,
    mask: u32,
    after: Event,
    r: Result<Option<Command>, &'static str>,
)
    requires
        after@ == crate::event::armed(before@, id, events, res, mask),
        crate::event::agrees(r, crate::event::arming(before@, id, events, res, mask)),
    ensures
        source_armed(before, id, events, res, mask, after, r),
{
    let sources = before.event_sources@;
    law_arming_tells_what_is_waited_for(sources, id, events, res, mask);
    law_lookup_finds_what_is_not_in_use(sources, Kind::Io, id);
    match crate::event::lookup(sources, Kind::Io, id) {
        Some(k) => {
            assert(is_free_io(sources[k], id));
            assert forall|j: int| 0 <= j < k implies !is_free_io(#[trigger] sources[j], id) by {
                assert(!is_like(sources[j], Kind::Io, id, false));
            }
            if let Ok(Some(command)) = r {
                assert(waits_as_told(
                    sources,
                    k,
                    id,
                    Events(mask)@.union(events@),
                    after.event_sources@,
                    command,
                ));
                assert(first_free_waits(
                    sources,
                    id,
                    Events(mask)@.union(events@),
                    after.event_sources@,
                    command,
                ));
            }
        },
        None => {
            assert forall|j: int| 0 <= j < sources.len() implies !is_free_io(
                #[trigger] sources[j],
                id,
            ) by {
                assert(!is_like(sources[j], Kind::Io, id, false));
            }
        },
    }
}

proof fn lemma_toggled(
    before: Event,
    id: EventSourceId,
    events: Events,
    res: i32,
    mask: u32,
    after: Event,
    r: Result<Option<Command>, &'static str>,
)
    requires
        after@ == crate::event::toggled(before@, id, events, res, mask),
        crate::event::agrees(r, crate::event::toggling(before@, id, events, res, mask)),
    ensures
        source_toggled(before, id, events, res, mask, after, r),
{
    let sources = before.event_sources@;
    law_toggling_tells_what_is_waited_for(sources, id, events, res, mask);
    law_sources_are_found_in_use_or_not(sources, Kind::Io, id);
    let reported = Events(mask)@;
    let now = reported.difference(events@).union(events@.difference(reported));
    match crate::event::kind_position(sources, Kind::Io, id) {
        Some(k) => {
            assert forall|j: int| 0 <= j < k implies !is_io(#[trigger] sources[j], id) by {
                assert(!crate::event_laws::has_kind_and_name(sources[j], Kind::Io, id));
            }
            if let Ok(Some(command)) = r {
                let y = after.event_sources@[k]->Io_0;
                assert(y.events@ =~= now);
                assert(waits_as_told(sources, k, id, now, after.event_sources@, command));
                assert(first_waits(sources, id, now, after.event_sources@, command));
            }
        },
        None => {
            assert forall|j: int| 0 <= j < sources.len() implies !is_io(#[trigger] sources[j], id) by {
                assert(!crate::event_laws::has_kind_and_name(sources[j], Kind::Io, id));
            }
        },
    }
}

/// Every call of [`Event::arm`] and of [`udp::State::await_writable`] does what it is for.
pub proof fn law_arm()
    ensures
        forall|
            e: &mut Event,
            id: EventSourceId,
            events: Events,
            res: i32,
            mask: u32,
            r: Result<Option<Command>, &'static str>,
        | #[trigger]
            call_ensures(Event::arm, (e, id, events, res, mask), r) ==> source_armed(
                *e,
                id,
                events,
                res,
                mask,
                *final(e),
                r,
            ),
        forall|
            state: &udp::State,
            e: &mut Event,
            id: EventSourceId,
            res: i32,
            mask: u32,
            r: Result<Option<Command>, &'static str>,
        | #[trigger]
            call_ensures(udp::State::await_writable, (state, e, id, res, mask), r) ==> source_armed(
                *e,
                id,
                Events(Events::EPOLLOUT),
                res,
                mask,
                *final(e),
                r,
            ),
{
    assert forall|
        e: &mut Event,
        id: EventSourceId,
        events: Events,
        res: i32,
        mask: u32,
        r: Result<Option<Command>, &'static str>,
    | #[trigger]
        call_ensures(Event::arm, (e, id, events, res, mask), r) implies source_armed(
        *e,
        id,
        events,
        res,
        mask,
        *final(e),
        r,
    ) by {
        lemma_armed(*e, id, events, res, mask, *final(e), r);
    }
    assert forall|
        state: &udp::State,
        e: &mut Event,
        id: EventSourceId,
        res: i32,
        mask: u32,
        r: Result<Option<Command>, &'static str>,
    | #[trigger]
        call_ensures(udp::State::await_writable, (state, e, id, res, mask), r) implies source_armed(
        *e,
        id,
        Events(Events::EPOLLOUT),
        res,
        mask,
        *final(e),
        r,
    ) by {
        lemma_armed(*e, id, Events(Events::EPOLLOUT), res, mask, *final(e), r);
    }
}

/// Every call of [`Event::toggle`] and of [`udp::State::suspend`] does what it is for.
pub proof fn law_toggle()
    ensures
        forall|
            e: &mut Event,
            id: EventSourceId,
            events: Events,
            res: i32,
            mask: u32,
            r: Result<Option<Command>, &'static str>,
        | #[trigger]
            call_ensures(Event::toggle, (e, id, events, res, mask), r) ==> source_toggled(
                *e,
                id,
                events,
                res,
                mask,
                *final(e),
                r,
            ),
        forall|
            state: &udp::State,
            e: &mut Event,
            id: EventSourceId,
            res: i32,
            mask: u32,
            r: Result<Option<Command>, &'static str>,
        | #[trigger]
            call_ensures(udp::State::suspend, (state, e, id, res, mask), r) ==> source_toggled(
                *e,
                id,
                Events(Events::EPOLLIN),
                res,
                mask,
                *final(e),
                r,
            ),
{
    assert forall|
        e: &mut Event,
        id: EventSourceId,
        events: Events,
        res: i32,
        mask: u32,
        r: Result<Option<Command>, &'static str>,
    | #[trigger]
        call_ensures(Event::toggle, (e, id, events, res, mask), r) implies source_toggled(
        *e,
        id,
        events,
        res,
        mask,
        *final(e),
        r,
    ) by {
        lemma_toggled(*e, id, events, res, mask, *final(e), r);
    }
    assert forall|
        state: &udp::State,
        e: &mut Event,
        id: EventSourceId,
        res: i32,
        mask: u32,
        r: Result<Option<Command>, &'static str>,
    | #[trigger]
        call_ensures(udp::State::suspend, (state, e, id, res, mask), r) implies source_toggled(
        *e,
        id,
        Events(Events::EPOLLIN),
        res,
        mask,
        *final(e),
        r,
    ) by {
        lemma_toggled(*e, id, Events(Events::EPOLLIN), res, mask, *final(e), r);
    }
}

/// A socket that something was sent on, or that nothing is left to be sent on, has whether it waits until it
/// can be written to turned round: so it is with every call of [`udp::State::forward`] and of
/// [`udp::State::flush`].
pub proof fn law_sending_toggles()
    ensures
        forall|
            s: &mut udp::State,
            e: &mut Event,
            id: EventSourceId,
            i: usize,
            res: i32,
            mask: u32,
            r: Result<(Option<Command>, Option<Vec<u8>>), &'static str>,
        | #[trigger]
            call_ensures(udp::State::forward, (s, e, id, i, res, mask), r) && (*s).wf() && i
                < (*s).clients@.len() ==> source_toggled(
                *e,
                id,
                Events(Events::EPOLLOUT),
                res,
                mask,
                *final(e),
                told(r),
            ),
        forall|
            s: &mut udp::State,
            e: &mut Event,
            id: EventSourceId,
            res: i32,
            mask: u32,
            r: Result<(Option<Command>, Vec<udp::Datagram>), &'static str>,
        | #[trigger]
            call_ensures(udp::State::flush, (s, e, id, res, mask), r) && (*s).wf()
                ==> source_toggled(
                *e,
                id,
                Events(Events::EPOLLOUT),
                res,
                mask,
                *final(e),
                told(r),
            ),
{
    assert forall|
        s: &mut udp::State,
        e: &mut Event,
        id: EventSourceId,
        i: usize,
        res: i32,
        mask: u32,
        r: Result<(Option<Command>, Option<Vec<u8>>), &'static str>,
    | #[trigger]
        call_ensures(udp::State::forward, (s, e, id, i, res, mask), r) && (*s).wf() && i
            < (*s).clients@.len() implies source_toggled(
        *e,
        id,
        Events(Events::EPOLLOUT),
        res,
        mask,
        *final(e),
        told(r),
    ) by {
        lemma_toggled(*e, id, Events(Events::EPOLLOUT), res, mask, *final(e), told(r));
    }
    assert forall|
        s: &mut udp::State,
        e: &mut Event,
        id: EventSourceId,
        res: i32,
        mask: u32,
        r: Result<(Option<Command>, Vec<udp::Datagram>), &'static str>,
    | #[trigger]
        call_ensures(udp::State::flush, (s, e, id, res, mask), r)
            && (*s).wf() implies source_toggled(
        *e,
        id,
        Events(Events::EPOLLOUT),
        res,
        mask,
        *final(e),
        told(r),
    ) by {
        lemma_toggled(*e, id, Events(Events::EPOLLOUT), res, mask, *final(e), told(r));
    }
}

/// What the event loop is told, of all that came out.
pub open spec fn told<T>(r: Result<(Option<Command>, T), &'static str>) -> Result<
    Option<Command>,
    &'static str,
> {
    match r {
        Ok((command, _)) => Ok(command),
        Err(message) => Err(message),
    }
}

/// Removing takes the first source with the id out, in use or not, and leaves the others in order; the event
/// loop has to forget it by its name. Where there is none nothing changes.
pub open spec fn source_removed(
    before: Event,
    id: EventSourceId,
    after: Event,
    r: Option<EventSourceId>,
) -> bool {
    let (sources, rest) = (before.event_sources@, after.event_sources@);
    if exists|k: int| 0 <= k < sources.len() && has_name(#[trigger] sources[k], id) {
        &&& r == if id == 0 { None } else { Some(id) }
        &&& exists|k: int|
            {
                &&& #[trigger] taken_out(sources, k, rest)
                &&& has_name(sources[k], id)
                &&& forall|j: int| 0 <= j < k ==> !has_name(#[trigger] sources[j], id)
            }
    } else {
        r is None && rest == sources
    }
}

/// Whether all sources but the one at `k` are left, in order.
pub open spec fn taken_out(sources: Seq<EventSource>, k: int, rest: Seq<EventSource>) -> bool {
    &&& 0 <= k < sources.len()
    &&& rest.len() == sources.len() - 1
    &&& forall|j: int| 0 <= j < k ==> #[trigger] rest[j] == sources[j]
    &&& forall|j: int| k <= j < rest.len() ==> #[trigger] rest[j] == sources[j + 1]
}

/// Every call of [`Event::remove_event_source`] does what it is for.
pub proof fn law_remove_event_source()
    ensures
        forall|e: &mut Event, id: EventSourceId, r: Option<EventSourceId>| #[trigger]
            call_ensures(Event::remove_event_source, (e, id), r) ==> source_removed(
                *e,
                id,
                *final(e),
                r,
            ),
{
    assert forall|e: &mut Event, id: EventSourceId, r: Option<EventSourceId>| #[trigger]
        call_ensures(Event::remove_event_source, (e, id), r) implies source_removed(
        *e,
        id,
        *final(e),
        r,
    ) by {
        let (sources, rest) = ((*e).event_sources@, (*final(e)).event_sources@);
        law_sources_are_found_in_use_or_not(sources, Kind::Io, id);
        if let Some(k) = crate::event::position(sources, id) {
            assert(has_name(sources[k], id));
            assert(taken_out(sources, k, rest));
        }
    }
}

/// The connection that a listening socket accepted ends its source, where there are pipes for the
/// connection, and otherwise changes nothing: so it is with every call of [`tcp::State::open`].
pub proof fn law_open()
    ensures
        forall|
            state: &tcp::State,
            e: &mut Event,
            listener: EventSourceId,
            pipe_in: Option<crate::pipe::Pipe>,
            pipe_out: Option<crate::pipe::Pipe>,
            r: tcp::Opened,
        | #[trigger]
            call_ensures(tcp::State::open, (state, e, listener, pipe_in, pipe_out), r)
                && crate::event::lookup((*e)@, Kind::Io, listener) is Some ==> match r {
                tcp::Opened::NoPipes => {
                    &&& pipe_in is None || pipe_out is None
                    &&& (*final(e)).event_sources@ == (*e).event_sources@
                },
                tcp::Opened::Closed { forget } => {
                    &&& pipe_in is Some && pipe_out is Some
                    &&& source_removed(*e, listener, *final(e), forget)
                },
            },
{
    assert forall|
        state: &tcp::State,
        e: &mut Event,
        listener: EventSourceId,
        pipe_in: Option<crate::pipe::Pipe>,
        pipe_out: Option<crate::pipe::Pipe>,
        r: tcp::Opened,
    | #[trigger]
        call_ensures(tcp::State::open, (state, e, listener, pipe_in, pipe_out), r)
            && crate::event::lookup((*e)@, Kind::Io, listener) is Some implies match r {
        tcp::Opened::NoPipes => {
            &&& pipe_in is None || pipe_out is None
            &&& (*final(e)).event_sources@ == (*e).event_sources@
        },
        tcp::Opened::Closed { forget } => {
            &&& pipe_in is Some && pipe_out is Some
            &&& source_removed(*e, listener, *final(e), forget)
        },
    } by {
        let (sources, rest) = ((*e).event_sources@, (*final(e)).event_sources@);
        law_sources_are_found_in_use_or_not(sources, Kind::Io, listener);
        if let tcp::Opened::Closed { .. } = r {
            let k = crate::event::position(sources, listener).unwrap();
            assert(has_name(sources[k], listener));
            assert(taken_out(sources, k, rest));
        }
    }
}

/// Whether the time source at `k` is set to another time afterwards, and nothing else changed; `borrowed` is
/// whether it is then in use.
pub open spec fn fires_at(
    before: Seq<EventSource>,
    k: int,
    id: EventSourceId,
    usec: u64,
    borrowed: bool,
    after: Seq<EventSource>,
) -> bool {
    &&& 0 <= k < before.len()
    &&& after.len() == before.len()
    &&& is_time(before[k], id)
    &&& after[k] == EventSource::Time(
        EventSourceTime { event_source: id, usec: Usec::Absolute(usec), borrowed },
    )
    &&& forall|j: int| 0 <= j < before.len() && j != k ==> #[trigger] after[j] == before[j]
}

/// Activity sets the first free time source with the id of the monitor to the whole time from now, and the
/// event loop is told just that: so it is with every call of [`ActivityMonitor::ping`]. Without such a
/// source nothing is told or changed.
pub proof fn law_ping()
    ensures
        forall|m: &mut ActivityMonitor, e: &mut Event, now: u64, r: Option<Command>| #[trigger]
            call_ensures(ActivityMonitor::ping, (m, e, now), r) && now + (*m).usec <= u64::MAX
                ==> {
                let (sources, changed) = ((*e).event_sources@, (*final(e)).event_sources@);
                let (id, at) = ((*m).id, (now + (*m).usec) as u64);
                &&& *final(m) == *m
                &&& match r {
                    Some(command) => {
                        &&& command == (Command::SetTime { event_source: id, usec: at })
                        &&& exists|k: int|
                            {
                                &&& #[trigger] fires_at(sources, k, id, at, false, changed)
                                &&& is_free_time(sources[k], id)
                                &&& forall|j: int|
                                    0 <= j < k ==> !is_free_time(#[trigger] sources[j], id)
                            }
                    },
                    None => {
                        &&& changed == sources
                        &&& forall|j: int|
                            0 <= j < sources.len() ==> !is_free_time(#[trigger] sources[j], id)
                    },
                }
            },
{
    assert forall|m: &mut ActivityMonitor, e: &mut Event, now: u64, r: Option<Command>| #[trigger]
        call_ensures(ActivityMonitor::ping, (m, e, now), r) && now + (*m).usec
            <= u64::MAX implies {
        let (sources, changed) = ((*e).event_sources@, (*final(e)).event_sources@);
        let (id, at) = ((*m).id, (now + (*m).usec) as u64);
        &&& *final(m) == *m
        &&& match r {
            Some(command) => {
                &&& command == (Command::SetTime { event_source: id, usec: at })
                &&& exists|k: int|
                    {
                        &&& #[trigger] fires_at(sources, k, id, at, false, changed)
                        &&& is_free_time(sources[k], id)
                        &&& forall|j: int| 0 <= j < k ==> !is_free_time(#[trigger] sources[j], id)
                    }
            },
            None => {
                &&& changed == sources
                &&& forall|j: int|
                    0 <= j < sources.len() ==> !is_free_time(#[trigger] sources[j], id)
            },
        }
    } by {
        let (sources, changed) = ((*e).event_sources@, (*final(e)).event_sources@);
        let (id, at) = ((*m).id, (now + (*m).usec) as u64);
        law_lookup_finds_what_is_not_in_use(sources, Kind::Time, id);
        match crate::event::lookup(sources, Kind::Time, id) {
            Some(k) => {
                crate::activity::law_activity_moves_one_deadline(sources, id, at, k);
                assert(fires_at(sources, k, id, at, false, changed));
                assert(is_free_time(sources[k], id));
                assert forall|j: int| 0 <= j < k implies !is_free_time(
                    #[trigger] sources[j],
                    id,
                ) by {
                    assert(!is_like(sources[j], Kind::Time, id, false));
                }
            },
            None => {
                assert forall|j: int| 0 <= j < sources.len() implies !is_free_time(
                    #[trigger] sources[j],
                    id,
                ) by {
                    assert(!is_like(sources[j], Kind::Time, id, false));
                }
            },
        }
    }
}

/// A time source that fired is told, and set, to fire when its handler said: so it is with every call of
/// [`Event::rearm`].
pub proof fn law_rearm()
    ensures
        forall|e: &mut Event, id: EventSourceId, at: u64, r: Command| #[trigger]
            call_ensures(Event::rearm, (e, id, Usec::Absolute(at)), r) ==> {
                let (sources, changed) = ((*e).event_sources@, (*final(e)).event_sources@);
                &&& r == (Command::SetTime { event_source: id, usec: at })
                &&& if exists|k: int| 0 <= k < sources.len() && is_time(#[trigger] sources[k], id) {
                    exists|k: int, borrowed: bool|
                        {
                            &&& #[trigger] fires_at(sources, k, id, at, borrowed, changed)
                            &&& sources[k]->Time_0.borrowed == borrowed
                            &&& forall|j: int| 0 <= j < k ==> !is_time(#[trigger] sources[j], id)
                        }
                } else {
                    changed == sources
                }
            },
{
    assert forall|e: &mut Event, id: EventSourceId, at: u64, r: Command| #[trigger]
        call_ensures(Event::rearm, (e, id, Usec::Absolute(at)), r) implies {
        let (sources, changed) = ((*e).event_sources@, (*final(e)).event_sources@);
        &&& r == (Command::SetTime { event_source: id, usec: at })
        &&& if exists|k: int| 0 <= k < sources.len() && is_time(#[trigger] sources[k], id) {
            exists|k: int, borrowed: bool|
                {
                    &&& #[trigger] fires_at(sources, k, id, at, borrowed, changed)
                    &&& sources[k]->Time_0.borrowed == borrowed
                    &&& forall|j: int| 0 <= j < k ==> !is_time(#[trigger] sources[j], id)
                }
        } else {
            changed == sources
        }
    } by {
        let (sources, changed) = ((*e).event_sources@, (*final(e)).event_sources@);
        law_sources_are_found_in_use_or_not(sources, Kind::Time, id);
        match crate::event::kind_position(sources, Kind::Time, id) {
            Some(k) => {
                assert forall|j: int| 0 <= j < k implies !is_time(#[trigger] sources[j], id) by {
                    assert(!crate::event_laws::has_kind_and_name(sources[j], Kind::Time, id));
                }
                assert(is_time(sources[k], id));
                assert(fires_at(sources, k, id, at, sources[k]->Time_0.borrowed, changed));
            },
            None => {
                assert forall|j: int| 0 <= j < sources.len() implies !is_time(
                    #[trigger] sources[j],
                    id,
                ) by {
                    assert(!crate::event_laws::has_kind_and_name(sources[j], Kind::Time, id));
                }
            },
        }
    }
}

/// The end of the service is asked for on the monotonic clock, the whole time from now; the time source
/// that is entered fires then, and is named and enabled as the event loop named it.
pub proof fn law_start()
    ensures
        forall|now: u64, usec: u64, r: Command| #[trigger]
            call_ensures(ActivityMonitor::request, (now, usec), r) && now + usec <= u64::MAX ==> r
                == (Command::AddTime { clock: 1, usec: (now + usec) as u64, accuracy: 0 }),
        forall|
            e: &mut Event,
            now: u64,
            usec: u64,
            res: i32,
            id: EventSourceId,
            r: Result<(ActivityMonitor, Command), AddError>,
        | #[trigger]
            call_ensures(ActivityMonitor::start, (e, now, usec, res, id), r) && now + usec
                <= u64::MAX ==> {
                let (sources, changed) = ((*e).event_sources@, (*final(e)).event_sources@);
                let last = changed[sources.len() as int];
                let at = Usec::Absolute((now + usec) as u64);
                &&& changed.len() == sources.len() + 1
                &&& forall|j: int| 0 <= j < sources.len() ==> #[trigger] changed[j] == sources[j]
                &&& match r {
                    Ok((monitor, command)) => {
                        &&& res >= 0 && id != 0
                        &&& monitor.id == id
                        &&& monitor.usec == usec
                        &&& command == (Command::SetEnabled { event_source: id, enabled: 1 })
                        &&& last == EventSource::Time(
                            EventSourceTime { event_source: id, usec: at, borrowed: false },
                        )
                    },
                    Err(e) => {
                        &&& if res < 0 {
                            e == AddError::Refused
                        } else {
                            e == AddError::Unnamed && id == 0
                        }
                        &&& last == EventSource::Time(
                            EventSourceTime { event_source: 0, usec: at, borrowed: true },
                        )
                    },
                }
            },
{
}

/// The service ends without activity with code 0, and when it is interrupted with code 240; seconds have a
/// million microseconds, and the exit status is the lowest byte of what the event loop came back with.
pub proof fn law_service_end(event: Event, idle: Idle, command: Command)
    requires
        call_ensures(ActivityMonitor::expired, (&event,), idle),
        call_ensures(interrupted, (&event,), command),
    ensures
        idle.command == (Command::Exit { code: 0 }),
        idle.rearm == Usec::Absolute(0),
        command == (Command::Exit { code: 240 }),
        forall|seconds: u64, r: u64| #[trigger]
            call_ensures(seconds_to_usec, (seconds,), r) && seconds * 1000000 <= u64::MAX ==> r
                == seconds * 1000000,
        forall|res: i32, r: u8| #[trigger]
            call_ensures(exit_status, (res,), r) ==> (res - r) % 256 == 0,
{
}

/// What is asked of the event loop carries what it is asked for, unchanged.
pub proof fn law_requests()
    ensures
        forall|clock: Clock, at: u64, accuracy: u64, r: Command| #[trigger]
            call_ensures(Event::time_request, (clock, Usec::Absolute(at), accuracy), r) ==> r == (
            Command::AddTime {
                clock: match clock {
                    Clock::Realtime => 0,
                    Clock::Monotonic => 1,
                    Clock::Boottime => 7,
                    Clock::RealtimeAlarm => 8,
                    Clock::BoottimeAlarm => 9,
                },
                usec: at,
                accuracy,
            }),
        forall|fd: i32, events: Events, r: Command| #[trigger]
            call_ensures(Event::io_request, (fd, events), r) ==> r == (Command::AddIo {
                fd,
                events: events.0,
            }),
        forall|signal: Signal, r: Command| #[trigger]
            call_ensures(Event::signal_request, (signal,), r) ==> r == (Command::AddSignal {
                signal: signal.0,
                handled: true,
            }),
        forall|signal: Signal, r: Command| #[trigger]
            call_ensures(Event::signal_default_request, (signal,), r) ==> r == (
            Command::AddSignal { signal: signal.0, handled: false }),
        forall|event: &Event, code: i32, r: Command| #[trigger]
            call_ensures(Event::exit, (event, code), r) ==> r == (Command::Exit { code }),
{
}

/// Clearing leaves no source, and the event loop has to forget every name, in order.
pub proof fn law_clear()
    ensures
        forall|e: &mut Event, r: Vec<EventSourceId>| #[trigger]
            call_ensures(Event::clear, (e,), r) ==> (*final(e)).event_sources@.len() == 0 && r@
                == crate::event::named((*e).event_sources@),
        forall|event: &Event, id: EventSourceId, r: bool| #[trigger]
            call_ensures(Event::has_io, (event, id), r) ==> (r <==> exists|k: int|
                0 <= k < event.event_sources@.len() && is_free_io(
                    #[trigger] event.event_sources@[k],
                    id,
                )),
{
    assert forall|event: &Event, id: EventSourceId, r: bool| #[trigger]
        call_ensures(Event::has_io, (event, id), r) implies (r <==> exists|k: int|
        0 <= k < event.event_sources@.len() && is_free_io(
            #[trigger] event.event_sources@[k],
            id,
        )) by {
        let sources = event.event_sources@;
        law_lookup_finds_what_is_not_in_use(sources, Kind::Io, id);
        if let Some(k) = crate::event::lookup(sources, Kind::Io, id) {
            assert(is_free_io(sources[k], id));
        } else {
            assert forall|j: int| 0 <= j < sources.len() implies !is_free_io(
                #[trigger] sources[j],
                id,
            ) by {
                assert(!is_like(sources[j], Kind::Io, id, false));
            }
        }
    }
}

/// A source that is armed with events that the event loop did not report, and then toggled, waits for what
/// was reported.
pub proof fn law_arm_then_toggle(
    before: Event,
    id: EventSourceId,
    events: Events,
    mask: u32,
    between: Event,
    told: u32,
    after: Event,
    last: u32,
)
    requires
        source_armed(
            before,
            id,
            events,
            0,
            mask,
            between,
            Ok(Some(Command::SetIoEvents { event_source: id, events: told })),
        ),
        source_toggled(
            between,
            id,
            events,
            0,
            told,
            after,
            Ok(Some(Command::SetIoEvents { event_source: id, events: last })),
        ),
        Events(mask)@.disjoint(events@),
    ensures
        last == mask,
{
    let armed_command = Command::SetIoEvents { event_source: id, events: told };
    let toggled_command = Command::SetIoEvents { event_source: id, events: last };
    let wider = Events(mask)@.union(events@);
    let k = choose|k: int| #[trigger]
        waits_as_told(
            before.event_sources@,
            k,
            id,
            wider,
            between.event_sources@,
            armed_command,
        );
    assert(first_free_waits(
        before.event_sources@,
        id,
        wider,
        between.event_sources@,
        armed_command,
    ));
    assert(Events(told)@ == wider);
    let turned = Events(told)@.difference(events@).union(events@.difference(Events(told)@));
    let l = choose|l: int| #[trigger]
        waits_as_told(
            between.event_sources@,
            l,
            id,
            turned,
            after.event_sources@,
            toggled_command,
        );
    assert(first_waits(
        between.event_sources@,
        id,
        turned,
        after.event_sources@,
        toggled_command,
    ));
    assert(Events(last)@ == turned);
    assert(turned =~= Events(mask)@);
    crate::events::law_same_events_same_set(Events(last), Events(mask));
}

/// A handle to an I/O source changes what it is asked to change, as the event loop is told, and nothing else
/// of the source.
pub proof fn law_io_handles()
    ensures
        forall|h: &mut EventSourceHandle<&mut EventSourceIo>, fd: i32, r: Command| #[trigger]
            call_ensures(EventSourceHandle::<&mut EventSourceIo>::replace, (h, fd), r) ==> {
                let (before, after) = ((*h).source(), (*final(h)).source());
                &&& r == (Command::SetIoFd { event_source: before.event_source, fd })
                &&& after.fd == fd
                &&& after.event_source == before.event_source
                &&& after.events == before.events
                &&& after.borrowed == before.borrowed
            },
        forall|h: &mut EventSourceHandle<&mut EventSourceIo>, events: Events, r: Command|
            #[trigger]
            call_ensures(EventSourceHandle::<&mut EventSourceIo>::set_events, (h, events), r)
                ==> {
                let (before, after) = ((*h).source(), (*final(h)).source());
                &&& r == (Command::SetIoEvents {
                    event_source: before.event_source,
                    events: events.0,
                })
                &&& after.events == events
                &&& after.event_source == before.event_source
                &&& after.fd == before.fd
                &&& after.borrowed == before.borrowed
            },
        forall|
            h: &mut EventSourceHandle<&mut EventSourceIo>,
            res: i32,
            mask: u32,
            events: Events,
            r: Result<Command, &'static str>,
        | #[trigger]
            call_ensures(
                EventSourceHandle::<&mut EventSourceIo>::add_events,
                (h, res, mask, events),
                r,
            ) ==> handle_changed(
                (*h).source(),
                res,
                Events(mask)@.union(events@),
                (*final(h)).source(),
                r,
            ),
        forall|
            h: &mut EventSourceHandle<&mut EventSourceIo>,
            res: i32,
            mask: u32,
            events: Events,
            r: Result<Command, &'static str>,
        | #[trigger]
            call_ensures(
                EventSourceHandle::<&mut EventSourceIo>::remove_events,
                (h, res, mask, events),
                r,
            ) ==> handle_changed(
                (*h).source(),
                res,
                Events(mask)@.difference(events@).union(events@.difference(Events(mask)@)),
                (*final(h)).source(),
                r,
            ),
        forall|
            h: &EventSourceHandle<&mut EventSourceIo>,
            res: i32,
            mask: u32,
            r: Result<Events, &'static str>,
        | #[trigger]
            call_ensures(EventSourceHandle::<&mut EventSourceIo>::get_events, (h, res, mask), r)
                ==> match r {
                Ok(events) => res >= 0 && events.0 == mask,
                Err(message) => res < 0 && message@ == "Could not set events on IO event handler."@,
            },
{
    assert forall|
        h: &mut EventSourceHandle<&mut EventSourceIo>,
        res: i32,
        mask: u32,
        events: Events,
        r: Result<Command, &'static str>,
    | #[trigger]
        call_ensures(
            EventSourceHandle::<&mut EventSourceIo>::add_events,
            (h, res, mask, events),
            r,
        ) implies handle_changed(
        (*h).source(),
        res,
        Events(mask)@.union(events@),
        (*final(h)).source(),
        r,
    ) by {}
    assert forall|
        h: &mut EventSourceHandle<&mut EventSourceIo>,
        res: i32,
        mask: u32,
        events: Events,
        r: Result<Command, &'static str>,
    | #[trigger]
        call_ensures(
            EventSourceHandle::<&mut EventSourceIo>::remove_events,
            (h, res, mask, events),
            r,
        ) implies handle_changed(
        (*h).source(),
        res,
        Events(mask)@.difference(events@).union(events@.difference(Events(mask)@)),
        (*final(h)).source(),
        r,
    ) by {
        let now = Events(mask)@.difference(events@).union(events@.difference(Events(mask)@));
        assert forall|i: u32| #[trigger]
            Events(mask ^ events.0)@.contains(i) <==> now.contains(i) by {
            crate::events::law_toggle_turns_round(Events(mask), events, i);
        }
        assert(Events(mask ^ events.0)@ =~= now);
    }
}

/// Whether an I/O source waits for other events afterwards, as the event loop is told, unless the event
/// loop could not report those before.
pub open spec fn handle_changed(
    before: EventSourceIo,
    res: i32,
    now: Set<u32>,
    after: EventSourceIo,
    r: Result<Command, &'static str>,
) -> bool {
    &&& after.event_source == before.event_source
    &&& after.fd == before.fd
    &&& after.borrowed == before.borrowed
    &&& match r {
        Ok(command) => {
            &&& res >= 0
            &&& after.events@ == now
            &&& command == (Command::SetIoEvents {
                event_source: before.event_source,
                events: after.events.0,
            })
        },
        Err(message) => {
            &&& res < 0
            &&& message@ == "Could not set events on IO event handler."@
            &&& after.events == before.events
        },
    }
}

/// A handle to a time source sets when it fires, as the event loop is told, and nothing else of the source.
pub proof fn law_time_handles()
    ensures
        forall|h: &mut EventSourceHandle<&mut EventSourceTime>, at: u64, r: Command| #[trigger]
            call_ensures(
                EventSourceHandle::<&mut EventSourceTime>::set_time,
                (h, Usec::Absolute(at)),
                r,
            ) ==> {
                let (before, after) = ((*h).source(), (*final(h)).source());
                &&& r == (Command::SetTime { event_source: before.event_source, usec: at })
                &&& after.usec == Usec::Absolute(at)
                &&& after.event_source == before.event_source
                &&& after.borrowed == before.borrowed
            },
{
}

/// Whatever its kind, a source is watched, ignored, or watched until it fires, as its handle is asked, and is
/// itself left alone.
pub proof fn law_handles_enable<T: crate::event::Source>()
    ensures
        forall|h: &mut EventSourceHandle<&mut T>, r: Command| #[trigger]
            call_ensures(EventSourceHandle::<&mut T>::enable, (h,), r) ==> r == (
            Command::SetEnabled { event_source: (*h).source().source_id(), enabled: 1 })
                && (*final(h)).source() == (*h).source(),
        forall|h: &mut EventSourceHandle<&mut T>, r: Command| #[trigger]
            call_ensures(EventSourceHandle::<&mut T>::disable, (h,), r) ==> r == (
            Command::SetEnabled { event_source: (*h).source().source_id(), enabled: 0 })
                && (*final(h)).source() == (*h).source(),
        forall|h: &mut EventSourceHandle<&mut T>, r: Command| #[trigger]
            call_ensures(EventSourceHandle::<&mut T>::oneshot, (h,), r) ==> r == (
            Command::SetEnabled { event_source: (*h).source().source_id(), enabled: -1i32 })
                && (*final(h)).source() == (*h).source(),
{
}

/// A change that fails is complained about exactly when it is not a time or a state that was to be set.
pub proof fn law_failure()
    ensures
        forall|command: &Command, res: i32, r: Option<&'static str>| #[trigger]
            call_ensures(Command::failure, (command, res), r) ==> {
                &&& r is Some <==> res < 0 && !(*command is SetTime) && !(*command is SetEnabled)
                &&& r matches Some(message) ==> command.complaint() == Some(message@)
            },
        forall|res: i32, r: Result<Event, &'static str>| #[trigger]
            call_ensures(Event::instantiate, (res,), r) ==> match r {
                Ok(event) => res >= 0 && event.event_sources@.len() == 0,
                Err(message) => res < 0 && message@ == "Cannot instantiate the event loop."@,
            },
{
    assert forall|command: &Command, res: i32, r: Option<&'static str>| #[trigger]
        call_ensures(Command::failure, (command, res), r) implies {
        &&& r is Some <==> res < 0 && !(*command is SetTime) && !(*command is SetEnabled)
        &&& r matches Some(message) ==> command.complaint() == Some(message@)
    } by {
        crate::event_laws::law_failures_are_complained_about(*command);
    }
}

/// Every lookup gives the first source of its kind with the id that is not in use, in use from then on, and
/// what becomes of it through the handle is what becomes of it in the list; nothing else changes. A
/// lookup fails only where there is no such source.
pub proof fn law_lookups()
    ensures
        forall|e: &mut Event, id: EventSourceId, r: Option<EventSourceHandle<&mut EventSourceTime>>|
            #[trigger]
            call_ensures(Event::get_event_source_time, (e, id), r) ==> {
                let (sources, changed) = ((*e).event_sources@, (*final(e)).event_sources@);
                match r {
                    Some(h) => exists|k: int|
                        {
                            &&& #[trigger] only_changed(sources, k, changed)
                            &&& is_first_like(sources, k, Kind::Time, id)
                            &&& sources[k] == EventSource::Time(
                                EventSourceTime { borrowed: false, ..*h.0 },
                            )
                            &&& (*h.0).borrowed
                            &&& changed[k] == EventSource::Time(*final(h.0))
                        },
                    None => changed == sources && none_like(sources, Kind::Time, id),
                }
            },
        forall|e: &mut Event, id: EventSourceId, r: Option<EventSourceHandle<&mut EventSourceIo>>|
            #[trigger]
            call_ensures(Event::get_event_source_io, (e, id), r) ==> {
                let (sources, changed) = ((*e).event_sources@, (*final(e)).event_sources@);
                match r {
                    Some(h) => exists|k: int|
                        {
                            &&& #[trigger] only_changed(sources, k, changed)
                            &&& is_first_like(sources, k, Kind::Io, id)
                            &&& sources[k] == EventSource::Io(
                                EventSourceIo { borrowed: false, ..*h.0 },
                            )
                            &&& (*h.0).borrowed
                            &&& changed[k] == EventSource::Io(*final(h.0))
                        },
                    None => changed == sources && none_like(sources, Kind::Io, id),
                }
            },
        forall|e: &mut Event, id: EventSourceId, r: Option<EventSourceHandle<&mut EventSourceSignal>>|
            #[trigger]
            call_ensures(Event::get_event_source_signal, (e, id), r) ==> {
                let (sources, changed) = ((*e).event_sources@, (*final(e)).event_sources@);
                match r {
                    Some(h) => exists|k: int|
                        {
                            &&& #[trigger] only_changed(sources, k, changed)
                            &&& is_first_like(sources, k, Kind::Signal, id)
                            &&& sources[k] == EventSource::Signal(
                                EventSourceSignal { borrowed: false, ..*h.0 },
                            )
                            &&& (*h.0).borrowed
                            &&& changed[k] == EventSource::Signal(*final(h.0))
                        },
                    None => changed == sources && none_like(sources, Kind::Signal, id),
                }
            },
{
    assert forall|
        e: &mut Event,
        id: EventSourceId,
        r: Option<EventSourceHandle<&mut EventSourceTime>>,
    | #[trigger]
        call_ensures(Event::get_event_source_time, (e, id), r) implies {
        let (sources, changed) = ((*e).event_sources@, (*final(e)).event_sources@);
        match r {
            Some(h) => exists|k: int|
                {
                    &&& #[trigger] only_changed(sources, k, changed)
                    &&& is_first_like(sources, k, Kind::Time, id)
                    &&& sources[k] == EventSource::Time(EventSourceTime { borrowed: false, ..*h.0 })
                    &&& (*h.0).borrowed
                    &&& changed[k] == EventSource::Time(*final(h.0))
                },
            None => changed == sources && none_like(sources, Kind::Time, id),
        }
    } by {
        let (sources, changed) = ((*e).event_sources@, (*final(e)).event_sources@);
        law_lookup_finds_what_is_not_in_use(sources, Kind::Time, id);
        if let Some(k) = crate::event::lookup(sources, Kind::Time, id) {
            assert(is_first_like(sources, k, Kind::Time, id));
            assert(only_changed(sources, k, changed));
        }
    }
    assert forall|
        e: &mut Event,
        id: EventSourceId,
        r: Option<EventSourceHandle<&mut EventSourceIo>>,
    | #[trigger]
        call_ensures(Event::get_event_source_io, (e, id), r) implies {
        let (sources, changed) = ((*e).event_sources@, (*final(e)).event_sources@);
        match r {
            Some(h) => exists|k: int|
                {
                    &&& #[trigger] only_changed(sources, k, changed)
                    &&& is_first_like(sources, k, Kind::Io, id)
                    &&& sources[k] == EventSource::Io(EventSourceIo { borrowed: false, ..*h.0 })
                    &&& (*h.0).borrowed
                    &&& changed[k] == EventSource::Io(*final(h.0))
                },
            None => changed == sources && none_like(sources, Kind::Io, id),
        }
    } by {
        let (sources, changed) = ((*e).event_sources@, (*final(e)).event_sources@);
        law_lookup_finds_what_is_not_in_use(sources, Kind::Io, id);
        if let Some(k) = crate::event::lookup(sources, Kind::Io, id) {
            assert(is_first_like(sources, k, Kind::Io, id));
            assert(only_changed(sources, k, changed));
        }
    }
    assert forall|
        e: &mut Event,
        id: EventSourceId,
        r: Option<EventSourceHandle<&mut EventSourceSignal>>,
    | #[trigger]
        call_ensures(Event::get_event_source_signal, (e, id), r) implies {
        let (sources, changed) = ((*e).event_sources@, (*final(e)).event_sources@);
        match r {
            Some(h) => exists|k: int|
                {
                    &&& #[trigger] only_changed(sources, k, changed)
                    &&& is_first_like(sources, k, Kind::Signal, id)
                    &&& sources[k] == EventSource::Signal(EventSourceSignal { borrowed: false, ..*h.0 })
                    &&& (*h.0).borrowed
                    &&& changed[k] == EventSource::Signal(*final(h.0))
                },
            None => changed == sources && none_like(sources, Kind::Signal, id),
        }
    } by {
        let (sources, changed) = ((*e).event_sources@, (*final(e)).event_sources@);
        law_lookup_finds_what_is_not_in_use(sources, Kind::Signal, id);
        if let Some(k) = crate::event::lookup(sources, Kind::Signal, id) {
            assert(is_first_like(sources, k, Kind::Signal, id));
            assert(only_changed(sources, k, changed));
        }
    }
}

/// Whether nothing changed but the source at `k`.
pub open spec fn only_changed(before: Seq<EventSource>, k: int, after: Seq<EventSource>) -> bool {
    &&& 0 <= k < before.len()
    &&& after.len() == before.len()
    &&& forall|j: int| 0 <= j < before.len() && j != k ==> #[trigger] after[j] == before[j]
}

/// Whether `k` is where the first source of a kind with an id stands that is not in use.
pub open spec fn is_first_like(
    sources: Seq<EventSource>,
    k: int,
    kind: Kind,
    id: EventSourceId,
) -> bool {
    &&& is_like(sources[k], kind, id, false)
    &&& forall|j: int| 0 <= j < k ==> !is_like(#[trigger] sources[j], kind, id, false)
}

/// Whether no source of a kind with an id is free.
pub open spec fn none_like(sources: Seq<EventSource>, kind: Kind, id: EventSourceId) -> bool {
    forall|j: int| 0 <= j < sources.len() ==> !is_like(#[trigger] sources[j], kind, id, false)
}

/// Every source that is added stands behind the others, in use: as it was asked for, and without a name until
/// the event loop gives it one. A time source that is refused stays without.
pub proof fn law_additions()
    ensures
        forall|e: &mut Event, fd: i32, events: Events, r: EventSourceHandle<&mut EventSourceIo>|
            #[trigger]
            call_ensures(Event::add_io, (e, fd, events), r) ==> {
                &&& *r.0 == (EventSourceIo { event_source: 0, fd, events, borrowed: true })
                &&& added(*e, *final(e), EventSource::Io(*final(r.0)))
            },
        forall|e: &mut Event, signal: Signal, r: EventSourceHandle<&mut EventSourceSignal>|
            #[trigger]
            call_ensures(Event::add_signal, (e, signal), r) ==> {
                &&& *r.0 == (EventSourceSignal {
                    event_source: 0,
                    signal,
                    handled: true,
                    borrowed: true,
                })
                &&& added(*e, *final(e), EventSource::Signal(*final(r.0)))
            },
        forall|e: &mut Event, signal: Signal, r: EventSourceHandle<&mut EventSourceSignal>|
            #[trigger]
            call_ensures(Event::add_signal_default, (e, signal), r) ==> {
                &&& *r.0 == (EventSourceSignal {
                    event_source: 0,
                    signal,
                    handled: false,
                    borrowed: true,
                })
                &&& added(*e, *final(e), EventSource::Signal(*final(r.0)))
            },
        forall|
            e: &mut Event,
            usec: Usec,
            res: i32,
            id: EventSourceId,
            r: Result<EventSourceHandle<&mut EventSourceTime>, AddError>,
        | #[trigger]
            call_ensures(Event::add_time, (e, usec, res, id), r) ==> match r {
                Ok(h) => {
                    &&& res >= 0 && id != 0
                    &&& *h.0 == (EventSourceTime { event_source: id, usec, borrowed: true })
                    &&& added(*e, *final(e), EventSource::Time(*final(h.0)))
                },
                Err(error) => {
                    &&& error == if res < 0 { AddError::Refused } else { AddError::Unnamed }
                    &&& res >= 0 ==> id == 0
                    &&& added(
                        *e,
                        *final(e),
                        EventSource::Time(
                            EventSourceTime { event_source: 0, usec, borrowed: true },
                        ),
                    )
                },
            },
        forall|
            e: &mut Event,
            clock: i32,
            usec: u64,
            accuracy: u64,
            res: i32,
            id: EventSourceId,
            r: Result<EventSourceHandle<&mut EventSourceTime>, AddError>,
        | #[trigger]
            call_ensures(
                Event::add_requested_time,
                (e, Command::AddTime { clock, usec, accuracy }, res, id),
                r,
            ) ==> match r {
                Ok(h) => {
                    &&& res >= 0 && id != 0
                    &&& *h.0 == (EventSourceTime {
                        event_source: id,
                        usec: Usec::Absolute(usec),
                        borrowed: true,
                    })
                    &&& added(*e, *final(e), EventSource::Time(*final(h.0)))
                },
                Err(error) => {
                    &&& error == if res < 0 { AddError::Refused } else { AddError::Unnamed }
                    &&& added(
                        *e,
                        *final(e),
                        EventSource::Time(
                            EventSourceTime {
                                event_source: 0,
                                usec: Usec::Absolute(usec),
                                borrowed: true,
                            },
                        ),
                    )
                },
            },
{
}

/// Whether the list has one more source, at its end.
pub open spec fn added(before: Event, after: Event, source: EventSource) -> bool {
    let (sources, changed) = (before.event_sources@, after.event_sources@);
    &&& changed.len() == sources.len() + 1
    &&& changed.last() == source
    &&& forall|j: int| 0 <= j < sources.len() ==> #[trigger] changed[j] == sources[j]
}

/// A source gets its name exactly when it was prepared, as it was asked for, and the event loop accepted and
/// named it. Otherwise it stays as it is.
pub proof fn law_registered()
    ensures
        forall|
            h: EventSourceHandle<&mut EventSourceIo>,
            setup: IoSetup,
            res: i32,
            id: EventSourceId,
            r: Result<EventSourceHandle<&mut EventSourceIo>, AddError>,
        | #[trigger]
            call_ensures(
                EventSourceHandle::<&mut EventSourceIo>::registered,
                (h, setup, res, id),
                r,
            ) ==> {
                let source = *h.0;
                let asked = IoStep::Register(
                    Command::AddIo { fd: source.fd, events: source.events.0 },
                );
                match r {
                    Ok(named) => {
                        &&& setup@.step == asked && source.fd >= 0
                        &&& res >= 0 && id != 0
                        &&& *named.0 == (EventSourceIo { event_source: id, ..source })
                        &&& *final(named.0) == *final(h.0)
                    },
                    Err(e) => {
                        &&& *final(h.0) == source
                        &&& e == AddError::Refused ==> res < 0
                        &&& e == AddError::Unnamed ==> id == 0
                        &&& e == AddError::Unprepared ==> !(setup@.step == asked && source.fd >= 0
                            && setup@.fd == source.fd && setup@.events == source.events)
                    },
                }
            },
        forall|
            h: EventSourceHandle<&mut EventSourceSignal>,
            setup: SignalSetup,
            res: i32,
            id: EventSourceId,
            r: Result<EventSourceHandle<&mut EventSourceSignal>, AddError>,
        | #[trigger]
            call_ensures(
                EventSourceHandle::<&mut EventSourceSignal>::registered,
                (h, setup, res, id),
                r,
            ) ==> {
                let source = *h.0;
                let asked = SignalStep::Register(
                    Command::AddSignal { signal: source.signal.0, handled: source.handled },
                );
                match r {
                    Ok(named) => {
                        &&& setup@.step == asked
                        &&& res >= 0 && id != 0
                        &&& *named.0 == (EventSourceSignal { event_source: id, ..source })
                        &&& *final(named.0) == *final(h.0)
                    },
                    Err(e) => {
                        &&& *final(h.0) == source
                        &&& e == AddError::Refused ==> res < 0
                        &&& e == AddError::Unnamed ==> id == 0
                        &&& e == AddError::Unprepared ==> !(setup@.step == asked && setup@.signal
                            == source.signal && setup@.handled == source.handled)
                    },
                }
            },
{
}

/// A handle that is given up leaves its source as it is, free to be looked up again.
pub proof fn law_release()
    ensures
        forall|h: EventSourceHandle<&mut EventSourceTime>, r: ()| #[trigger]
            call_ensures(EventSourceHandle::<&mut EventSourceTime>::release, (h,), r)
                ==> *final(h.0) == (EventSourceTime { borrowed: false, ..*h.0 }),
        forall|h: EventSourceHandle<&mut EventSourceIo>, r: ()| #[trigger]
            call_ensures(EventSourceHandle::<&mut EventSourceIo>::release, (h,), r)
                ==> *final(h.0) == (EventSourceIo { borrowed: false, ..*h.0 }),
        forall|h: EventSourceHandle<&mut EventSourceSignal>, r: ()| #[trigger]
            call_ensures(EventSourceHandle::<&mut EventSourceSignal>::release, (h,), r)
                ==> *final(h.0) == (EventSourceSignal { borrowed: false, ..*h.0 }),
{
}

} // verus!
